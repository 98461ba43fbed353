//! Error kinds and the error type of the library.
use vstd::prelude::*;

verus! {

/// `ENOENT` on Linux (asm-generic numbering).
pub const ENOENT: i32 = 2;

/// `EINTR` on Linux.
pub const EINTR: i32 = 4;

/// `E2BIG` on Linux.
pub const E2BIG: i32 = 7;

/// `EAGAIN` on Linux.
pub const EAGAIN: i32 = 11;

/// `EXDEV` on Linux.
pub const EXDEV: i32 = 18;

/// `ENOTDIR` on Linux.
pub const ENOTDIR: i32 = 20;

/// `EINVAL` on Linux.
pub const EINVAL: i32 = 22;

/// `ENOSYS` on Linux.
pub const ENOSYS: i32 = 38;

/// `ELOOP` on Linux.
pub const ELOOP: i32 = 40;

/// Underlying error class for errors of this library.
#[derive(Debug, PartialEq, Eq, Structural, Clone, Copy)]
pub enum ErrorKind {
    /// The requested feature is not implemented.
    NotImplemented,
    /// The requested feature is not supported by the system.
    NotSupported,
    /// The provided arguments were invalid.
    InvalidArgument,
    /// An extensible structure argument contained trailing non-zero data
    /// which is not supported.
    UnsupportedStructureData,
    /// The safety of the operation could not be guaranteed (usually the
    /// result of an attack by a malicious program).
    SafetyViolation,
    /// Some internal error occurred.
    InternalError,
    /// The error came from a system call, with its `errno` if known.
    OsError(Option<i32>),
}

/// The C-like `errno` that stands for an error kind.
pub open spec fn kind_errno(k: ErrorKind) -> Option<i32> {
    match k {
        ErrorKind::NotImplemented => Some(ENOSYS),
        ErrorKind::NotSupported => Some(ENOSYS),
        ErrorKind::InvalidArgument => Some(EINVAL),
        ErrorKind::UnsupportedStructureData => Some(E2BIG),
        ErrorKind::SafetyViolation => Some(EXDEV),
        ErrorKind::OsError(errno) => errno,
        ErrorKind::InternalError => None,
    }
}

/// Whether an error kind is transient (`EAGAIN` or `EINTR`).
pub open spec fn kind_can_retry(k: ErrorKind) -> bool {
    kind_errno(k) == Some(EAGAIN) || kind_errno(k) == Some(EINTR)
}

impl ErrorKind {
    /// Return a C-like errno for the error kind: the errno of an
    /// [`ErrorKind::OsError`], and a fixed errno for the library's own kinds.
    pub fn errno(&self) -> (r: Option<i32>)
        ensures
            r == kind_errno(*self),
    {
        match self {
            ErrorKind::NotImplemented | ErrorKind::NotSupported => Some(ENOSYS),
            ErrorKind::InvalidArgument => Some(EINVAL),
            ErrorKind::UnsupportedStructureData => Some(E2BIG),
            ErrorKind::SafetyViolation => Some(EXDEV),
            ErrorKind::OsError(errno) => *errno,
            ErrorKind::InternalError => None,
        }
    }

    /// Whether the error is transient, so that the operation might succeed
    /// if retried.
    pub fn can_retry(&self) -> (r: bool)
        ensures
            r == kind_can_retry(*self),
    {
        match self.errno() {
            Some(e) => e == EAGAIN || e == EINTR,
            None => false,
        }
    }

    /// Whether the error kind maps to the same errno as a safety violation.
    pub fn is_safety_violation(&self) -> (r: bool)
        ensures
            r == (kind_errno(*self) == Some(EXDEV)),
    {
        match self.errno() {
            Some(e) => e == EXDEV,
            None => false,
        }
    }
}

/// The error chain behind an [`Error`].
#[derive(Debug)]
pub enum ErrorImpl {
    NotImplemented { feature: String },
    NotSupported { feature: String },
    InvalidArgument { name: String, description: String },
    UnsupportedStructureData { name: String },
    SafetyViolation { description: String },
    BadSymlinkStack { description: String },
    /// A failed system call: what was attempted and the errno it gave.
    OsError { operation: String, errno: Option<i32> },
    /// A value could not be parsed.
    Parse { description: String },
    /// Context added by an outer layer around an inner error.
    Wrapped { context: String, source: Box<ErrorImpl> },
}

/// The kind of an error chain: that of its innermost error.
pub open spec fn impl_kind(e: ErrorImpl) -> ErrorKind
    decreases e,
{
    match e {
        ErrorImpl::NotImplemented { .. } => ErrorKind::NotImplemented,
        ErrorImpl::NotSupported { .. } => ErrorKind::NotSupported,
        ErrorImpl::InvalidArgument { .. } => ErrorKind::InvalidArgument,
        ErrorImpl::UnsupportedStructureData { .. } => ErrorKind::UnsupportedStructureData,
        ErrorImpl::SafetyViolation { .. } => ErrorKind::SafetyViolation,
        ErrorImpl::OsError { errno, .. } => ErrorKind::OsError(errno),
        ErrorImpl::BadSymlinkStack { .. } => ErrorKind::InternalError,
        ErrorImpl::Parse { .. } => ErrorKind::InternalError,
        ErrorImpl::Wrapped { source, .. } => impl_kind(*source),
    }
}

/// The message of one layer of an error chain.
pub open spec fn impl_message(e: ErrorImpl) -> Seq<char> {
    match e {
        ErrorImpl::NotImplemented { feature } => "feature "@ + feature@ + " is not implemented"@,
        ErrorImpl::NotSupported { feature } => "feature "@ + feature@ + " not supported by the system"@,
        ErrorImpl::InvalidArgument { name, description } => "invalid "@ + name@ + " argument: "@
            + description@,
        ErrorImpl::UnsupportedStructureData { name } => "invalid "@ + name@
            + " structure: extra non-zero trailing bytes found"@,
        ErrorImpl::SafetyViolation { description } => "violation of safety requirement: "@
            + description@,
        ErrorImpl::BadSymlinkStack { description } => "broken symlink stack during iteration: "@
            + description@,
        ErrorImpl::OsError { operation, .. } => operation@ + " failed"@,
        ErrorImpl::Parse { description } => description@,
        ErrorImpl::Wrapped { context, .. } => context@,
    }
}

impl ErrorImpl {
    /// The message of this layer of the chain.
    pub fn message(&self) -> (r: String)
        ensures
            r@ == impl_message(*self),
    {
        let mut s = String::new();
        match self {
            ErrorImpl::NotImplemented { feature } => {
                s.append("feature ");
                s.append(feature.as_str());
                s.append(" is not implemented");
            },
            ErrorImpl::NotSupported { feature } => {
                s.append("feature ");
                s.append(feature.as_str());
                s.append(" not supported by the system");
            },
            ErrorImpl::InvalidArgument { name, description } => {
                s.append("invalid ");
                s.append(name.as_str());
                s.append(" argument: ");
                s.append(description.as_str());
            },
            ErrorImpl::UnsupportedStructureData { name } => {
                s.append("invalid ");
                s.append(name.as_str());
                s.append(" structure: extra non-zero trailing bytes found");
            },
            ErrorImpl::SafetyViolation { description } => {
                s.append("violation of safety requirement: ");
                s.append(description.as_str());
            },
            ErrorImpl::BadSymlinkStack { description } => {
                s.append("broken symlink stack during iteration: ");
                s.append(description.as_str());
            },
            ErrorImpl::OsError { operation, .. } => {
                s.append(operation.as_str());
                s.append(" failed");
            },
            ErrorImpl::Parse { description } => {
                s.append(description.as_str());
            },
            ErrorImpl::Wrapped { context, .. } => {
                s.append(context.as_str());
            },
        }
        proof {
            assert(s@ =~= impl_message(*self));
        }
        s
    }

    pub fn kind(&self) -> (r: ErrorKind)
        ensures
            r == impl_kind(*self),
        decreases self,
    {
        match self {
            ErrorImpl::NotImplemented { .. } => ErrorKind::NotImplemented,
            ErrorImpl::NotSupported { .. } => ErrorKind::NotSupported,
            ErrorImpl::InvalidArgument { .. } => ErrorKind::InvalidArgument,
            ErrorImpl::UnsupportedStructureData { .. } => ErrorKind::UnsupportedStructureData,
            ErrorImpl::SafetyViolation { .. } => ErrorKind::SafetyViolation,
            ErrorImpl::OsError { errno, .. } => ErrorKind::OsError(*errno),
            ErrorImpl::BadSymlinkStack { .. } => ErrorKind::InternalError,
            ErrorImpl::Parse { .. } => ErrorKind::InternalError,
            ErrorImpl::Wrapped { source, .. } => source.kind(),
        }
    }
}

/// Opaque error type of the library. Use [`Error::kind`] to handle it
/// programmatically.
#[derive(Debug)]
pub struct Error {
    inner: Box<ErrorImpl>,
}

impl Error {
    /// The kind of this error, as a spec value.
    pub closed spec fn spec_kind(&self) -> ErrorKind {
        impl_kind(*self.inner)
    }

    /// The message of the outermost layer, as a spec value.
    pub closed spec fn spec_message(&self) -> Seq<char> {
        impl_message(*self.inner)
    }

    pub fn new(inner: ErrorImpl) -> (r: Error)
        ensures
            r.spec_kind() == impl_kind(inner),
            r.spec_message() == impl_message(inner),
    {
        Error { inner: Box::new(inner) }
    }

    /// An error of a failed system call.
    pub fn os(operation: &str, errno: i32) -> (r: Error)
        ensures
            r.spec_kind() == ErrorKind::OsError(Some(errno)),
            r.spec_message() == operation@ + " failed"@,
    {
        Error::new(ErrorImpl::OsError { operation: operation.to_owned(), errno: Some(errno) })
    }

    /// An invalid-argument error.
    pub fn invalid_argument(name: &str, description: &str) -> (r: Error)
        ensures
            r.spec_kind() == ErrorKind::InvalidArgument,
    {
        Error::new(
            ErrorImpl::InvalidArgument {
                name: name.to_owned(),
                description: description.to_owned(),
            },
        )
    }

    /// A safety-violation error.
    pub fn safety_violation(description: &str) -> (r: Error)
        ensures
            r.spec_kind() == ErrorKind::SafetyViolation,
    {
        Error::new(ErrorImpl::SafetyViolation { description: description.to_owned() })
    }

    /// Get the [`ErrorKind`] of this error.
    pub fn kind(&self) -> (r: ErrorKind)
        ensures
            r == self.spec_kind(),
    {
        self.inner.kind()
    }

    /// Shorthand for `.kind().can_retry()`.
    pub fn can_retry(&self) -> (r: bool)
        ensures
            r == kind_can_retry(self.spec_kind()),
    {
        self.kind().can_retry()
    }

    /// Whether this error is (or maps to the errno of) a safety violation.
    pub fn is_safety_violation(&self) -> (r: bool)
        ensures
            r == (kind_errno(self.spec_kind()) == Some(EXDEV)),
    {
        self.kind().is_safety_violation()
    }

    /// Wrap the error with an additional context string; the kind is kept.
    pub fn wrap(self, context: &str) -> (r: Error)
        ensures
            r.spec_kind() == self.spec_kind(),
            r.spec_message() == context@,
    {
        Error {
            inner: Box::new(ErrorImpl::Wrapped { context: context.to_owned(), source: self.inner }),
        }
    }

    /// The message of the outermost layer of the error.
    pub fn to_string(&self) -> (r: String)
        ensures
            r@ == self.spec_message(),
    {
        self.inner.message()
    }

    /// The error chain behind this error.
    pub fn into_inner(self) -> (r: ErrorImpl)
        ensures
            impl_kind(r) == self.spec_kind(),
    {
        *self.inner
    }
}

} // verus!
