//! The values that cross the C boundary: the 64-bit encoding of a procfs
//! base, the flags of a new procfs handle, and extensible structures.
use crate::error::{Error, ErrorImpl, ErrorKind};
use crate::procfs::{ProcfsBase, ProcfsHandleBuilder};
use vstd::prelude::*;

verus! {

/// Bits of an encoded procfs base that give its type.
pub const PATHRS_PROC_TYPE_MASK: u64 = 0xFFFF_FFFF_0000_0000;

/// Type bits of the special bases (root, self, thread-self).
pub const PATHRS_PROC_TYPE_SPECIAL: u64 = 0xFFFF_FFFE_0000_0000;

/// Type bits of a `/proc/<pid>` base; the pid is in the low 32 bits.
pub const PATHRS_PROC_TYPE_PID: u64 = 0x8000_0000_0000_0000;

/// The encoding of `/proc`.
pub const PATHRS_PROC_ROOT: u64 = 0xFFFF_FFFE_7072_6F63;

/// The encoding of `/proc/self`.
pub const PATHRS_PROC_SELF: u64 = 0xFFFF_FFFE_091D_5E1F;

/// The encoding of `/proc/thread-self`.
pub const PATHRS_PROC_THREAD_SELF: u64 = 0xFFFF_FFFE_3EAD_5E1F;

/// A procfs base as the C API encodes it in 64 bits.
#[derive(PartialEq, Eq, Structural, Debug, Clone, Copy)]
pub struct CProcfsBase(pub u64);

/// The base that an encoded value stands for, if any.
pub open spec fn spec_base_of(v: u64) -> Option<ProcfsBase> {
    if v == PATHRS_PROC_ROOT {
        Some(ProcfsBase::ProcRoot)
    } else if v == PATHRS_PROC_SELF {
        Some(ProcfsBase::ProcSelf)
    } else if v == PATHRS_PROC_THREAD_SELF {
        Some(ProcfsBase::ProcThreadSelf)
    } else if v / 0x1_0000_0000 == PATHRS_PROC_TYPE_PID / 0x1_0000_0000 && v % 0x1_0000_0000 != 0 {
        Some(ProcfsBase::ProcPid((v % 0x1_0000_0000) as u32))
    } else {
        None
    }
}

/// The encoding of a base.
pub open spec fn spec_encode(b: ProcfsBase) -> u64 {
    match b {
        ProcfsBase::ProcRoot => PATHRS_PROC_ROOT,
        ProcfsBase::ProcSelf => PATHRS_PROC_SELF,
        ProcfsBase::ProcThreadSelf => PATHRS_PROC_THREAD_SELF,
        ProcfsBase::ProcPid(pid) => (PATHRS_PROC_TYPE_PID + pid) as u64,
    }
}

impl ProcfsBase {
    /// Decode a base from its C encoding; any other value is an invalid
    /// argument (including pid 0).
    pub fn try_from(c_base: CProcfsBase) -> (r: Result<ProcfsBase, Error>)
        ensures
            r matches Ok(b) ==> spec_base_of(c_base.0) == Some(b),
            r matches Err(e) ==> spec_base_of(c_base.0) is None && e.spec_kind()
                == ErrorKind::InvalidArgument,
    {
        let arg = c_base.0;
        if arg == PATHRS_PROC_ROOT {
            return Ok(ProcfsBase::ProcRoot);
        }
        if arg == PATHRS_PROC_SELF {
            return Ok(ProcfsBase::ProcSelf);
        }
        if arg == PATHRS_PROC_THREAD_SELF {
            return Ok(ProcfsBase::ProcThreadSelf);
        }
        let base_type: u64 = arg / 0x1_0000_0000;
        let value: u64 = arg % 0x1_0000_0000;
        let description: &str = if base_type == PATHRS_PROC_TYPE_PID / 0x1_0000_0000 {
            if value != 0 {
                return Ok(ProcfsBase::ProcPid(value as u32));
            }
            "pid 0 is an invalid value for PATHRS_PROC_PID"
        } else if base_type == PATHRS_PROC_TYPE_SPECIAL / 0x1_0000_0000 {
            "invalid special procfs base (unknown sub-value)"
        } else {
            "unknown procfs base type"
        };
        Err(
            Error::invalid_argument("procfs base", description).wrap(
                "the procfs base must be one of the PATHRS_PROC_* values or PATHRS_PROC_PID(n)",
            ),
        )
    }
}

impl From<ProcfsBase> for CProcfsBase {
    fn from(base: ProcfsBase) -> (r: CProcfsBase)
        ensures
            r.0 == spec_encode(base),
    {
        match base {
            ProcfsBase::ProcPid(pid) => CProcfsBase(PATHRS_PROC_TYPE_PID + pid as u64),
            ProcfsBase::ProcRoot => CProcfsBase(PATHRS_PROC_ROOT),
            ProcfsBase::ProcSelf => CProcfsBase(PATHRS_PROC_SELF),
            ProcfsBase::ProcThreadSelf => CProcfsBase(PATHRS_PROC_THREAD_SELF),
        }
    }
}

impl vstd::std_specs::convert::FromSpecImpl<ProcfsBase> for CProcfsBase {
    open spec fn obeys_from_spec() -> bool {
        true
    }

    open spec fn from_spec(base: ProcfsBase) -> CProcfsBase {
        CProcfsBase(spec_encode(base))
    }
}

/// Encoding a base and decoding it again gives the base back, for every
/// base but `/proc/0`, which is no valid pid.
pub proof fn lemma_base_round_trip(b: ProcfsBase)
    requires
        b != ProcfsBase::ProcPid(0),
    ensures
        spec_base_of(spec_encode(b)) == Some(b),
{
}

/// Decoding a valid encoding and encoding the result gives the same value.
pub proof fn lemma_encoding_round_trip(v: u64)
    requires
        spec_base_of(v) is Some,
    ensures
        spec_encode(spec_base_of(v)->Some_0) == v,
{
}

/// The one flag of a new procfs handle: construct a completely unmasked
/// handle.
pub const PATHRS_PROCFS_NEW_UNMASKED: u64 = 0x0000_0000_0000_0001;

/// The flags of `pathrs_procfs_open`.
#[derive(PartialEq, Eq, Structural, Debug, Clone, Copy)]
pub struct ProcfsOpenFlags {
    pub bits: u64,
}

impl ProcfsOpenFlags {
    /// Whether any bit other than the known flags is set.
    pub fn contains_unknown_bits(&self) -> (r: bool)
        ensures
            r == (self.bits & !PATHRS_PROCFS_NEW_UNMASKED != 0),
    {
        self.bits & !PATHRS_PROCFS_NEW_UNMASKED != 0
    }

    /// Whether every bit of `flag` is set.
    pub fn contains(&self, flag: u64) -> (r: bool)
        ensures
            r == (self.bits & flag == flag),
    {
        self.bits & flag == flag
    }
}

/// The arguments of `pathrs_procfs_open`.
#[derive(PartialEq, Eq, Structural, Debug, Clone, Copy)]
pub struct ProcfsOpenHow {
    pub flags: ProcfsOpenFlags,
}

/// The size of [`ProcfsOpenHow`] in the C API.
pub const PROCFS_OPEN_HOW_SIZE: usize = 8;

impl ProcfsOpenHow {
    /// The builder that these arguments ask for; unknown flag bits are an
    /// invalid argument.
    pub fn into_builder(self) -> (r: Result<ProcfsHandleBuilder, Error>)
        ensures
            r is Ok <==> self.flags.bits & !PATHRS_PROCFS_NEW_UNMASKED == 0,
            r matches Ok(b) ==> b.subset_pid == (self.flags.bits & PATHRS_PROCFS_NEW_UNMASKED
                != PATHRS_PROCFS_NEW_UNMASKED),
            r matches Err(e) ==> e.spec_kind() == ErrorKind::InvalidArgument,
    {
        let mut builder = ProcfsHandleBuilder::new();
        if self.flags.contains_unknown_bits() {
            return Err(Error::invalid_argument("flags", "contains unknown flag bits"));
        }
        if self.flags.contains(PATHRS_PROCFS_NEW_UNMASKED) {
            builder.set_unmasked();
        }
        Ok(builder)
    }

    /// Read the arguments from the bytes a C caller passed (see
    /// [`copy_from_extensible_struct`]), in the machine's byte order.
    pub fn from_extensible(raw: &[u8]) -> (r: Result<ProcfsOpenHow, Error>)
        ensures
            r is Ok <==> trailing_zero(raw@, PROCFS_OPEN_HOW_SIZE as nat),
            r matches Ok(how) ==> ({
                let b = spec_extensible(raw@, PROCFS_OPEN_HOW_SIZE as nat);
                how.flags.bits == u64_le(b) || how.flags.bits == u64_be(b)
            }),
            r matches Err(e) ==> e.spec_kind() == ErrorKind::UnsupportedStructureData,
    {
        let data = copy_from_extensible_struct(raw, PROCFS_OPEN_HOW_SIZE)?;
        let b: [u8; 8] = [data[0], data[1], data[2], data[3], data[4], data[5], data[6], data[7]];
        let bits = u64_from_ne_bytes(b);
        proof {
            assert(b@ =~= data@);
        }
        Ok(ProcfsOpenHow { flags: ProcfsOpenFlags { bits } })
    }
}

/// Whether every byte of `raw` past the first `size` is zero.
pub open spec fn trailing_zero(raw: Seq<u8>, size: nat) -> bool {
    forall|i: int| size <= i < raw.len() ==> raw[i] == 0
}

/// The structure that a caller's bytes stand for: cut to `size`, or padded
/// with zeros to it.
pub open spec fn spec_extensible(raw: Seq<u8>, size: nat) -> Seq<u8> {
    if raw.len() >= size {
        raw.take(size as int)
    } else {
        raw + Seq::new((size - raw.len()) as nat, |i: int| 0u8)
    }
}

/// Copy an extensible structure of `struct_size` bytes from the bytes a
/// caller passed. A shorter input is padded with zeros (fields it does not
/// know of are no-ops); a longer one is accepted only when every extra byte
/// is zero, else the structure holds data this library does not support.
pub fn copy_from_extensible_struct(raw: &[u8], struct_size: usize) -> (r: Result<Vec<u8>, Error>)
    ensures
        r is Ok <==> trailing_zero(raw@, struct_size as nat),
        r matches Ok(v) ==> v@ == spec_extensible(raw@, struct_size as nat),
        r matches Err(e) ==> e.spec_kind() == ErrorKind::UnsupportedStructureData,
{
    let mut i: usize = struct_size;
    while i < raw.len()
        invariant
            struct_size <= i,
            i <= raw@.len() || i == struct_size,
            forall|j: int| struct_size <= j < i ==> raw@[j] == 0,
        decreases raw@.len() - i,
    {
        if raw[i] != 0 {
            assert(!trailing_zero(raw@, struct_size as nat));
            return Err(
                Error::new(ErrorImpl::UnsupportedStructureData { name: "c struct".to_owned() }),
            );
        }
        i = i + 1;
    }
    let mut out: Vec<u8> = Vec::new();
    let mut k: usize = 0;
    while k < struct_size
        invariant
            k <= struct_size,
            out@.len() == k,
            forall|j: int| 0 <= j < k ==> out@[j] == spec_extensible(raw@, struct_size as nat)[j],
        decreases struct_size - k,
    {
        if k < raw.len() {
            out.push(raw[k]);
        } else {
            out.push(0u8);
        }
        k = k + 1;
    }
    assert(out@ =~= spec_extensible(raw@, struct_size as nat));
    Ok(out)
}

/// A 64-bit integer read from eight bytes, least significant first.
pub open spec fn u64_le(b: Seq<u8>) -> int {
    b[0] + 0x100 * (b[1] + 0x100 * (b[2] + 0x100 * (b[3] + 0x100 * (b[4] + 0x100 * (b[5]
        + 0x100 * (b[6] + 0x100 * b[7]))))))
}

/// A 64-bit integer read from eight bytes, most significant first.
pub open spec fn u64_be(b: Seq<u8>) -> int {
    u64_le(b.reverse())
}

/// Relies on `u64::from_ne_bytes`: the bytes read in the machine's own byte
/// order, which is one of the two.
#[verifier::external_body]
fn u64_from_ne_bytes(b: [u8; 8]) -> (r: u64)
    ensures
        r == u64_le(b@) || r == u64_be(b@),
{
    u64::from_ne_bytes(b)
}


/// A file descriptor passed by a C caller as a plain integer.
#[derive(PartialEq, Eq, Structural, Debug, Clone, Copy)]
pub struct CBorrowedFd {
    pub inner: i32,
}

/// The sentinel that asks for the default (possibly cached) procfs handle:
/// `-EBADF`.
pub const PATHRS_PROC_DEFAULT_ROOTFD: i32 = -9;

impl CBorrowedFd {
    /// The descriptor, once it is known not to be negative (an invalid
    /// argument otherwise).
    pub fn try_as_borrowed_fd(&self) -> (r: Result<i32, Error>)
        ensures
            r is Ok <==> self.inner >= 0,
            r matches Ok(fd) ==> fd == self.inner,
            r matches Err(e) ==> e.spec_kind() == ErrorKind::InvalidArgument,
    {
        if self.inner < 0 {
            return Err(Error::invalid_argument("fd", "passed file descriptors must not be negative"));
        }
        Ok(self.inner)
    }

    /// Whether the caller asked for the default procfs handle.
    pub fn is_default_procfs(&self) -> (r: bool)
        ensures
            r == (self.inner == PATHRS_PROC_DEFAULT_ROOTFD),
    {
        self.inner == PATHRS_PROC_DEFAULT_ROOTFD
    }
}

} // verus!
