//! Race-free path resolution confined to a filesystem subtree: the decision
//! logic of the resolvers, the procfs handle and the compound operations,
//! stated and proved with Verus.
//!
//! The system calls themselves are made by the caller of this library; the
//! functions here take what the kernel answered and decide what to do next.
pub mod capi;
pub mod decimal;
pub mod dir;
pub mod error;
pub mod flags;
pub mod kernel_version;
pub mod opath;
pub mod path;
pub mod procfs;
pub mod procfs_resolver;
pub mod root;
pub mod symlink_stack;
pub mod sysctl;
