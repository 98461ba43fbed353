use pathrs::capi::{
    copy_from_extensible_struct, CProcfsBase, ProcfsOpenFlags, ProcfsOpenHow,
    PATHRS_PROCFS_NEW_UNMASKED, PATHRS_PROC_ROOT, PATHRS_PROC_SELF, PATHRS_PROC_THREAD_SELF,
    PATHRS_PROC_TYPE_MASK, PATHRS_PROC_TYPE_PID, PATHRS_PROC_TYPE_SPECIAL,
};
use pathrs::capi::{CBorrowedFd, PATHRS_PROC_DEFAULT_ROOTFD};
use pathrs::error::ErrorKind;
use pathrs::procfs::ProcfsBase;

fn try_from(v: u64) -> Result<ProcfsBase, ErrorKind> {
    ProcfsBase::try_from(CProcfsBase(v)).map_err(|e| e.kind())
}

#[test]
fn procfsbase_try_from_crepr_procroot() {
    assert_eq!(try_from(PATHRS_PROC_ROOT), Ok(ProcfsBase::ProcRoot), "PATHRS_PROC_ROOT.try_into()");
}

#[test]
fn procfsbase_try_from_crepr_procself() {
    assert_eq!(try_from(PATHRS_PROC_SELF), Ok(ProcfsBase::ProcSelf), "PATHRS_PROC_SELF.try_into()");
}

#[test]
fn procfsbase_try_from_crepr_procthreadself() {
    assert_eq!(
        try_from(PATHRS_PROC_THREAD_SELF),
        Ok(ProcfsBase::ProcThreadSelf),
        "PATHRS_PROC_THREAD_SELF.try_into()"
    );
}

#[test]
fn procfsbase_try_from_crepr_procpid() {
    assert_eq!(try_from(PATHRS_PROC_TYPE_PID | 1), Ok(ProcfsBase::ProcPid(1)));
    assert_eq!(try_from(PATHRS_PROC_TYPE_PID | 12345), Ok(ProcfsBase::ProcPid(12345)));
    assert_eq!(
        try_from(PATHRS_PROC_TYPE_PID | u32::MAX as u64),
        Ok(ProcfsBase::ProcPid(u32::MAX))
    );
}

#[test]
fn procfsbase_try_from_crepr_procspecial_invalid() {
    assert_eq!(try_from(PATHRS_PROC_TYPE_SPECIAL), Err(ErrorKind::InvalidArgument));
    assert_eq!(try_from(PATHRS_PROC_TYPE_SPECIAL | 0xDEADBEEF), Err(ErrorKind::InvalidArgument));
}

#[test]
fn procfsbase_try_from_crepr_procpid_invalid() {
    assert_eq!(try_from(PATHRS_PROC_TYPE_PID), Err(ErrorKind::InvalidArgument));
    assert_eq!(
        try_from(PATHRS_PROC_TYPE_PID | (u32::MAX as u64 + 1)),
        Err(ErrorKind::InvalidArgument)
    );
}

#[test]
fn procfsbase_try_from_crepr_proctype_invalid() {
    assert_eq!(try_from(0xDEAD_BEEF_0000_0001), Err(ErrorKind::InvalidArgument));
    assert_eq!(try_from(0xDEAD_BEEF_3EAD_5E1F), Err(ErrorKind::InvalidArgument));
    assert_eq!(try_from(PATHRS_PROC_TYPE_MASK), Err(ErrorKind::InvalidArgument));
}

#[test]
fn procfsbase_try_from_crepr_invalid() {
    assert_eq!(try_from(0), Err(ErrorKind::InvalidArgument));
    assert_eq!(try_from(0xDEADBEEF), Err(ErrorKind::InvalidArgument));
}

#[test]
fn procfsbase_into_crepr_procroot() {
    assert_eq!(CProcfsBase::from(ProcfsBase::ProcRoot), CProcfsBase(PATHRS_PROC_ROOT));
}

#[test]
fn procfsbase_into_crepr_procself() {
    assert_eq!(CProcfsBase::from(ProcfsBase::ProcSelf), CProcfsBase(PATHRS_PROC_SELF));
}

#[test]
fn procfsbase_into_crepr_procthreadself() {
    assert_eq!(
        CProcfsBase::from(ProcfsBase::ProcThreadSelf),
        CProcfsBase(PATHRS_PROC_THREAD_SELF)
    );
}

#[test]
fn procfsbase_into_crepr_procpid() {
    assert_eq!(CProcfsBase::from(ProcfsBase::ProcPid(1)), CProcfsBase(PATHRS_PROC_TYPE_PID | 1));
    assert_eq!(
        CProcfsBase::from(ProcfsBase::ProcPid(1122334455)),
        CProcfsBase(PATHRS_PROC_TYPE_PID | 1122334455)
    );
}

fn check_round_trip(rust: ProcfsBase, c: CProcfsBase) {
    let c_to_rust = ProcfsBase::try_from(c).expect("should be valid value");
    assert_eq!(rust, c_to_rust, "c-to-rust ProcfsBase conversion ({c:?})");
    let rust_to_c = CProcfsBase::from(rust);
    assert_eq!(c, rust_to_c, "rust-to-c ProcfsBase conversion ({rust:?})");
    let c_to_rust_to_c = CProcfsBase::from(c_to_rust);
    assert_eq!(c, c_to_rust_to_c);
    let rust_to_c_to_rust =
        ProcfsBase::try_from(rust_to_c).expect("must be valid value when round-tripping");
    assert_eq!(rust, rust_to_c_to_rust);
}

#[test]
fn procfsbase_round_trip_procroot() {
    check_round_trip(ProcfsBase::ProcRoot, CProcfsBase(PATHRS_PROC_ROOT));
}

#[test]
fn procfsbase_round_trip_procself() {
    check_round_trip(ProcfsBase::ProcSelf, CProcfsBase(PATHRS_PROC_SELF));
}

#[test]
fn procfsbase_round_trip_procthreadself() {
    check_round_trip(ProcfsBase::ProcThreadSelf, CProcfsBase(PATHRS_PROC_THREAD_SELF));
}

#[test]
fn procfsbase_round_trip_procpid() {
    check_round_trip(ProcfsBase::ProcPid(1), CProcfsBase(PATHRS_PROC_TYPE_PID | 1));
    check_round_trip(ProcfsBase::ProcPid(12345), CProcfsBase(PATHRS_PROC_TYPE_PID | 12345));
    check_round_trip(
        ProcfsBase::ProcPid(1122334455),
        CProcfsBase(PATHRS_PROC_TYPE_PID | 1122334455),
    );
    check_round_trip(
        ProcfsBase::ProcPid(u32::MAX),
        CProcfsBase(PATHRS_PROC_TYPE_PID | u32::MAX as u64),
    );
}

#[test]
fn procfs_open_flags_unknown_bits() {
    let f = |bits| ProcfsOpenFlags { bits };
    assert!(!f(PATHRS_PROCFS_NEW_UNMASKED).contains_unknown_bits());
    assert!(!f(0).contains_unknown_bits());
    assert!(f(0x1000_0000).contains_unknown_bits());
    assert!(f(0xF000_0001).contains_unknown_bits());
}

#[test]
fn procfs_open_how_into_builder() {
    let how = |bits| ProcfsOpenHow { flags: ProcfsOpenFlags { bits } };
    let b = how(0).into_builder().expect("default flags are valid");
    assert!(b.subset_pid);
    let b = how(PATHRS_PROCFS_NEW_UNMASKED).into_builder().expect("unmasked is valid");
    assert!(!b.subset_pid);
    assert_eq!(
        how(0xF000).into_builder().map_err(|e| e.kind()).err(),
        Some(ErrorKind::InvalidArgument),
        "invalid flag should return EINVAL"
    );
}

fn struct_bytes(foo: u64, bar: u32, baz: u32) -> Vec<u8> {
    let mut v = foo.to_ne_bytes().to_vec();
    v.extend_from_slice(&bar.to_ne_bytes());
    v.extend_from_slice(&baz.to_ne_bytes());
    v
}

const STRUCT_SIZE: usize = 16;

#[test]
fn extensible_struct() {
    let example = struct_bytes(0xdeadbeeff00dcafe, 0x01234567, 0x89abcdef);
    assert_eq!(
        copy_from_extensible_struct(&example, STRUCT_SIZE)
            .expect("copy_from_extensible_struct with size=sizeof(struct)"),
        example,
        "copy_from_extensible_struct(struct, sizeof(struct))",
    );
}

#[test]
fn extensible_struct_short() {
    let example = struct_bytes(0xdeadbeeff00dcafe, 0x01234567, 0x89abcdef);
    assert_eq!(
        copy_from_extensible_struct(&example[..0], STRUCT_SIZE)
            .expect("copy_from_extensible_struct with size=0"),
        struct_bytes(0, 0, 0),
    );
    assert_eq!(
        copy_from_extensible_struct(&example[..8], STRUCT_SIZE)
            .expect("copy_from_extensible_struct with size=offsetof(struct.bar)"),
        struct_bytes(0xdeadbeeff00dcafe, 0, 0),
    );
    assert_eq!(
        copy_from_extensible_struct(&example[..12], STRUCT_SIZE)
            .expect("copy_from_extensible_struct with size=offsetof(struct.baz)"),
        struct_bytes(0xdeadbeeff00dcafe, 0x01234567, 0),
    );
}

#[test]
fn extensible_struct_long() {
    let mut compatible = struct_bytes(0xdeadbeeff00dcafe, 0x01234567, 0x89abcdef);
    compatible.extend_from_slice(&0u64.to_ne_bytes());
    assert_eq!(
        copy_from_extensible_struct(&compatible, STRUCT_SIZE)
            .expect("copy_from_extensible_struct with size=sizeof(structv2)"),
        compatible[..STRUCT_SIZE].to_vec(),
    );

    let mut incompatible = struct_bytes(0xdeadbeeff00dcafe, 0x01234567, 0x89abcdef);
    incompatible.extend_from_slice(&1u64.to_ne_bytes());
    assert_eq!(
        copy_from_extensible_struct(&incompatible, STRUCT_SIZE).map_err(|err| err.kind()).err(),
        Some(ErrorKind::UnsupportedStructureData),
    );
}

#[test]
fn procfs_open_how_from_extensible() {
    let how = ProcfsOpenHow::from_extensible(&PATHRS_PROCFS_NEW_UNMASKED.to_ne_bytes())
        .expect("plain struct");
    assert_eq!(how.flags.bits, PATHRS_PROCFS_NEW_UNMASKED);
    let mut v2 = PATHRS_PROCFS_NEW_UNMASKED.to_ne_bytes().to_vec();
    v2.extend_from_slice(&0u64.to_ne_bytes());
    let how = ProcfsOpenHow::from_extensible(&v2).expect("zero extension");
    assert_eq!(how.flags.bits, PATHRS_PROCFS_NEW_UNMASKED);
    let mut bad = PATHRS_PROCFS_NEW_UNMASKED.to_ne_bytes().to_vec();
    bad.extend_from_slice(&0xFFu64.to_ne_bytes());
    assert_eq!(
        ProcfsOpenHow::from_extensible(&bad).map_err(|e| e.kind()).err(),
        Some(ErrorKind::UnsupportedStructureData),
        "structure with extra trailing bytes should return E2BIG"
    );
    let how = ProcfsOpenHow::from_extensible(&[]).expect("empty struct");
    assert_eq!(how.flags.bits, 0);
}

#[test]
fn c_borrowed_fd() {
    assert_eq!(CBorrowedFd { inner: 3 }.try_as_borrowed_fd().ok(), Some(3));
    assert_eq!(CBorrowedFd { inner: 0 }.try_as_borrowed_fd().ok(), Some(0));
    assert_eq!(
        CBorrowedFd { inner: -1 }.try_as_borrowed_fd().map_err(|e| e.kind()).err(),
        Some(ErrorKind::InvalidArgument)
    );
    assert_eq!(PATHRS_PROC_DEFAULT_ROOTFD, -libc::EBADF);
    assert!(CBorrowedFd { inner: -libc::EBADF }.is_default_procfs());
    assert!(!CBorrowedFd { inner: 3 }.is_default_procfs());
}
