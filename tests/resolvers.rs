use pathrs::error::ErrorKind;
use pathrs::flags::{OpenFlags, ResolverFlags};
use pathrs::opath::{check_current, AfterOpen, ConfinedWalk, Step};
use pathrs::procfs_resolver;
use pathrs::procfs_resolver::{
    check_procfs_flags, ProcfsResolver, ProcfsWalk,
    MAX_SYMLINK_TRAVERSALS,
};
use pathrs::symlink_stack::SymlinkStack;

fn eloop() -> ErrorKind {
    ErrorKind::OsError(Some(libc::ELOOP))
}

#[test]
fn check_possible_magic_link() {
    assert!(procfs_resolver::check_possible_magic_link(b"foo").is_ok());
    assert!(procfs_resolver::check_possible_magic_link(b"12345").is_ok());
    assert!(procfs_resolver::check_possible_magic_link(b"12345/foo/bar/baz").is_ok());
    assert!(procfs_resolver::check_possible_magic_link(b"../../../../net/foo/bar").is_ok());

    assert!(procfs_resolver::check_possible_magic_link(b"/").is_err());
    assert!(procfs_resolver::check_possible_magic_link(b"/foo/bar").is_err());

    assert!(procfs_resolver::check_possible_magic_link(b"user:[123456123123]").is_err());
    assert!(procfs_resolver::check_possible_magic_link(b"pipe:[12345]").is_err());
    assert!(procfs_resolver::check_possible_magic_link(b"anon_inode:[pidfd]").is_err());
}

#[test]
fn magic_link_error_kind() {
    assert_eq!(procfs_resolver::check_possible_magic_link(b"/usr/bin/true").map_err(|e| e.kind()), Err(eloop()));
    assert_eq!(procfs_resolver::check_possible_magic_link(b"net:[4026531840]").map_err(|e| e.kind()), Err(eloop()));
    assert!(procfs_resolver::check_possible_magic_link(b"a]b[c:").is_ok());
    assert!(procfs_resolver::check_possible_magic_link(b"a:[b]:[c]").is_ok());
}

#[test]
fn procfs_flags_rejected() {
    let mut f = OpenFlags::empty();
    assert!(check_procfs_flags(f).is_ok());
    f.creat = true;
    assert_eq!(check_procfs_flags(f).map_err(|e| e.kind()), Err(ErrorKind::InvalidArgument));
    let mut f = OpenFlags::empty();
    f.tmpfile = true;
    assert_eq!(check_procfs_flags(f).map_err(|e| e.kind()), Err(ErrorKind::InvalidArgument));
}

#[test]
fn procfs_resolver_selection() {
    assert_eq!(ProcfsResolver::select(false), ProcfsResolver::Openat2);
    assert_eq!(ProcfsResolver::select(true), ProcfsResolver::RestrictedOpath);
}

#[test]
fn procfs_walk_refuses_escapes() {
    let none = ResolverFlags::empty();
    assert_eq!(
        ProcfsWalk::new(b"/etc/passwd", OpenFlags::empty(), none).map_err(|e| e.kind()).err(),
        Some(ErrorKind::OsError(Some(libc::EXDEV)))
    );
    let mut w = ProcfsWalk::new(b"self/../1", OpenFlags::empty(), none).expect("relative");
    assert_eq!(w.next_component().expect("self"), Some(b"self".to_vec()));
    assert_eq!(
        w.next_component().map_err(|e| e.kind()).err(),
        Some(ErrorKind::OsError(Some(libc::EXDEV)))
    );
}

#[test]
fn procfs_walk_trailing_slash_is_dot() {
    let mut w = ProcfsWalk::new(b"status/", OpenFlags::empty(), ResolverFlags::empty()).unwrap();
    assert_eq!(w.next_component().unwrap(), Some(b"status".to_vec()));
    assert_eq!(w.after_open(false).unwrap(), false);
    assert_eq!(w.next_component().unwrap(), Some(b".".to_vec()));
    assert_eq!(w.next_component().unwrap(), None);
}

#[test]
fn procfs_walk_final_reopen_table() {
    let flags = |path, nofollow, directory| OpenFlags { path, nofollow, directory, ..OpenFlags::empty() };
    let none = ResolverFlags::empty();
    // Plain O_PATH: no second open, symlinks are walked.
    let mut w = ProcfsWalk::new(b"self", flags(true, false, false), none).unwrap();
    w.next_component().unwrap();
    assert!(!w.wants_final_reopen());
    // O_DIRECTORY on a symlink: ENOTDIR from the forced O_NOFOLLOW is ignored.
    let mut w = ProcfsWalk::new(b"self", flags(false, false, true), none).unwrap();
    w.next_component().unwrap();
    assert!(w.wants_final_reopen());
    assert!(w.final_reopen_failed(Some(libc::ENOTDIR), true).is_ok());
    assert_eq!(
        w.final_reopen_failed(Some(libc::ENOTDIR), false).map_err(|e| e.kind()),
        Err(ErrorKind::OsError(Some(libc::ENOTDIR)))
    );
    // O_NOFOLLOW on a symlink: the ELOOP stands.
    let mut w = ProcfsWalk::new(b"self", flags(false, true, false), none).unwrap();
    w.next_component().unwrap();
    assert!(w.wants_final_reopen());
    assert_eq!(w.final_reopen_failed(Some(libc::ELOOP), true).map_err(|e| e.kind()), Err(eloop()));
    // O_DIRECTORY|O_NOFOLLOW on a symlink: ENOTDIR stands.
    let mut w = ProcfsWalk::new(b"self", flags(false, true, true), none).unwrap();
    w.next_component().unwrap();
    assert_eq!(
        w.final_reopen_failed(Some(libc::ENOTDIR), true).map_err(|e| e.kind()),
        Err(ErrorKind::OsError(Some(libc::ENOTDIR)))
    );
}

#[test]
fn procfs_walk_no_symlinks() {
    let nosym = ResolverFlags { no_symlinks: true };
    let mut w = ProcfsWalk::new(b"self/status", OpenFlags::empty(), nosym).unwrap();
    w.next_component().unwrap();
    assert_eq!(w.after_open(true).map_err(|e| e.kind()).err(), Some(eloop()));
}

#[test]
fn procfs_walk_symlink_loop() {
    // fd/N -> fd/N, the loop that dup2 of a magic-link onto itself makes.
    let mut w = ProcfsWalk::new(b"fd/3", OpenFlags::empty(), ResolverFlags::empty()).unwrap();
    let mut followed = 0usize;
    loop {
        let part = w.next_component().unwrap().expect("the loop never ends the walk");
        if part == b"fd".to_vec() {
            assert_eq!(w.after_open(false).unwrap(), false);
            continue;
        }
        match w.after_open(true) {
            Ok(true) => {
                w.follow_link(b"3").unwrap();
                followed += 1;
            }
            Ok(false) => panic!("a symlink is never stepped into"),
            Err(e) => {
                assert_eq!(e.kind(), eloop());
                break;
            }
        }
    }
    assert_eq!(followed, MAX_SYMLINK_TRAVERSALS - 1);
}

#[test]
fn procfs_walk_follows_link() {
    let mut w = ProcfsWalk::new(b"mounts", OpenFlags::empty(), ResolverFlags::empty()).unwrap();
    assert_eq!(w.next_component().unwrap(), Some(b"mounts".to_vec()));
    assert_eq!(w.after_open(true).unwrap(), true);
    w.follow_link(b"self/mounts").unwrap();
    assert_eq!(w.next_component().unwrap(), Some(b"self".to_vec()));
    assert_eq!(w.next_component().unwrap(), Some(b"mounts".to_vec()));
    assert_eq!(w.next_component().unwrap(), None);
    let mut w = ProcfsWalk::new(b"exe", OpenFlags::empty(), ResolverFlags::empty()).unwrap();
    w.next_component().unwrap();
    assert_eq!(w.after_open(true).unwrap(), true);
    assert_eq!(w.follow_link(b"/usr/bin/bash").map_err(|e| e.kind()), Err(eloop()));
}

fn open_part(step: Step) -> (Vec<u8>, bool, Vec<u8>) {
    match step {
        Step::Open { part, dotdot, remaining } => (part, dotdot, remaining),
        Step::Done => panic!("unexpected end of walk"),
        Step::ResetToRoot => panic!("unexpected reset"),
    }
}

#[test]
fn confined_dotdot_never_escapes() {
    let mut w = ConfinedWalk::new(b"../../../etc/passwd", ResolverFlags::empty(), false);
    for _ in 0..3 {
        assert!(matches!(w.next_component(), Step::ResetToRoot));
    }
    let (part, dotdot, remaining) = open_part(w.next_component());
    assert_eq!((part, dotdot, remaining), (b"etc".to_vec(), false, b"etc/passwd".to_vec()));
    assert!(matches!(w.after_open(false), AfterOpen::Advance));
    let (part, _, _) = open_part(w.next_component());
    assert_eq!(part, b"passwd".to_vec());
    assert!(matches!(w.after_open(false), AfterOpen::Advance));
    assert!(matches!(w.next_component(), Step::Done));
    assert!(w.check_expected(b"/tmp/root/etc/passwd", b"/tmp/root", b"/tmp/root").is_ok());
}

#[test]
fn confined_dotdot_pops_expected() {
    let mut w = ConfinedWalk::new(b"a/../b", ResolverFlags::empty(), false);
    open_part(w.next_component());
    assert!(matches!(w.after_open(false), AfterOpen::Advance));
    let (part, dotdot, _) = open_part(w.next_component());
    assert_eq!(part, b"..".to_vec());
    assert!(dotdot);
    assert!(w.check_expected(b"/r", b"/r", b"/r").is_ok());
    assert_eq!(
        w.check_expected(b"/", b"/r", b"/r").map_err(|e| e.kind()),
        Err(ErrorKind::SafetyViolation)
    );
}

#[test]
fn confined_symlink_escape_is_confined() {
    // root/bad -> ../../../../etc/passwd resolves inside the root.
    let mut w = ConfinedWalk::new(b"bad", ResolverFlags::empty(), false);
    open_part(w.next_component());
    assert!(matches!(w.after_open(true), AfterOpen::ReadLink));
    assert_eq!(w.follow_link(b"../../../../etc/passwd", false).unwrap(), false);
    for _ in 0..4 {
        assert!(matches!(w.next_component(), Step::ResetToRoot));
    }
    let (part, _, _) = open_part(w.next_component());
    assert_eq!(part, b"etc".to_vec());
    assert!(matches!(w.after_open(false), AfterOpen::Advance));
    let (part, _, _) = open_part(w.next_component());
    assert_eq!(part, b"passwd".to_vec());
    assert!(matches!(w.after_open(false), AfterOpen::Advance));
    assert!(matches!(w.next_component(), Step::Done));
    assert!(w.check_expected(b"/tmp/r/etc/passwd", b"/tmp/r", b"/tmp/r").is_ok());
    assert!(w.check_expected(b"/etc/passwd", b"/tmp/r", b"/tmp/r").is_err());
}

#[test]
fn confined_dangling_nofollow_returns_link() {
    let mut w = ConfinedWalk::new(b"link", ResolverFlags::empty(), true);
    open_part(w.next_component());
    assert!(matches!(w.after_open(true), AfterOpen::ReturnLink));
    let mut w = ConfinedWalk::new(b"link", ResolverFlags::empty(), false);
    open_part(w.next_component());
    assert!(matches!(w.after_open(true), AfterOpen::ReadLink));
    assert_eq!(w.follow_link(b"nowhere", false).unwrap(), false);
    let (part, _, remaining) = open_part(w.next_component());
    assert_eq!(part, b"nowhere".to_vec());
    assert_eq!(remaining, b"nowhere".to_vec());
}

#[test]
fn confined_symlink_loop() {
    // root/a -> b, root/b -> a.
    let mut w = ConfinedWalk::new(b"a", ResolverFlags::empty(), false);
    let mut followed = 0usize;
    loop {
        let (part, _, _) = open_part(w.next_component());
        match w.after_open(true) {
            AfterOpen::ReadLink => {
                let target: &[u8] = if part == b"a".to_vec() { b"b" } else { b"a" };
                w.follow_link(target, false).unwrap();
                followed += 1;
            }
            AfterOpen::Stop(e) => {
                assert_eq!(e.kind(), eloop());
                break;
            }
            _ => panic!("a loop is only ever followed or stopped"),
        }
    }
    assert_eq!(followed, MAX_SYMLINK_TRAVERSALS - 1);
}

#[test]
fn confined_no_symlinks() {
    let mut w = ConfinedWalk::new(b"link/x", ResolverFlags { no_symlinks: true }, false);
    open_part(w.next_component());
    match w.after_open(true) {
        AfterOpen::Stop(e) => assert_eq!(e.kind(), eloop()),
        _ => panic!("symlinks are refused"),
    }
    let mut w = ConfinedWalk::new(b"link", ResolverFlags { no_symlinks: true }, false);
    open_part(w.next_component());
    assert!(matches!(w.after_open(true), AfterOpen::Stop(_)));
}

#[test]
fn confined_absolute_link_resets() {
    let mut w = ConfinedWalk::new(b"dir/abs", ResolverFlags::empty(), false);
    open_part(w.next_component());
    assert!(matches!(w.after_open(false), AfterOpen::Advance));
    open_part(w.next_component());
    assert!(matches!(w.after_open(true), AfterOpen::ReadLink));
    assert_eq!(w.follow_link(b"/", true).map_err(|e| e.kind()).err(), Some(eloop()));
    assert_eq!(w.follow_link(b"/target", false).unwrap(), true);
    let (part, _, _) = open_part(w.next_component());
    assert_eq!(part, b".".to_vec());
    assert!(matches!(w.after_open(false), AfterOpen::Advance));
    open_part(w.next_component());
    assert!(matches!(w.after_open(false), AfterOpen::Advance));
    assert!(w.check_expected(b"/r/target", b"/r", b"/r").is_ok());
}

#[test]
fn check_current_paths() {
    let exp = vec![b"a".to_vec(), b"b".to_vec()];
    assert!(check_current(b"/root/a/b", b"/root", &exp, b"/root").is_ok());
    assert!(check_current(b"/a/b", b"/", &exp, b"/").is_ok());
    assert!(check_current(b"/root/a/b/", b"/root//", &exp, b"/root").is_ok());
    assert!(check_current(b"/root/a", b"/root", &exp, b"/root").is_err());
    assert_eq!(
        check_current(b"/root/a/b", b"/root", &exp, b"/moved").map_err(|e| e.kind()),
        Err(ErrorKind::SafetyViolation)
    );
    assert!(check_current(b"/root", b"/root", &[], b"/root").is_ok());
}

#[test]
fn symlink_stack_reports_outer_link() {
    let mut stack: SymlinkStack<u32> = SymlinkStack::new();
    assert!(stack.pop_part(b"anything").is_ok());
    // "link/c" with link -> "x/y": the walk stands in dir 1 when it meets link.
    stack.swap_link(b"link", 1, b"link/c".to_vec(), b"x/y").unwrap();
    assert!(!stack.is_empty());
    stack.pop_part(b"x").unwrap();
    assert_eq!(
        stack.pop_part(b"zzz").map_err(|e| e.kind()).err(),
        Some(ErrorKind::InternalError)
    );
    assert_eq!(stack.pop_top_symlink(), Some((1, b"link/c".to_vec())));
    assert!(stack.pop_top_symlink().is_none());

    let mut stack: SymlinkStack<u32> = SymlinkStack::new();
    stack.swap_link(b"l1", 1, b"l1".to_vec(), b"l2/z").unwrap();
    stack.swap_link(b"l2", 2, b"l2/z".to_vec(), b"w").unwrap();
    stack.pop_part(b"w").unwrap();
    stack.pop_part(b"z").unwrap();
    assert!(stack.is_empty());
    stack.swap_link(b"l3", 3, b"l3".to_vec(), b"a//").unwrap();
    stack.pop_part(b"a").unwrap();
    stack.pop_part(b".").unwrap();
    assert!(!stack.is_empty());
    stack.pop_part(b".").unwrap();
    assert!(stack.is_empty());
}
