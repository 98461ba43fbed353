use pathrs::path::{
    join_components, partial_ancestors, path_is_absolute, path_split, path_strip_trailing_slash,
    raw_components,
};

fn comps(p: &[u8]) -> Vec<Vec<u8>> {
    raw_components(p)
}

fn v(parts: &[&[u8]]) -> Vec<Vec<u8>> {
    parts.iter().map(|p| p.to_vec()).collect()
}

#[test]
fn raw_components_keep_everything() {
    assert_eq!(comps(b"a/b/c"), v(&[b"a", b"b", b"c"]));
    assert_eq!(comps(b"a//b/"), v(&[b"a", b"", b"b", b""]));
    assert_eq!(comps(b"/a/./../b"), v(&[b"", b"a", b".", b"..", b"b"]));
    assert_eq!(comps(b""), v(&[b""]));
    assert_eq!(comps(b"/"), v(&[b"", b""]));
}

#[test]
fn join_components_round_trip() {
    for p in [&b"a/b/c"[..], b"a//b/", b"/x", b"", b"/"] {
        assert_eq!(join_components(&comps(p)), p.to_vec());
    }
}

#[test]
fn absolute_paths() {
    assert!(path_is_absolute(b"/etc"));
    assert!(!path_is_absolute(b"etc"));
    assert!(!path_is_absolute(b""));
}

#[test]
fn strip_trailing_slash() {
    assert_eq!(path_strip_trailing_slash(b"a/b//"), (b"a/b".to_vec(), true));
    assert_eq!(path_strip_trailing_slash(b"a/b"), (b"a/b".to_vec(), false));
    assert_eq!(path_strip_trailing_slash(b"/"), (b"/".to_vec(), false));
    assert_eq!(path_strip_trailing_slash(b"///"), (b"/".to_vec(), true));
    assert_eq!(path_strip_trailing_slash(b""), (b"".to_vec(), false));
}

#[test]
fn split_parent_and_trailing() {
    assert_eq!(path_split(b"a/b/c"), (b"a/b".to_vec(), Some(b"c".to_vec())));
    assert_eq!(path_split(b"c"), (b".".to_vec(), Some(b"c".to_vec())));
    assert_eq!(path_split(b"/c"), (b"/".to_vec(), Some(b"c".to_vec())));
    assert_eq!(path_split(b"a/"), (b"a".to_vec(), None));
    assert_eq!(path_split(b""), (b".".to_vec(), None));
}

#[test]
fn ancestors_nearest_first() {
    assert_eq!(
        partial_ancestors(b"a/b/c"),
        vec![
            (b"a/b".to_vec(), b"c".to_vec()),
            (b"a".to_vec(), b"b/c".to_vec()),
            (b".".to_vec(), b"a/b/c".to_vec()),
        ]
    );
    assert_eq!(partial_ancestors(b"x"), vec![(b".".to_vec(), b"x".to_vec())]);
}
