use frame_host::paths::{is_absolute, join_path};

#[test]
fn join_relative_adds_separator() {
    assert_eq!(join_path("/tmp", "etc"), "/tmp/etc");
}

#[test]
fn join_absolute_replaces() {
    assert_eq!(join_path("/tmp", "/etc"), "/etc");
}

#[test]
fn join_after_trailing_separator() {
    assert_eq!(join_path("/opt/", "factorio"), "/opt/factorio");
}

#[test]
fn join_onto_empty_base() {
    assert_eq!(join_path("", "out.txt"), "out.txt");
}

#[test]
fn join_empty_part_adds_separator() {
    assert_eq!(join_path("logs", ""), "logs/");
}

#[test]
fn join_matches_std_path_buf() {
    let cases = [
        ("/opt", "factorio"),
        ("/opt/", "bin/x64"),
        ("/opt", "/bin"),
        ("", "x"),
        ("a", ""),
        ("a/b", "c/d"),
    ];
    for (base, part) in cases.iter() {
        let expected = std::path::PathBuf::from(base).join(part);
        assert_eq!(join_path(base, part), expected.to_str().unwrap());
    }
}

#[test]
fn join_is_associative_on_examples() {
    let triples = [
        ("/opt", "factorio", "bin"),
        ("/opt", "", "bin"),
        ("/opt", "/srv", "bin"),
        ("opt/", "a/", "/b"),
        ("", "", ""),
    ];
    for (a, b, c) in triples.iter() {
        let left = join_path(&join_path(a, b), c);
        let right = join_path(a, &join_path(b, c));
        assert_eq!(left, right);
    }
}

#[test]
fn absolute_paths_start_at_the_root() {
    assert!(is_absolute("/opt/factorio"));
    assert!(!is_absolute("opt/factorio"));
    assert!(!is_absolute(""));
    for p in ["/", "/a", "a", "", "./a"].iter() {
        assert_eq!(is_absolute(p), std::path::Path::new(p).is_absolute());
    }
}
