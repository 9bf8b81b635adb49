use skeptic::paths::{file_stem_of, join_path, parent_of, with_extension};
use skeptic::{
    get_edition, guess_ext, locked_deps_from_meta, locked_pairs, max_edition, resolve_rlib_deps,
    rustc_args, CargoMeta, CompileType, Fingerprint, GenError, LockedDeps, MetaNode,
};

fn fp(name: &str, version: Option<&str>, rlib: &str, mtime: u64) -> Fingerprint {
    Fingerprint {
        libname: String::from(name),
        version: version.map(String::from),
        rlib: String::from(rlib),
        mtime,
    }
}

#[test]
fn path_helpers_take_paths_apart() {
    assert_eq!(file_stem_of("docs/book.md"), "book");
    assert_eq!(file_stem_of(".hidden"), ".hidden");
    assert_eq!(parent_of("a/b/c"), "a/b");
    assert_eq!(parent_of("solo"), "");
    assert_eq!(join_path("a/b", "c.md"), "a/b/c.md");
    assert_eq!(join_path("a/b", "/abs/c.md"), "/abs/c.md");
    assert_eq!(with_extension("deps/libfoo-abc", "rlib"), "deps/libfoo-abc.rlib");
    assert_eq!(with_extension("deps/libfoo.so", "dll"), "deps/libfoo.dll");
}

#[test]
fn locked_deps_come_from_workspace_members() {
    let meta = CargoMeta {
        workspace_members: vec![String::from("me 0.1.0 (path)")],
        nodes: Some(vec![
            MetaNode {
                id: String::from("me 0.1.0 (path)"),
                deps: vec![
                    String::from("serde 1.0.0 (registry)"),
                    String::from("glob 0.3.0 (registry)"),
                ],
            },
            MetaNode {
                id: String::from("stranger 2.0.0 (registry)"),
                deps: vec![String::from("libc 0.2.0 (registry)")],
            },
        ]),
        editions: vec![String::from("2021")],
    };
    let lock = locked_deps_from_meta(&meta).unwrap();
    assert_eq!(
        lock.dependencies,
        vec![
            String::from("serde 1.0.0 (registry)"),
            String::from("glob 0.3.0 (registry)"),
            String::from("me 0.1.0 (path)"),
        ]
    );
}

#[test]
fn missing_resolution_is_an_error() {
    let meta = CargoMeta {
        workspace_members: vec![String::from("me 0.1.0 (path)")],
        nodes: None,
        editions: vec![String::from("2021")],
    };
    match locked_deps_from_meta(&meta) {
        Err(GenError::MissingDependencyMetadata) => {}
        _ => panic!("expected the missing resolve graph to be an error"),
    }
}

#[test]
fn dependency_lines_parse_into_pairs() {
    let mut lock = LockedDeps {
        dependencies: vec![
            String::from("serde 1.0.0 (registry)"),
            String::from("just-one-field"),
            String::from("bar-baz 0.2.0"),
        ],
    };
    assert_eq!(
        lock.next_dep(),
        Some((String::from("bar_baz"), String::from("0.2.0")))
    );
    assert_eq!(lock.next_dep(), None);
    assert_eq!(
        lock.next_dep(),
        Some((String::from("serde"), String::from("1.0.0")))
    );
    assert_eq!(lock.next_dep(), None);
}

#[test]
fn draining_the_lock_builds_the_version_map() {
    let lock = LockedDeps {
        dependencies: vec![
            String::from("foo 1.0.0 (registry)"),
            String::from("foo 2.0.0 (registry)"),
            String::from("bar 0.1.0 (registry)"),
        ],
    };
    let pairs = locked_pairs(lock);
    // popped newest-last first; the later binding of foo replaces the earlier
    assert_eq!(
        pairs,
        vec![
            (String::from("bar"), String::from("0.1.0")),
            (String::from("foo"), String::from("1.0.0")),
        ]
    );
}

#[test]
fn resolution_keeps_the_freshest_exact_match() {
    let locked = vec![(String::from("foo"), String::from("1.0.0"))];
    let fingers = vec![
        fp("foo", Some("1.0.0"), "deps/libfoo-old", 5),
        fp("foo", Some("2.0.0"), "deps/libfoo-wrong", 50),
        fp("foo", Some("1.0.0"), "deps/libfoo-new", 10),
        fp("unlocked", Some("1.0.0"), "deps/libunlocked", 9),
    ];
    let picked = resolve_rlib_deps(&locked, fingers);
    assert_eq!(picked.len(), 1);
    assert_eq!(picked[0].rlib, "deps/libfoo-new");
    assert_eq!(picked[0].mtime, 10);
}

#[test]
fn an_unversioned_fingerprint_matches_when_nothing_better_is_seen() {
    let locked = vec![(String::from("foo"), String::from("1.0.0"))];
    let fingers = vec![
        fp("foo", None, "deps/libfoo-unversioned", 50),
        fp("foo", Some("1.0.0"), "deps/libfoo-exact", 5),
    ];
    // the unversioned entry is seen first and only an exact fresher one
    // could replace it; the exact one here is older
    let picked = resolve_rlib_deps(&locked, fingers);
    assert_eq!(picked.len(), 1);
    assert_eq!(picked[0].rlib, "deps/libfoo-unversioned");

    let locked = vec![(String::from("foo"), String::from("1.0.0"))];
    let fingers = vec![
        fp("foo", Some("2.0.0"), "deps/libfoo-wrong", 50),
        fp("foo", Some("1.0.0"), "deps/libfoo-exact", 5),
    ];
    let picked = resolve_rlib_deps(&locked, fingers);
    assert_eq!(picked.len(), 1);
    assert_eq!(picked[0].rlib, "deps/libfoo-exact");
}

#[test]
fn fingerprints_parse_from_path_and_record() {
    let f = Fingerprint::from_file(
        "/t/debug/.fingerprint/foo-abc123/lib-foo.json",
        7,
        "{\"local\":{\"Precalculated\":\"1.2.3\"}}",
    )
    .unwrap();
    assert_eq!(f.name(), "foo");
    assert_eq!(f.version(), Some(String::from("1.2.3")));
    assert_eq!(f.rlib, "/t/debug/deps/libfoo-abc123");
    assert_eq!(f.mtime, 7);
}

#[test]
fn fingerprint_records_may_nest_the_version_in_an_array() {
    let f = Fingerprint::from_file(
        "/t/debug/.fingerprint/foo-abc123/lib-foo.json",
        7,
        "{\"local\":[{\"Precalculated\":\"2.0.0\"}]}",
    )
    .unwrap();
    assert_eq!(f.version(), Some(String::from("2.0.0")));
    let f = Fingerprint::from_file(
        "/t/debug/.fingerprint/foo-abc123/lib-foo.json",
        7,
        "{\"local\":{\"CheckDepInfo\":{}}}",
    )
    .unwrap();
    assert_eq!(f.version(), None);
}

#[test]
fn unusable_fingerprints_are_errors() {
    match Fingerprint::from_file("/t/.fingerprint/foo-abc/lib-foo.txt", 1, "{}") {
        Err(GenError::Fingerprint) => {}
        _ => panic!("expected the wrong extension to be an error"),
    }
    match Fingerprint::from_file("/t/.fingerprint/foo-abc/nodash.json", 1, "{}") {
        Err(GenError::Fingerprint) => {}
        _ => panic!("expected the dashless stem to be an error"),
    }
    match Fingerprint::from_file("/t/.fingerprint/foo-abc/lib-foo.json", 1, "not json") {
        Err(GenError::Json) => {}
        _ => panic!("expected the unparsable record to be an error"),
    }
}

#[test]
fn artifact_extensions_are_probed_in_order() {
    let exts = vec![
        (String::from("rlib"), false),
        (String::from("so"), true),
        (String::from("dylib"), true),
    ];
    assert_eq!(
        guess_ext("deps/libfoo-abc", &exts).unwrap(),
        "deps/libfoo-abc.so"
    );
    let none = vec![(String::from("rlib"), false), (String::from("so"), false)];
    match guess_ext("deps/libfoo-abc", &none) {
        Err(GenError::Fingerprint) => {}
        _ => panic!("expected a fingerprint without artifacts to be an error"),
    }
}

#[test]
fn the_largest_edition_wins() {
    let eds = vec![
        String::from("2015"),
        String::from("2021"),
        String::from("2018"),
    ];
    assert_eq!(max_edition(&eds).unwrap(), "2021");
    match max_edition(&Vec::new()) {
        Err(GenError::BadEdition) => {}
        _ => panic!("expected no editions to be an error"),
    }
    match max_edition(&vec![String::from("20x1")]) {
        Err(GenError::BadEdition) => {}
        _ => panic!("expected an unreadable edition to be an error"),
    }
}

#[test]
fn metadata_failures_surface_as_errors() {
    match get_edition("/this/path/does/not/exist/anywhere") {
        Err(GenError::Metadata) => {}
        Err(_) => panic!("expected the metadata failure"),
        Ok(_) => panic!("expected no metadata under a missing path"),
    }
}

#[test]
fn compiler_arguments_line_up() {
    let deps = vec![fp("foo", Some("1.0.0"), "/t/debug/deps/libfoo-abc.rlib", 1)];
    let args = rustc_args(
        "/tmp/test.rs",
        "/tmp/out.exe",
        "2021",
        "/t/debug",
        "/t/debug/deps",
        "x86_64-unknown-linux-gnu",
        &deps,
        CompileType::Full,
    );
    assert_eq!(
        args,
        vec![
            String::from("/tmp/test.rs"),
            String::from("--verbose"),
            String::from("--crate-type=bin"),
            String::from("--edition=2021"),
            String::from("-L"),
            String::from("/t/debug"),
            String::from("-L"),
            String::from("/t/debug/deps"),
            String::from("--target"),
            String::from("x86_64-unknown-linux-gnu"),
            String::from("--extern"),
            String::from("foo=/t/debug/deps/libfoo-abc.rlib"),
            String::from("-o"),
            String::from("/tmp/out.exe"),
        ]
    );
    let args = rustc_args(
        "/tmp/test.rs",
        "/tmp/out.exe",
        "2015",
        "/t/debug",
        "/t/debug/deps",
        "t",
        &Vec::new(),
        CompileType::Check,
    );
    assert!(!args.contains(&String::from("--edition=2015")));
    assert_eq!(
        args.last().unwrap(),
        "--emit=dep-info=/tmp/out.exe.d,metadata=/tmp/out.exe.m"
    );
}
