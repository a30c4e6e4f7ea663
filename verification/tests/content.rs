use devbox_build::{Dir, Error, File, Unit, WalkEntry};

fn file_entry(rel: &str) -> WalkEntry {
    WalkEntry { rel: rel.to_owned(), is_dir: false, is_file: true, mtime: None }
}

fn dir_entry(rel: &str) -> WalkEntry {
    WalkEntry { rel: rel.to_owned(), is_dir: true, is_file: false, mtime: None }
}

fn stamped(rel: &str, is_dir: bool, mtime: i128) -> WalkEntry {
    WalkEntry { rel: rel.to_owned(), is_dir, is_file: !is_dir, mtime: Some(mtime) }
}

// selection rules ----------------------------------------------------------

#[test]
fn selects_by_glob() {
    let root = Dir::new("/r");
    let q = root.content("*.rs");
    assert_eq!(true, q.selects("a.rs"));
    assert_eq!(false, q.selects("a.js"));
    assert_eq!(false, q.selects("sub/a.rs"));
    let q = root.content("**/*.rs");
    assert_eq!(true, q.selects("sub/a.rs"));
}

#[test]
fn exclusion_wins_over_acceptance() {
    let root = Dir::new("/r");
    let q = root.content("foo*").exclude("*.tmp");
    assert_eq!(false, q.selects("foo.tmp"));
    assert_eq!(true, q.selects("foo.txt"));

    // the same rules in the other order reject just the same
    let q = root.content("*.tmp").exclude("*.tmp").accept("foo*");
    assert_eq!(false, q.selects("foo.tmp"));
    assert_eq!(true, q.selects("foo.txt"));
}

#[test]
fn bad_pattern_is_rejected() {
    let root = Dir::new("/r");
    assert!(matches!(root.content_result("{"), Err(Error::BadPattern)));
    assert!(matches!(root.dirs_result("{"), Err(Error::BadPattern)));
    assert!(matches!(root.files_result("{"), Err(Error::BadPattern)));
    assert!(root.content_result("*").is_ok());
    let q = root.content("*");
    assert!(matches!(q.accept_result("{"), Err(Error::BadPattern)));
    let q = root.content("*");
    assert!(matches!(q.exclude_result("{"), Err(Error::BadPattern)));
}

// filtering walked entries -------------------------------------------------

#[test]
fn dir_content_incl_excl() {
    let root = Dir::new("/r");
    let entries = vec![file_entry("foo.rs"), file_entry("bar.js"), file_entry("baz.js")];

    assert_eq!(1, root.content("foo*").select_units(&entries).len());
    assert_eq!(2, root.content("foo*").accept("bar*").select_units(&entries).len());
    assert_eq!(3, root.content("foo*").accept("bar*").accept("ba*").select_units(&entries).len());
    assert_eq!(2, root.content("**").exclude("*.rs").select_units(&entries).len());
    assert_eq!(1, root.content("**").exclude("*.rs").exclude("baz*").select_units(&entries).len());
}

#[test]
fn dir_content_paths() {
    let root = Dir::new("/r");
    let entries = vec![dir_entry("foo"), file_entry("foo/bar")];

    let dirs = root.dirs("**").select_units(&entries);
    assert_eq!(Unit::Dir(root.dir("foo")), dirs[0]);

    let files = root.files("**").select_units(&entries);
    assert_eq!(Unit::File(root.file("foo/bar")), files[0]);

    let named = root.content("**/bar").select_units(&entries);
    assert_eq!(Unit::File(root.file("foo/bar")), named[0]);
}

/// The tree of the traversal scenario, as a walk that follows links hands
/// it back: `foo/bar2` is a link to `foo/bar1`, so everything under `bar1`
/// is seen twice; `foo/cycl` links back to the root, so the walk cuts it.
fn scenario() -> Vec<WalkEntry> {
    vec![
        dir_entry("foo"),
        file_entry("root.rs"),
        dir_entry("foo/bar1"),
        file_entry("foo/bar1/bar.rs"),
        file_entry("foo/bar1/bars"),
        dir_entry("foo/bar1/baz"),
        file_entry("foo/bar1/baz/baz.rs"),
        file_entry("foo/bar1/baz/baz.js"),
        dir_entry("foo/bar2"),
        file_entry("foo/bar2/bar.rs"),
        file_entry("foo/bar2/bars"),
        dir_entry("foo/bar2/baz"),
        file_entry("foo/bar2/baz/baz.rs"),
        file_entry("foo/bar2/baz/baz.js"),
    ]
}

#[test]
fn dir_content_count() {
    let root = Dir::new("/r");
    let cases: Vec<(&str, usize, usize)> = vec![
        ("**/*.jpg", 0, 0),
        ("*", 1, 1),
        ("*/*", 2, 0),
        ("*/*/*", 2, 4),
        ("**/bar1/*", 1, 2),
        ("**/*.rs", 0, 5),
        ("**", 5, 9),
    ];
    let entries = scenario();
    for (glob, dirs, files) in cases {
        assert_eq!(dirs, root.dirs(glob).select_units(&entries).len(), "dirs {}", glob);
        assert_eq!(files, root.files(glob).select_units(&entries).len(), "files {}", glob);
        assert_eq!(dirs + files, root.content(glob).select_units(&entries).len(), "both {}", glob);
    }
}

#[test]
fn root_entry_is_never_yielded() {
    let root = Dir::new("/r");
    let entries = vec![dir_entry(""), file_entry("a")];
    let units = root.content("**").select_units(&entries);
    assert_eq!(1, units.len());
    assert_eq!(Unit::File(root.file("a")), units[0]);
}

// stamps over selected content ---------------------------------------------

#[test]
fn dir_content_timestamp() {
    let root = Dir::new("/r");
    let entries = vec![
        stamped("foo", true, 40),
        stamped("foo/bar", false, 70),
        WalkEntry { rel: "foo/new".to_owned(), is_dir: false, is_file: true, mtime: None },
    ];

    assert_eq!(Some(40), root.dirs("**").content_stamp(&entries));
    assert_eq!(Some(70), root.files("**").content_stamp(&entries));
    assert_eq!(Some(70), root.content("**").content_stamp(&entries));
    assert_eq!(None, root.content("none*").content_stamp(&entries));
    let empty: Vec<WalkEntry> = vec![];
    assert_eq!(None, root.content("**").content_stamp(&empty));
}

// entity construction -------------------------------------------------------

#[test]
fn selected_paths_extend_root() {
    let root = Dir::new("/r/sub");
    let entries = vec![dir_entry("d"), file_entry("d/f")];
    let units = root.content("**").select_units(&entries);
    assert_eq!(2, units.len());
    assert_eq!("/r/sub/d", units[0].path());
    assert_eq!("/r/sub/d/f", units[1].path());
    assert!(matches!(units[0], Unit::Dir(_)));
    assert!(matches!(units[1], Unit::File(_)));
}

#[test]
fn file_dir_equality() {
    assert_eq!(File::new("/a/b").unwrap(), File::new("/a//b/").unwrap());
    assert_ne!(File::new("/a/b").unwrap(), File::new("/a/c").unwrap());
    assert_eq!(Dir::new("/a/b"), Dir::new("/a/./b"));
    assert_ne!(Unit::Dir(Dir::new("/a")), Unit::File(File::new("/a").unwrap()));
}
