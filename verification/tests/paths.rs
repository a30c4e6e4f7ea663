use devbox_build::{Dir, Error, File, normalize};

// path like args ----------------------------------------------------------

#[test]
fn dir_accept_path_like() {
    let a_str_ref = "/foo";
    let a_str_buf = "/foo".to_owned();
    let r_str_ref = "foo";
    let r_str_buf = "foo".to_owned();
    Dir::new(a_str_ref).dir(r_str_ref).file(r_str_ref);
    Dir::new(a_str_buf.as_str()).dir(r_str_buf.as_str()).file(r_str_buf.as_str());
    Dir::new(&a_str_buf).dir(&r_str_buf).file(&r_str_buf);
}

// normalization -----------------------------------------------------------

#[test]
fn normalize_equal_forms() {
    let a = normalize("a/../a/b").unwrap();
    let b = normalize("a/b").unwrap();
    assert_eq!(a.abs, b.abs);
    assert_eq!(a.parts, b.parts);
    assert_eq!(false, a.abs);
    assert_eq!(vec!["a".to_owned(), "b".to_owned()], a.parts);
}

#[test]
fn normalize_empty_fails() {
    assert!(normalize("").is_none());
}

#[test]
fn normalize_underflow_fails() {
    assert!(normalize("a/..").is_none());
    assert!(normalize("..").is_none());
    assert!(normalize("/..").is_none());
    assert!(normalize("/foo/../../x").is_none());
}

#[test]
fn normalize_resolves() {
    let n = normalize("/a/../a/b").unwrap();
    assert!(n.abs);
    assert_eq!(vec!["a".to_owned(), "b".to_owned()], n.parts);
    let n = normalize("/foo/./bar//baz/").unwrap();
    assert!(n.abs);
    assert_eq!(vec!["foo".to_owned(), "bar".to_owned(), "baz".to_owned()], n.parts);
    assert!(normalize("/").is_none());
}

// constructors ------------------------------------------------------------

#[test]
fn dir_new_simple() {
    assert_eq!("/foo/bar/baz", Dir::new("/foo/bar/baz").path());
}

#[test]
fn dir_new_resolv() {
    assert_eq!("/foo/bar/baz", Dir::new("/foo/../foo/bar/baz/x/y/../..").path());
}

#[test]
fn dir_new_safe_nonabs() {
    assert_eq!(Err(Error::NotAbsolute), Dir::new_safe("foo/bar/baz").map(|d| d.path()));
    assert_eq!(Err(Error::NotAbsolute), Dir::new_safe("/foo/../../x/foo/bar/baz").map(|d| d.path()));
}

#[test]
fn file_new_abs() {
    assert_eq!("/foo/bar/baz", File::new("/foo/bar/baz").unwrap().path());
    assert_eq!("/foo/bar/baz", File::new("/foo/../foo/bar/baz/x/y/../..").unwrap().path());
    assert_eq!(Err(Error::NotAbsolute), File::new("foo/bar").map(|f| f.path()));
    assert_eq!(Err(Error::NotAbsolute), File::new("").map(|f| f.path()));
}

// children ----------------------------------------------------------------

#[test]
fn dir_dir() {
    let foo = Dir::new("/foo");
    assert_eq!("/foo/bar/baz", foo.dir("bar/baz").path());
    assert_eq!("/foo/bar/baz", foo.dir("bar/../bar/baz/x/y/../..").path());
    assert_eq!(Err(Error::NotRelative), foo.dir_result("").map(|d| d.path()));
    assert_eq!(Err(Error::NotRelative), foo.dir_result("bar/..").map(|d| d.path()));
    assert_eq!(Err(Error::NotRelative), foo.dir_result("../foo/bar/baz").map(|d| d.path()));
    assert_eq!(Err(Error::NotRelative), foo.dir_result("/foo/bar/baz").map(|d| d.path()));
}

#[test]
fn dir_file() {
    let foo = Dir::new("/foo");
    assert_eq!("/foo/bar/baz", foo.file("bar/baz").path());
    assert_eq!("/foo/bar/baz", foo.file("bar/../bar/baz/x/y/../..").path());
    assert_eq!(Err(Error::NotRelative), foo.file_result("").map(|f| f.path()));
    assert_eq!(Err(Error::NotRelative), foo.file_result("bar/..").map(|f| f.path()));
    assert_eq!(Err(Error::NotRelative), foo.file_result("../foo/bar/baz").map(|f| f.path()));
    assert_eq!(Err(Error::NotRelative), foo.file_result("/foo/bar/baz").map(|f| f.path()));
}

#[test]
fn parent_drops_last() {
    let file = Dir::new("/a/b").file("c.txt");
    let parent = file.parent().unwrap();
    assert_eq!("/a/b", parent.path());
    let root = Dir::new("/a").parent().unwrap();
    assert_eq!("/", root.path());
    assert!(root.parent().is_none());
}
