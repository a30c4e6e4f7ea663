use devbox_build::{Dir, Error, FoundEntry, LinkAction, TouchAction};

fn fixture() -> (Dir, devbox_build::File) {
    let root = Dir::new("/tmp/work");
    let file = root.file("nested/foo.txt");
    (root, file)
}

// link_to ------------------------------------------------------------------

#[test]
fn file_link_to() {
    let (root, file) = fixture();
    let link = root.file("nested/link");

    let first = link.link_to_result(&file, &FoundEntry::Missing, false);
    assert_eq!(Ok(LinkAction::CreateLink), first);

    let again = link.link_to_result(&file, &FoundEntry::LinkTo(file.path()), false);
    assert_eq!(Ok(LinkAction::KeepExisting), again);
}

#[test]
fn file_link_to_overwrite_link() {
    let (root, file) = fixture();
    let foe = root.file("foe");
    let link = root.file("nested/link");
    let found = FoundEntry::LinkTo(file.path());

    assert_eq!(Err(Error::AlreadyExists), link.link_to_result(&foe, &found, false));
    assert_eq!(Ok(LinkAction::ReplaceLink), link.link_to_result(&foe, &found, true));
}

#[test]
fn file_link_to_overwrite_file() {
    let (root, file) = fixture();
    let link = root.file("nested/link");

    assert_eq!(Err(Error::AlreadyExists), link.link_to_result(&file, &FoundEntry::NonLink, false));
    assert_eq!(Err(Error::AlreadyExists), link.link_to_result(&file, &FoundEntry::NonLink, true));
}

// link_from_inside ---------------------------------------------------------

#[test]
fn file_link_from_inside() {
    let (root, target) = fixture();
    let dir = root.dir("from");

    let (link, act) = target.link_from_inside(&dir, &FoundEntry::Missing);
    assert_eq!("/tmp/work/from/foo.txt", link.path());
    assert_eq!(LinkAction::CreateLink, act);

    let again = target.link_from_inside_result(&dir, &FoundEntry::LinkTo(target.path()), false);
    let (link, act) = again.unwrap();
    assert_eq!("/tmp/work/from/foo.txt", link.path());
    assert_eq!(LinkAction::KeepExisting, act);
}

#[test]
fn file_link_from_inside_overwrite_file() {
    let (root, target) = fixture();
    let dir = root.dir("from");

    assert!(target.link_from_inside_result(&dir, &FoundEntry::NonLink, false).is_err());
    assert!(target.link_from_inside_result(&dir, &FoundEntry::NonLink, true).is_err());
}

#[test]
fn file_link_from_inside_overwrite_link() {
    let (root, target) = fixture();
    let dir = root.dir("from");
    let elsewhere = FoundEntry::LinkTo(root.file("foo.txt").path());

    assert!(target.link_from_inside_result(&dir, &elsewhere, false).is_err());
    let (link, act) = target.link_from_inside_result(&dir, &elsewhere, true).unwrap();
    assert_eq!("/tmp/work/from/foo.txt", link.path());
    assert_eq!(LinkAction::ReplaceLink, act);
}

// dir links ----------------------------------------------------------------

#[test]
fn dir_link_to() {
    let root = Dir::new("/tmp/work");
    let dir = root.dir("nested/foo");
    let link = root.dir("nested/link");

    assert_eq!(Ok(LinkAction::CreateLink), link.link_to_result(&dir, &FoundEntry::Missing, false));
    assert_eq!(
        Ok(LinkAction::KeepExisting),
        link.link_to_result(&dir, &FoundEntry::LinkTo(dir.path()), false)
    );
}

#[test]
fn dir_link_to_overwrite_link() {
    let root = Dir::new("/tmp/work");
    let dir = root.dir("nested/foo");
    let foe = root.dir("foe");
    let link = root.dir("nested/link");
    let found = FoundEntry::LinkTo(dir.path());

    assert_eq!(Err(Error::AlreadyExists), link.link_to_result(&foe, &found, false));
    assert_eq!(Ok(LinkAction::ReplaceLink), link.link_to_result(&foe, &found, true));
}

#[test]
fn dir_link_to_overwrite_dir() {
    let root = Dir::new("/tmp/work");
    let dir = root.dir("nested/foo");
    let link = root.dir("nested/link");

    assert_eq!(Err(Error::AlreadyExists), link.link_to_result(&dir, &FoundEntry::NonLink, false));
    assert_eq!(Err(Error::AlreadyExists), link.link_to_result(&dir, &FoundEntry::NonLink, true));
}

#[test]
fn dir_link_from_inside() {
    let root = Dir::new("/tmp/work");
    let target = root.dir("target");
    let dir = root.dir("nested/foo");

    let (link, act) = target.link_from_inside(&dir, &FoundEntry::Missing);
    assert_eq!("/tmp/work/nested/foo/target", link.path());
    assert_eq!(LinkAction::CreateLink, act);
}

// unit links ---------------------------------------------------------------

#[test]
fn unit_link_from_inside() {
    let root = Dir::new("/tmp/work");
    let unit = devbox_build::Unit::Dir(root.dir("target"));
    let dir = root.dir("inside");

    let (link, act) = unit.link_from_inside(&dir, &FoundEntry::Missing);
    assert_eq!("/tmp/work/inside/target", link.path());
    assert_eq!(LinkAction::CreateLink, act);
    assert!(matches!(link, devbox_build::Unit::Dir(_)));
}

// touch decisions ----------------------------------------------------------

#[test]
fn touch_creates_or_bumps() {
    let root = Dir::new("/tmp/work");
    let file = root.file("f");
    assert_eq!(TouchAction::CreateEmpty, file.touch(false));
    assert_eq!(TouchAction::SetTimeNow, file.touch(true));
    assert_eq!(TouchAction::CreateEmpty, root.touch(false));
    assert_eq!(TouchAction::SetTimeNow, root.touch(true));
}
