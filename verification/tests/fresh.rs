use std::cell::Cell;

use devbox_build::{needs_rebuild, timestamp, Freshness, Resource, ResourceSet};

#[derive(Debug)]
struct Stamped(Option<i128>);

impl Resource for Stamped {
    fn timestamp(&self) -> Option<i128> {
        self.0
    }
}

// absent target always rebuilds ------------------------------------------

#[test]
fn rebuild_absent_target() {
    assert_eq!(true, needs_rebuild(&None, &None));
    assert_eq!(true, needs_rebuild(&None, &Some(5)));
}

// absent source never forces a rebuild ------------------------------------

#[test]
fn rebuild_absent_source() {
    assert_eq!(false, needs_rebuild(&Some(10), &None));
}

// strict monotonic staleness ----------------------------------------------

#[test]
fn rebuild_strictly_newer_source() {
    assert_eq!(true, needs_rebuild(&Some(10), &Some(11)));
    assert_eq!(false, needs_rebuild(&Some(10), &Some(10)));
    assert_eq!(false, needs_rebuild(&Some(10), &Some(9)));
}

// conditional rebuilds ----------------------------------------------------

#[test]
fn mk_from_runs_on_absent_target() {
    let ran = Cell::new(false);
    Stamped(None).mk_from("build it", &Stamped(None), || ran.set(true));
    assert_eq!(true, ran.get());
}

#[test]
fn mk_from_skips_on_absent_source() {
    let ran = Cell::new(false);
    Stamped(Some(10)).mk_from("build it", &Stamped(None), || ran.set(true));
    assert_eq!(false, ran.get());
}

#[test]
fn mk_from_compares_strictly() {
    let ran = Cell::new(false);
    Stamped(Some(10)).mk_from("build it", &Stamped(Some(10)), || ran.set(true));
    assert_eq!(false, ran.get());
    Stamped(Some(10)).mk_from("build it", &Stamped(Some(11)), || ran.set(true));
    assert_eq!(true, ran.get());
}

#[test]
fn mk_from_result_propagates() {
    let r: Result<(), &str> = Stamped(None).mk_from_result("build it", &Stamped(None), || {
        Err("boom")
    });
    assert_eq!(Err("boom"), r);
    let r: Result<(), &str> =
        Stamped(Some(10)).mk_from_result("build it", &Stamped(None), || Err("boom"));
    assert_eq!(Ok(()), r);
}

// aggregation --------------------------------------------------------------

#[test]
fn timestamp_of_collection_is_newest() {
    let items = vec![Stamped(None), Stamped(Some(5)), Stamped(Some(3))];
    assert_eq!(Some(5), timestamp(&items));
}

#[test]
fn timestamp_of_absent_members_is_absent() {
    let items: Vec<Stamped> = vec![];
    assert_eq!(None, timestamp(&items));
    let items = vec![Stamped(None), Stamped(None)];
    assert_eq!(None, timestamp(&items));
}

#[test]
fn resource_set_aggregates() {
    let set = ResourceSet::from_items(vec![Stamped(Some(7))]).and(Stamped(Some(9))).and(
        Stamped(None),
    );
    assert_eq!(Some(9), set.timestamp());
    let vec_res = vec![Stamped(Some(1)), Stamped(Some(2))];
    assert_eq!(Some(2), vec_res.timestamp());
}
