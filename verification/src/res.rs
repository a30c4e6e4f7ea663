//! Resources and the freshness gate: anything that can report an optional
//! modification stamp, the rule deciding when a target must be rebuilt from
//! a source, and stamp aggregation over collections.

use vstd::prelude::*;

verus! {

/// Decides whether a target with stamp `target` must be rebuilt from a
/// source with stamp `source`.
///
/// An absent target always rebuilds, whatever the source reports; an absent
/// source never by itself forces a rebuild; when both stamps are present the
/// target is rebuilt exactly when the source is strictly newer.
pub fn needs_rebuild(target: &Option<i128>, source: &Option<i128>) -> (r: bool)
    ensures
        r == (target is None || (target is Some && source is Some && source.unwrap()
            > target.unwrap())),
{
    match target {
        None => true,
        Some(t) => match source {
            Some(s) => *s > *t,
            None => false,
        },
    }
}

/// The aggregate stamp of a sequence of optional stamps: the newest present
/// one, absent when the sequence is empty or every member is absent.
pub open spec fn spec_max_stamp(stamps: Seq<Option<i128>>) -> Option<i128>
    decreases stamps.len(),
{
    if stamps.len() == 0 {
        None
    } else {
        let prev = spec_max_stamp(stamps.drop_last());
        match stamps.last() {
            None => prev,
            Some(t) => match prev {
                None => Some(t),
                Some(p) => if t > p {
                    Some(t)
                } else {
                    Some(p)
                },
            },
        }
    }
}

/// The aggregate stamp is absent exactly when every member is absent — an
/// empty or wholly absent collection is never "infinitely fresh" — and a
/// present aggregate is the stamp of some member, with no member newer.
pub proof fn lemma_max_stamp_spec(stamps: Seq<Option<i128>>)
    ensures
        spec_max_stamp(stamps) is None <==> (forall|i: int|
            0 <= i < stamps.len() ==> stamps[i] is None),
        spec_max_stamp(stamps) matches Some(m) ==> stamps.contains(Some(m)) && (forall|i: int|
            0 <= i < stamps.len() && stamps[i] is Some ==> stamps[i].unwrap() <= m),
    decreases stamps.len(),
{
    if stamps.len() > 0 {
        lemma_max_stamp_spec(stamps.drop_last());
        let prev = spec_max_stamp(stamps.drop_last());
        if prev is Some {
            let p = prev.unwrap();
            let j = choose|j: int|
                0 <= j < stamps.drop_last().len() && stamps.drop_last()[j] == Some(p);
            assert(stamps[j] == Some(p));
        }
        if spec_max_stamp(stamps) is Some {
            let m = spec_max_stamp(stamps).unwrap();
            assert forall|i: int|
                0 <= i < stamps.len() && stamps[i] is Some implies stamps[i].unwrap() <= m by {
                if i < stamps.len() - 1 {
                    assert(stamps.drop_last()[i] == stamps[i]);
                }
            }
            if stamps.last() == Some(m) {
                assert(stamps[stamps.len() - 1] == Some(m));
            }
        }
        if spec_max_stamp(stamps) is None {
            assert forall|i: int| 0 <= i < stamps.len() implies stamps[i] is None by {
                if i < stamps.len() - 1 {
                    assert(stamps.drop_last()[i] == stamps[i]);
                }
            }
        }
    }
}

/// Aggregates optional stamps into the newest present one.
pub fn max_stamp(stamps: &Vec<Option<i128>>) -> (r: Option<i128>)
    ensures
        r == spec_max_stamp(stamps@),
{
    let mut result: Option<i128> = None;
    let mut i: usize = 0;
    proof {
        assert(stamps@.take(0) =~= Seq::<Option<i128>>::empty());
    }
    while i < stamps.len()
        invariant
            0 <= i <= stamps@.len(),
            result == spec_max_stamp(stamps@.take(i as int)),
        decreases stamps@.len() - i,
    {
        proof {
            assert(stamps@.take(i + 1).drop_last() =~= stamps@.take(i as int));
            assert(stamps@.take(i + 1).last() == stamps@[i as int]);
        }
        match stamps[i] {
            Some(t) => {
                result = match result {
                    None => Some(t),
                    Some(p) => if t > p {
                        Some(t)
                    } else {
                        Some(p)
                    },
                };
            },
            None => {
            },
        }
        i = i + 1;
    }
    proof {
        assert(stamps@.take(i as int) =~= stamps@);
    }
    result
}

/// Anything that is an input or output of a build step and can report an
/// optional modification stamp (nanoseconds relative to the epoch).
///
/// An absent stamp on a target means "treat as always out of date"; an
/// absent stamp on a source means "staleness cannot be proven from it".
pub trait Resource: Sized {
    /// The stamp of the underlying artifact, absent when it does not exist
    /// or cannot report one.
    fn timestamp(&self) -> Option<i128>;
}

/// The freshness gate, available on every [`Resource`]: conditionally runs a
/// rebuild action by comparing the target's stamp against a source's stamp.
pub trait Freshness {
    /// Runs `by` exactly when `self` must be rebuilt from `src`, by the rule
    /// of [`needs_rebuild`]: the two stamps are read once each and compared.
    /// `by` is expected to refresh the target's stamp itself.
    fn mk_from<R: Resource, S: AsResource<R>, F: FnOnce() -> ()>(
        &self,
        description: &str,
        src: S,
        by: F,
    )
        requires
            call_requires(by, ()),
    ;

    /// Same rule as [`Freshness::mk_from`], but the action may fail and its
    /// failure is handed back; when no rebuild is needed the result is `Ok`.
    fn mk_from_result<E, R: Resource, S: AsResource<R>, F: FnOnce() -> Result<(), E>>(
        &self,
        description: &str,
        src: S,
        by: F,
    ) -> (r: Result<(), E>)
        requires
            call_requires(by, ()),
        ensures
            r is Err ==> call_ensures(by, (), r),
    ;
}

impl<T: Resource> Freshness for T {
    fn mk_from<R: Resource, S: AsResource<R>, F: FnOnce() -> ()>(
        &self,
        _description: &str,
        src: S,
        by: F,
    ) {
        let source = src.as_res();
        let target_time = self.timestamp();
        let source_time = source.timestamp();
        if needs_rebuild(&target_time, &source_time) {
            by();
        }
    }

    fn mk_from_result<E, R: Resource, S: AsResource<R>, F: FnOnce() -> Result<(), E>>(
        &self,
        _description: &str,
        src: S,
        by: F,
    ) -> (r: Result<(), E>) {
        let source = src.as_res();
        let target_time = self.timestamp();
        let source_time = source.timestamp();
        if needs_rebuild(&target_time, &source_time) {
            return by();
        }
        Ok(())
    }
}

/// Borrowing a resource out of a value, so that owned resources and
/// references can both feed [`Resource::mk_from`].
pub trait AsResource<R: Resource> {
    fn as_res(&self) -> &R;
}

impl<R: Resource> AsResource<R> for &R {
    fn as_res(&self) -> (r: &R)
        ensures
            r == *self,
    {
        self
    }
}

/// The joint stamp of a collection of resources: each member reports its
/// stamp and the results are folded by [`max_stamp`], so the joint stamp is
/// absent exactly when every member reports absent.
pub fn timestamp<R: Resource>(items: &Vec<R>) -> Option<i128> {
    let mut stamps: Vec<Option<i128>> = Vec::new();
    let mut i: usize = 0;
    while i < items.len()
        invariant
            0 <= i <= items.len(),
        decreases items.len() - i,
    {
        let t = items[i].timestamp();
        stamps.push(t);
        i = i + 1;
    }
    max_stamp(&stamps)
}

impl<R: Resource> Resource for Vec<R> {
    fn timestamp(&self) -> Option<i128> {
        timestamp(self)
    }
}

/// An ordered collection of owned resources, assembled by appending.
pub struct ResourceSet<T> {
    pub items: Vec<T>,
}

impl<T> ResourceSet<T> {
    /// Wraps an ordered list of resources.
    pub fn from_items(items: Vec<T>) -> (r: Self)
        ensures
            r.items@ == items@,
    {
        ResourceSet { items }
    }

    /// Appends one more resource, keeping the order.
    pub fn and(self, item: T) -> (r: Self)
        ensures
            r.items@ == self.items@.push(item),
    {
        let mut items = self.items;
        items.push(item);
        ResourceSet { items }
    }

    /// Hands the resources back out, in order.
    pub fn into_items(self) -> (r: Vec<T>)
        ensures
            r@ == self.items@,
    {
        self.items
    }
}

impl<R: Resource> Resource for ResourceSet<R> {
    fn timestamp(&self) -> Option<i128> {
        timestamp(&self.items)
    }
}

} // verus!
