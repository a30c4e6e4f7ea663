//! Path normalization: reducing `.` and `..` components of a slash-separated
//! path text into a canonical component list, rejecting texts that would
//! escape above their starting point.
//!
//! Paths are modelled as `/`-separated texts: a leading `/` marks an
//! absolute path, and platform-specific prefixes (such as drive
//! designators) are outside the model.

use vstd::prelude::*;

verus! {

/// Segments of a path text, split at every `/`; empty segments are kept, so
/// the result always holds at least one segment.
pub open spec fn spec_split(s: Seq<char>) -> Seq<Seq<char>>
    decreases s.len(),
{
    if s.len() == 0 {
        seq![Seq::<char>::empty()]
    } else if s.last() == '/' {
        spec_split(s.drop_last()).push(Seq::<char>::empty())
    } else {
        let r = spec_split(s.drop_last());
        r.update(r.len() - 1, r.last().push(s.last()))
    }
}

pub proof fn lemma_split_nonempty(s: Seq<char>)
    ensures
        spec_split(s).len() >= 1,
    decreases s.len(),
{
    if s.len() > 0 {
        lemma_split_nonempty(s.drop_last());
    }
}

/// No segment of a split ever holds a separator.
pub proof fn lemma_split_no_slash(s: Seq<char>)
    ensures
        forall|i: int|
            0 <= i < spec_split(s).len() ==> !(#[trigger] spec_split(s)[i]).contains('/'),
    decreases s.len(),
{
    if s.len() > 0 {
        lemma_split_nonempty(s.drop_last());
        lemma_split_no_slash(s.drop_last());
        if s.last() == '/' {
            assert(!Seq::<char>::empty().contains('/'));
        } else {
            let r = spec_split(s.drop_last());
            let updated = r.last().push(s.last());
            assert forall|j: int| 0 <= j < updated.len() implies updated[j] != '/' by {
                if j < updated.len() - 1 {
                    assert(!r.last().contains('/'));
                }
            }
            assert(!updated.contains('/'));
        }
    } else {
        assert(!Seq::<char>::empty().contains('/'));
    }
}

/// A single well-formed path component: non-empty, not `.` or `..`, and free
/// of separators.
pub open spec fn wf_seg(seg: Seq<char>) -> bool {
    &&& seg.len() > 0
    &&& seg != seq!['.']
    &&& seq!['.', '.'] != seg
    &&& !seg.contains('/')
}

/// Every component in the sequence is well formed.
pub open spec fn wf_parts(parts: Seq<Seq<char>>) -> bool {
    forall|i: int| 0 <= i < parts.len() ==> wf_seg(#[trigger] parts[i])
}

/// Folds the segments of a path body (root marker already stripped): empty
/// and `.` segments are dropped, `..` pops the last kept component and fails
/// when there is none to pop, anything else is kept.
pub open spec fn norm_body(segs: Seq<Seq<char>>) -> Option<Seq<Seq<char>>>
    decreases segs.len(),
{
    if segs.len() == 0 {
        Some(Seq::empty())
    } else {
        match norm_body(segs.drop_last()) {
            None => None,
            Some(parts) => {
                let seg = segs.last();
                if seg.len() == 0 || seg == seq!['.'] {
                    Some(parts)
                } else if seg == seq!['.', '.'] {
                    if parts.len() == 0 {
                        None
                    } else {
                        Some(parts.drop_last())
                    }
                } else {
                    Some(parts.push(seg))
                }
            },
        }
    }
}

/// Whether a path text names an absolute path: its first segment is empty
/// because the text starts with `/`.
pub open spec fn spec_is_abs(s: Seq<char>) -> bool {
    spec_split(s).len() >= 2 && spec_split(s)[0].len() == 0
}

/// The segments of a path text that lie below its optional root marker.
pub open spec fn spec_body(s: Seq<char>) -> Seq<Seq<char>> {
    if spec_is_abs(s) {
        spec_split(s).drop_first()
    } else {
        spec_split(s)
    }
}

/// Normalization of a path text: `None` when a `..` would climb above the
/// start or when nothing but root remains, else the absolute flag and the
/// kept components.
pub open spec fn spec_normalize(s: Seq<char>) -> Option<(bool, Seq<Seq<char>>)> {
    match norm_body(spec_body(s)) {
        None => None,
        Some(parts) => if parts.len() > 0 {
            Some((spec_is_abs(s), parts))
        } else {
            None
        },
    }
}

/// Every component kept by the fold is well formed, provided no input
/// segment holds a separator.
pub proof fn lemma_norm_body_wf(segs: Seq<Seq<char>>)
    requires
        forall|i: int| 0 <= i < segs.len() ==> !(#[trigger] segs[i]).contains('/'),
        norm_body(segs) is Some,
    ensures
        forall|i: int|
            0 <= i < norm_body(segs).unwrap().len() ==> wf_seg(
                #[trigger] norm_body(segs).unwrap()[i],
            ),
    decreases segs.len(),
{
    if segs.len() > 0 {
        assert(forall|i: int|
            0 <= i < segs.drop_last().len() ==> !(#[trigger] segs.drop_last()[i]).contains('/'));
        lemma_norm_body_wf(segs.drop_last());
        let parts = norm_body(segs.drop_last()).unwrap();
        let seg = segs.last();
        if seg.len() == 0 || seg == seq!['.'] {
        } else if seg == seq!['.', '.'] {
        } else {
            assert(wf_seg(seg));
            assert forall|i: int|
                0 <= i < norm_body(segs).unwrap().len() implies wf_seg(
                #[trigger] norm_body(segs).unwrap()[i],
            ) by {
                if i < parts.len() {
                    assert(norm_body(segs).unwrap()[i] == parts[i]);
                }
            }
        }
    }
}

/// A failed prefix of the fold fails the whole fold.
proof fn lemma_norm_body_none_prefix(segs: Seq<Seq<char>>, j: int)
    requires
        0 <= j <= segs.len(),
        norm_body(segs.take(j)) is None,
    ensures
        norm_body(segs) is None,
    decreases segs.len() - j,
{
    if j < segs.len() {
        assert(segs.take(j + 1).drop_last() =~= segs.take(j));
        lemma_norm_body_none_prefix(segs, j + 1);
    } else {
        assert(segs.take(j) =~= segs);
    }
}

/// Splits a path text at every `/`, keeping empty segments.
fn split_segments(s: &str) -> (r: Vec<String>)
    ensures
        r.deep_view() == spec_split(s@),
        r.len() >= 1,
{
    let n: usize = s.unicode_len();
    let mut segs: Vec<String> = Vec::new();
    let mut start: usize = 0;
    let mut i: usize = 0;
    proof {
        assert(s@.take(0) =~= Seq::<char>::empty());
        assert(s@.subrange(0, 0) =~= Seq::<char>::empty());
    }
    while i < n
        invariant
            0 <= start <= i <= n,
            n == s@.len(),
            spec_split(s@.take(i as int)) == segs.deep_view().push(s@.subrange(start as int, i as int)),
        decreases n - i,
    {
        let c = s.get_char(i);
        proof {
            assert(s@.take(i + 1).drop_last() =~= s@.take(i as int));
            assert(s@.take(i + 1).last() == s@[i as int]);
        }
        if c == '/' {
            let seg = s.substring_char(start, i).to_owned();
            segs.push(seg);
            proof {
                assert(s@.subrange(i + 1, i + 1) =~= Seq::<char>::empty());
                assert(segs.deep_view() =~= segs.deep_view().drop_last().push(seg@));
            }
            start = i + 1;
        } else {
            proof {
                let r = spec_split(s@.take(i as int));
                lemma_split_nonempty(s@.take(i as int));
                assert(r.last() == s@.subrange(start as int, i as int));
                assert(s@.subrange(start as int, i + 1) =~= s@.subrange(
                    start as int,
                    i as int,
                ).push(s@[i as int]));
                assert(spec_split(s@.take(i + 1)) =~= segs.deep_view().push(s@.subrange(
                    start as int,
                    i + 1,
                )));
            }
        }
        i = i + 1;
    }
    let seg = s.substring_char(start, n).to_owned();
    segs.push(seg);
    proof {
        assert(s@.take(n as int) =~= s@);
        assert(segs.deep_view() =~= segs.deep_view().drop_last().push(seg@));
    }
    segs
}

/// The text of an absolute path with the given components: each component
/// is preceded by one `/`.
pub open spec fn render_parts(parts: Seq<Seq<char>>) -> Seq<char>
    decreases parts.len(),
{
    if parts.len() == 0 {
        Seq::empty()
    } else {
        render_parts(parts.drop_last()) + seq!['/'] + parts.last()
    }
}

/// The text of an absolute path: `/` alone for the root, else the
/// slash-prefixed components.
pub open spec fn abs_path_view(parts: Seq<Seq<char>>) -> Seq<char> {
    if parts.len() == 0 {
        seq!['/']
    } else {
        render_parts(parts)
    }
}

/// Renders an absolute path from its components.
pub fn render_abs(parts: &Vec<String>) -> (r: String)
    ensures
        r@ == abs_path_view(parts.deep_view()),
{
    proof {
        reveal_strlit("/");
    }
    if parts.len() == 0 {
        let root = "/".to_owned();
        proof {
            assert(root@ =~= seq!['/']);
        }
        return root;
    }
    let mut out = String::new();
    let mut i: usize = 0;
    proof {
        assert(parts.deep_view().take(0) =~= Seq::<Seq<char>>::empty());
        assert(out@ =~= render_parts(parts.deep_view().take(0)));
    }
    while i < parts.len()
        invariant
            0 <= i <= parts.len(),
            out@ == render_parts(parts.deep_view().take(i as int)),
        decreases parts.len() - i,
    {
        proof {
            assert(parts.deep_view().take(i + 1).drop_last() =~= parts.deep_view().take(i as int));
            assert(parts.deep_view().take(i + 1).last() == parts.deep_view()[i as int]);
            assert(parts.deep_view()[i as int] == parts@[i as int]@);
            reveal_strlit("/");
            assert(("/")@ =~= seq!['/']);
        }
        out.append("/");
        out.append(parts[i].as_str());
        i = i + 1;
    }
    proof {
        assert(parts.deep_view().take(i as int) =~= parts.deep_view());
    }
    out
}

/// A normalized path: its absolute flag and the kept components, each
/// non-empty and free of `.`, `..` and separators.
pub struct NormPath {
    pub abs: bool,
    pub parts: Vec<String>,
}

impl NormPath {
    /// The components as plain character sequences.
    pub open spec fn parts_view(&self) -> Seq<Seq<char>> {
        self.parts.deep_view()
    }

    /// Every component is well formed and at least one is present.
    pub open spec fn wf(&self) -> bool {
        &&& self.parts_view().len() >= 1
        &&& forall|i: int|
            0 <= i < self.parts_view().len() ==> wf_seg(#[trigger] self.parts_view()[i])
    }
}

enum SegClass {
    Empty,
    Cur,
    Parent,
    Normal,
}

/// Classifies one split segment.
fn seg_class(seg: &String) -> (r: SegClass)
    ensures
        r is Empty <==> seg@.len() == 0,
        r is Cur <==> seg@ == seq!['.'],
        r is Parent <==> seg@ == seq!['.', '.'],
{
    let s = seg.as_str();
    let n: usize = s.unicode_len();
    if n == 0 {
        proof {
            assert(seg@ != seq!['.']);
            assert(seg@ != seq!['.', '.']);
        }
        SegClass::Empty
    } else if n == 1 {
        if s.get_char(0) == '.' {
            proof {
                assert(seg@ =~= seq!['.']);
            }
            SegClass::Cur
        } else {
            proof {
                assert(seg@ != seq!['.']) by {
                    assert(seq!['.'][0] == '.');
                }
                assert(seg@ != seq!['.', '.']);
            }
            SegClass::Normal
        }
    } else if n == 2 {
        if s.get_char(0) == '.' && s.get_char(1) == '.' {
            proof {
                assert(seg@ =~= seq!['.', '.']);
            }
            SegClass::Parent
        } else {
            proof {
                assert(seg@ != seq!['.']);
                assert(seg@ != seq!['.', '.']) by {
                    assert(seq!['.', '.'][0] == '.' && seq!['.', '.'][1] == '.');
                }
            }
            SegClass::Normal
        }
    } else {
        proof {
            assert(seg@ != seq!['.']);
            assert(seg@ != seq!['.', '.']);
        }
        SegClass::Normal
    }
}

/// Reduces a path text to its canonical components: drops `.` segments and
/// empty segments, resolves each `..` against the last kept component, and
/// fails (`None`) when a `..` would climb above the start of the text or
/// when no component remains.
pub fn normalize(s: &str) -> (r: Option<NormPath>)
    ensures
        r is Some <==> spec_normalize(s@) is Some,
        r matches Some(np) ==> {
            &&& np.abs == spec_normalize(s@).unwrap().0
            &&& np.parts_view() == spec_normalize(s@).unwrap().1
            &&& np.wf()
        },
{
    let segs = split_segments(s);
    let abs: bool = segs.len() >= 2 && segs[0].as_str().unicode_len() == 0;
    proof {
        assert(segs.deep_view().len() == segs@.len());
        assert(segs.deep_view()[0] == segs@[0]@);
        assert(abs == spec_is_abs(s@));
    }
    let off: usize = if abs {
        1
    } else {
        0
    };
    let mut parts: Vec<String> = Vec::new();
    let mut j: usize = off;
    proof {
        assert(spec_body(s@) =~= segs.deep_view().skip(off as int));
        assert(spec_body(s@).take(0) =~= Seq::<Seq<char>>::empty());
        assert(parts.deep_view() =~= Seq::<Seq<char>>::empty());
    }
    while j < segs.len()
        invariant
            off <= j <= segs.len(),
            off == 1 <==> spec_is_abs(s@),
            off <= 1,
            segs.deep_view() == spec_split(s@),
            spec_body(s@) == segs.deep_view().skip(off as int),
            norm_body(spec_body(s@).take(j - off)) == Some(parts.deep_view()),
        decreases segs.len() - j,
    {
        let ghost body = spec_body(s@);
        let ghost k = j - off;
        proof {
            assert(body.take(k + 1).drop_last() =~= body.take(k));
            assert(body.take(k + 1).last() == body[k]);
            assert(body[k] == segs.deep_view()[j as int]);
            assert(segs.deep_view()[j as int] == segs@[j as int]@);
        }
        let class = seg_class(&segs[j]);
        match class {
            SegClass::Empty => {
            },
            SegClass::Cur => {
            },
            SegClass::Parent => {
                if parts.len() == 0 {
                    proof {
                        assert(norm_body(body.take(k + 1)) is None);
                        lemma_norm_body_none_prefix(body, k + 1);
                    }
                    return None;
                }
                let ghost before = parts.deep_view();
                let _ = parts.pop();
                proof {
                    assert(parts.deep_view() =~= before.drop_last());
                }
            },
            SegClass::Normal => {
                let ghost before = parts.deep_view();
                let seg = segs[j].clone();
                parts.push(seg);
                proof {
                    assert(parts.deep_view() =~= before.push(segs@[j as int]@));
                }
            },
        }
        j = j + 1;
    }
    proof {
        assert(spec_body(s@).take(j - off) =~= spec_body(s@));
    }
    if parts.len() == 0 {
        return None;
    }
    proof {
        lemma_split_no_slash(s@);
        assert(forall|i: int|
            0 <= i < spec_body(s@).len() ==> !(#[trigger] spec_body(s@)[i]).contains('/'));
        lemma_norm_body_wf(spec_body(s@));
    }
    Some(NormPath { abs, parts })
}

} // verus!
