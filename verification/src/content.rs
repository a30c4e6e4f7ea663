//! Directory content queries: a re-walkable specification of which entries
//! under a directory are wanted, made of glob selection rules applied in
//! order and a kind filter. The walk itself and the glob matching come from
//! outside; which entries pass, and what they become, is decided here.

use vstd::prelude::*;
use crate::fs::{clone_parts, Dir, Error, File, Unit};
use crate::paths::{normalize, spec_normalize, NormPath};
use crate::res::{spec_max_stamp, Resource};

verus! {

//-- Glob matching (trusted boundary) -------------------------------------

#[verifier::external_type_specification]
#[verifier::external_body]
pub struct ExGlobMatcher(globset::GlobMatcher);

/// Whether `globset::GlobBuilder::build` accepts the pattern text.
pub uninterp spec fn glob_ok(pattern: Seq<char>) -> bool;

/// The pattern text a matcher was compiled from, as `globset::Glob::glob`
/// hands it back through `globset::GlobMatcher::glob`.
pub uninterp spec fn matcher_pattern(m: globset::GlobMatcher) -> Seq<char>;

/// What `globset::GlobMatcher::is_match` answers for a matcher with the
/// given pattern text on the given path text; the answer depends on the two
/// texts alone. Compilation fixes separators as literal, so `*` does not
/// cross `/` but `**` does.
pub uninterp spec fn glob_match(pattern: Seq<char>, path: Seq<char>) -> bool;

/// Relies on `globset::GlobBuilder` (with `literal_separator(true)`) and
/// `globset::Glob::compile_matcher`: compiles the pattern once; the matcher
/// keeps the pattern text it was compiled from.
#[verifier::external_body]
fn compile_glob(pattern: &str) -> (r: Option<globset::GlobMatcher>)
    ensures
        r is Some <==> glob_ok(pattern@),
        r matches Some(m) ==> matcher_pattern(m) == pattern@,
{
    globset::GlobBuilder::new(pattern)
        .literal_separator(true)
        .build()
        .ok()
        .map(|g| g.compile_matcher())
}

/// Relies on `globset::GlobMatcher::is_match`: a pure test of the compiled
/// pattern against the path text.
#[verifier::external_body]
fn matcher_is_match(m: &globset::GlobMatcher, path: &str) -> (r: bool)
    ensures
        r == glob_match(matcher_pattern(*m), path@),
{
    m.is_match(path)
}

//-- Walking (trusted boundary) -------------------------------------------

/// One entry handed back by a walk of a directory tree: its path relative
/// to the walked root, what kind of entry it is, and its optional
/// modification stamp (nanoseconds relative to the epoch).
#[derive(Debug)]
pub struct WalkEntry {
    pub rel: String,
    pub is_dir: bool,
    pub is_file: bool,
    pub mtime: Option<i128>,
}

/// Relies on `walkdir::WalkDir` with followed links to walk the tree under
/// `root`: every reachable entry, the root itself with an empty relative
/// path. Walkdir cuts link cycles by refusing to descend into a directory
/// identical to an ancestor, so the walk is finite; unreadable entries and
/// cycle reports are dropped. What comes back depends on the disk, so
/// nothing is promised of it.
#[verifier::external_body]
fn walk_tree(root: &String) -> Vec<WalkEntry> {
    walkdir::WalkDir::new(root.as_str())
        .follow_links(true)
        .into_iter()
        .filter_map(|e| e.ok())
        .map(|e| WalkEntry {
            rel: e.path().strip_prefix(root.as_str()).unwrap_or(e.path()).to_string_lossy().into_owned(),
            is_dir: e.file_type().is_dir(),
            is_file: e.file_type().is_file(),
            mtime: e.metadata().ok().and_then(|m| m.modified().ok()).and_then(
                |t| t.duration_since(std::time::UNIX_EPOCH).ok(),
            ).map(|d| d.as_nanos() as i128),
        })
        .collect()
}

//-- The query ------------------------------------------------------------

/// Which kind of entries a query yields.
#[derive(Clone, Copy, PartialEq, Eq, Structural, Debug)]
pub enum EntryKind {
    /// Directories and files both, as [`Unit`] values.
    Units,
    /// Directories only.
    Dirs,
    /// Files only.
    Files,
}

/// Whether an entry with the given kind flags passes the kind filter.
pub open spec fn kind_admits(kind: EntryKind, is_dir: bool, is_file: bool) -> bool {
    match kind {
        EntryKind::Units => true,
        EntryKind::Dirs => is_dir,
        EntryKind::Files => is_file,
    }
}

/// One selection rule: a compiled glob and whether a match on it accepts
/// (`true`) or rejects (`false`) an entry.
pub struct Rule {
    pub matcher: globset::GlobMatcher,
    pub accepts: bool,
}

/// Whether the rules select the relative path: at least one accepting rule
/// matches it, and no rejecting rule matches it — rejection wins over
/// acceptance wherever the two rules stand in the list, and acceptance is a
/// disjunction over all accepting rules.
pub open spec fn spec_selects(rules: Seq<(Seq<char>, bool)>, path: Seq<char>) -> bool {
    &&& exists|i: int| 0 <= i < rules.len() && (#[trigger] rules[i]).1 && glob_match(rules[i].0, path)
    &&& forall|i: int| 0 <= i < rules.len() && !(#[trigger] rules[i]).1 ==> !glob_match(rules[i].0, path)
}

/// A rejecting rule that matches the path defeats every acceptance, no
/// matter where it stands among the rules.
pub proof fn lemma_exclude_wins(rules: Seq<(Seq<char>, bool)>, path: Seq<char>, i: int)
    requires
        0 <= i < rules.len(),
        !rules[i].1,
        glob_match(rules[i].0, path),
    ensures
        !spec_selects(rules, path),
{
}

/// A re-walkable specification of directory content: the root to walk, the
/// selection rules in the order added, and the kind of entries wanted. Each
/// use walks the live tree anew; nothing is cached.
pub struct DirContent {
    pub root: Dir,
    pub rules: Vec<Rule>,
    pub kind: EntryKind,
}

impl DirContent {
    /// The rules as plain values: pattern text and acceptance flag, in
    /// order.
    pub open spec fn rules_view(&self) -> Seq<(Seq<char>, bool)> {
        self.rules@.map_values(|r: Rule| (matcher_pattern(r.matcher), r.accepts))
    }

    /// Whether the query's rules select the relative path `rel`; see
    /// [`spec_selects`] for the acceptance/rejection policy.
    pub fn selects(&self, rel: &str) -> (r: bool)
        ensures
            r == spec_selects(self.rules_view(), rel@),
    {
        let mut matched = false;
        let mut i: usize = 0;
        while i < self.rules.len()
            invariant
                0 <= i <= self.rules@.len(),
                self.rules_view().len() == self.rules@.len(),
                matched == exists|k: int|
                    0 <= k < i && (#[trigger] self.rules_view()[k]).1 && glob_match(
                        self.rules_view()[k].0,
                        rel@,
                    ),
                forall|k: int|
                    0 <= k < i && !(#[trigger] self.rules_view()[k]).1 ==> !glob_match(
                        self.rules_view()[k].0,
                        rel@,
                    ),
            decreases self.rules@.len() - i,
        {
            let rule = &self.rules[i];
            proof {
                assert(self.rules_view()[i as int] == (matcher_pattern(self.rules@[i as int].matcher), self.rules@[i as int].accepts));
            }
            if matcher_is_match(&rule.matcher, rel) {
                if rule.accepts {
                    matched = true;
                    proof {
                        assert((#[trigger] self.rules_view()[i as int]).1 && glob_match(
                            self.rules_view()[i as int].0,
                            rel@,
                        ));
                    }
                } else {
                    proof {
                        lemma_exclude_wins(self.rules_view(), rel@, i as int);
                    }
                    return false;
                }
            }
            i = i + 1;
        }
        matched
    }
}

impl DirContent {
    /// Builds a query rooted at `root` with one accepting rule.
    fn make(root: &Dir, glob: &str, kind: EntryKind) -> (r: DirContent)
        requires
            glob_ok(glob@),
        ensures
            r.root.parts_view() == root.parts_view(),
            r.rules_view() =~= seq![(glob@, true)],
            r.kind == kind,
    {
        let m = match compile_glob(glob) {
            Some(m) => m,
            None => vstd::pervasive::unreached(),
        };
        let mut rules: Vec<Rule> = Vec::new();
        rules.push(Rule { matcher: m, accepts: true });
        let r = DirContent { root: root.clone(), rules, kind };
        proof {
            assert(r.rules_view() =~= seq![(glob@, true)]);
        }
        r
    }

    /// Appends one accepting rule, widening the selection; the query is
    /// otherwise unchanged.
    pub fn accept(self, glob: &str) -> (r: DirContent)
        requires
            glob_ok(glob@),
        ensures
            r.root == self.root,
            r.kind == self.kind,
            r.rules_view() =~= self.rules_view().push((glob@, true)),
    {
        let m = match compile_glob(glob) {
            Some(m) => m,
            None => vstd::pervasive::unreached(),
        };
        let mut rules = self.rules;
        rules.push(Rule { matcher: m, accepts: true });
        let r = DirContent { root: self.root, rules, kind: self.kind };
        proof {
            assert(r.rules_view() =~= self.rules_view().push((glob@, true)));
        }
        r
    }

    /// Appends one rejecting rule, narrowing the selection; the query is
    /// otherwise unchanged.
    pub fn exclude(self, glob: &str) -> (r: DirContent)
        requires
            glob_ok(glob@),
        ensures
            r.root == self.root,
            r.kind == self.kind,
            r.rules_view() =~= self.rules_view().push((glob@, false)),
    {
        let m = match compile_glob(glob) {
            Some(m) => m,
            None => vstd::pervasive::unreached(),
        };
        let mut rules = self.rules;
        rules.push(Rule { matcher: m, accepts: false });
        let r = DirContent { root: self.root, rules, kind: self.kind };
        proof {
            assert(r.rules_view() =~= self.rules_view().push((glob@, false)));
        }
        r
    }

    /// As [`DirContent::accept`], rejecting an uncompilable pattern instead
    /// of requiring a valid one.
    pub fn accept_result(self, glob: &str) -> (r: Result<DirContent, Error>)
        ensures
            r is Ok <==> glob_ok(glob@),
            r matches Ok(q) ==> q.root == self.root && q.kind == self.kind && q.rules_view()
                =~= self.rules_view().push((glob@, true)),
            r is Err ==> r == Err::<DirContent, Error>(Error::BadPattern),
    {
        if glob_valid(glob) {
            Ok(self.accept(glob))
        } else {
            Err(Error::BadPattern)
        }
    }

    /// As [`DirContent::exclude`], rejecting an uncompilable pattern
    /// instead of requiring a valid one.
    pub fn exclude_result(self, glob: &str) -> (r: Result<DirContent, Error>)
        ensures
            r is Ok <==> glob_ok(glob@),
            r matches Ok(q) ==> q.root == self.root && q.kind == self.kind && q.rules_view()
                =~= self.rules_view().push((glob@, false)),
            r is Err ==> r == Err::<DirContent, Error>(Error::BadPattern),
    {
        if glob_valid(glob) {
            Ok(self.exclude(glob))
        } else {
            Err(Error::BadPattern)
        }
    }
}

/// Whether the pattern text compiles as a glob.
pub fn glob_valid(glob: &str) -> (r: bool)
    ensures
        r == glob_ok(glob@),
{
    compile_glob(glob).is_some()
}

impl Dir {
    /// All content (files, directories and links) under this directory
    /// whose relative path matches the glob pattern.
    pub fn content(&self, glob: &str) -> (r: DirContent)
        requires
            glob_ok(glob@),
        ensures
            r.root.parts_view() == self.parts_view(),
            r.rules_view() =~= seq![(glob@, true)],
            r.kind == EntryKind::Units,
    {
        DirContent::make(self, glob, EntryKind::Units)
    }

    /// All directories (and directory links) under this directory whose
    /// relative path matches the glob pattern.
    pub fn dirs(&self, glob: &str) -> (r: DirContent)
        requires
            glob_ok(glob@),
        ensures
            r.root.parts_view() == self.parts_view(),
            r.rules_view() =~= seq![(glob@, true)],
            r.kind == EntryKind::Dirs,
    {
        DirContent::make(self, glob, EntryKind::Dirs)
    }

    /// All files (and file links) under this directory whose relative path
    /// matches the glob pattern.
    pub fn files(&self, glob: &str) -> (r: DirContent)
        requires
            glob_ok(glob@),
        ensures
            r.root.parts_view() == self.parts_view(),
            r.rules_view() =~= seq![(glob@, true)],
            r.kind == EntryKind::Files,
    {
        DirContent::make(self, glob, EntryKind::Files)
    }

    /// As [`Dir::content`], rejecting an uncompilable pattern instead of
    /// requiring a valid one.
    pub fn content_result(&self, glob: &str) -> (r: Result<DirContent, Error>)
        ensures
            r is Ok <==> glob_ok(glob@),
            r matches Ok(q) ==> q.root.parts_view() == self.parts_view() && q.rules_view() =~= seq![
                (glob@, true),
            ] && q.kind == EntryKind::Units,
            r is Err ==> r == Err::<DirContent, Error>(Error::BadPattern),
    {
        if glob_valid(glob) {
            Ok(self.content(glob))
        } else {
            Err(Error::BadPattern)
        }
    }

    /// As [`Dir::dirs`], rejecting an uncompilable pattern instead of
    /// requiring a valid one.
    pub fn dirs_result(&self, glob: &str) -> (r: Result<DirContent, Error>)
        ensures
            r is Ok <==> glob_ok(glob@),
            r matches Ok(q) ==> q.root.parts_view() == self.parts_view() && q.rules_view() =~= seq![
                (glob@, true),
            ] && q.kind == EntryKind::Dirs,
            r is Err ==> r == Err::<DirContent, Error>(Error::BadPattern),
    {
        if glob_valid(glob) {
            Ok(self.dirs(glob))
        } else {
            Err(Error::BadPattern)
        }
    }

    /// As [`Dir::files`], rejecting an uncompilable pattern instead of
    /// requiring a valid one.
    pub fn files_result(&self, glob: &str) -> (r: Result<DirContent, Error>)
        ensures
            r is Ok <==> glob_ok(glob@),
            r matches Ok(q) ==> q.root.parts_view() == self.parts_view() && q.rules_view() =~= seq![
                (glob@, true),
            ] && q.kind == EntryKind::Files,
            r is Err ==> r == Err::<DirContent, Error>(Error::BadPattern),
    {
        if glob_valid(glob) {
            Ok(self.files(glob))
        } else {
            Err(Error::BadPattern)
        }
    }
}

impl DirContent {
    /// Whether the query keeps a walked entry: its relative path normalizes
    /// to a non-empty relative path (the walked root itself, with an empty
    /// one, does not), the rules select it, and it is of the queried kind.
    pub open spec fn keeps(&self, e: WalkEntry) -> bool {
        &&& spec_normalize(e.rel@) matches Some(p) && !p.0
        &&& spec_selects(self.rules_view(), e.rel@)
        &&& kind_admits(self.kind, e.is_dir, e.is_file)
    }

    /// The walked entries the query keeps, in walk order.
    pub open spec fn kept(&self, entries: Seq<WalkEntry>) -> Seq<WalkEntry> {
        entries.filter(|e: WalkEntry| self.keeps(e))
    }

    /// What a kept entry becomes: an entity of the entry's kind at the root
    /// path extended by the entry's components.
    pub open spec fn unit_for(&self, e: WalkEntry, u: Unit) -> bool {
        &&& (u is Dir <==> e.is_dir)
        &&& u.parts_view() == self.root.parts_view() + spec_normalize(e.rel@).unwrap().1
    }

    /// Tests one walked entry against the query, handing back its
    /// normalized relative path when it is kept.
    fn keep_entry(&self, e: &WalkEntry) -> (r: Option<NormPath>)
        ensures
            r is Some <==> self.keeps(*e),
            r matches Some(np) ==> np.parts.deep_view() == spec_normalize(e.rel@).unwrap().1
                && !np.abs,
    {
        if !self.selects(e.rel.as_str()) {
            return None;
        }
        let kind_ok: bool = match self.kind {
            EntryKind::Units => true,
            EntryKind::Dirs => e.is_dir,
            EntryKind::Files => e.is_file,
        };
        if !kind_ok {
            return None;
        }
        match normalize(e.rel.as_str()) {
            Some(np) => {
                if np.abs {
                    None
                } else {
                    Some(np)
                }
            },
            None => None,
        }
    }

    /// Filters walked entries by this query: exactly the kept entries, in
    /// walk order, each turned into a file or directory entity.
    pub fn select_units(&self, entries: &Vec<WalkEntry>) -> (r: Vec<Unit>)
        ensures
            r@.len() == self.kept(entries@).len(),
            forall|i: int|
                0 <= i < r@.len() ==> self.unit_for(self.kept(entries@)[i], #[trigger] r@[i]),
    {
        let mut out: Vec<Unit> = Vec::new();
        let mut i: usize = 0;
        proof {
            assert(entries@.take(0) =~= Seq::<WalkEntry>::empty());
            assert(self.kept(entries@.take(0)) =~= Seq::<WalkEntry>::empty()) by {
                reveal(Seq::filter);
            }
        }
        while i < entries.len()
            invariant
                0 <= i <= entries@.len(),
                out@.len() == self.kept(entries@.take(i as int)).len(),
                forall|k: int|
                    0 <= k < out@.len() ==> self.unit_for(
                        self.kept(entries@.take(i as int))[k],
                        #[trigger] out@[k],
                    ),
            decreases entries@.len() - i,
        {
            let ghost prev = self.kept(entries@.take(i as int));
            proof {
                assert(entries@.take(i + 1).drop_last() =~= entries@.take(i as int));
                assert(entries@.take(i + 1).last() == entries@[i as int]);
                assert(self.kept(entries@.take(i + 1)) == (if self.keeps(entries@[i as int]) {
                    prev.push(entries@[i as int])
                } else {
                    prev
                })) by {
                    reveal(Seq::filter);
                }
            }
            let e = &entries[i];
            match self.keep_entry(e) {
                Some(np) => {
                    let mut parts = clone_parts(&self.root.parts);
                    let mut rel_parts = np.parts;
                    parts.append(&mut rel_parts);
                    proof {
                        assert(parts.deep_view() =~= self.root.parts_view() + spec_normalize(
                            entries@[i as int].rel@,
                        ).unwrap().1);
                    }
                    let u = if e.is_dir {
                        Unit::Dir(Dir { parts })
                    } else {
                        Unit::File(File { parts })
                    };
                    out.push(u);
                },
                None => {
                },
            }
            i = i + 1;
        }
        proof {
            assert(entries@.take(i as int) =~= entries@);
        }
        out
    }

    /// Witnesses that an entity came from some kept entry of a walk.
    pub open spec fn some_kept_entry(&self, u: Unit) -> bool {
        exists|e: WalkEntry| #![auto] self.keeps(e) && self.unit_for(e, u)
    }

    /// Walks the live tree under the root and hands back the selected
    /// entries as entities. The result is a finite list because the walk
    /// is; each call walks afresh, so the query can be reused.
    pub fn entries(&self) -> (r: Vec<Unit>)
        ensures
            forall|i: int| 0 <= i < r@.len() ==> self.some_kept_entry(#[trigger] r@[i]),
    {
        let root_path = self.root.path();
        let walked = walk_tree(&root_path);
        let r = self.select_units(&walked);
        proof {
            assert forall|i: int| 0 <= i < r@.len() implies self.some_kept_entry(
                #[trigger] r@[i],
            ) by {
                walked@.lemma_filter_pred(|e: WalkEntry| self.keeps(e), i);
                assert(self.keeps(self.kept(walked@)[i]) && self.unit_for(
                    self.kept(walked@)[i],
                    r@[i],
                ));
            }
        }
        r
    }

    /// Aggregates the stamps of the walked entries the query keeps: the
    /// newest present one, absent when none is kept or none reports a
    /// stamp.
    pub fn content_stamp(&self, entries: &Vec<WalkEntry>) -> (r: Option<i128>)
        ensures
            r == spec_max_stamp(self.kept(entries@).map_values(|e: WalkEntry| e.mtime)),
    {
        let mut result: Option<i128> = None;
        let mut i: usize = 0;
        proof {
            assert(entries@.take(0) =~= Seq::<WalkEntry>::empty());
            assert(self.kept(entries@.take(0)) =~= Seq::<WalkEntry>::empty()) by {
                reveal(Seq::filter);
            }
            assert(self.kept(entries@.take(0)).map_values(|e: WalkEntry| e.mtime)
                =~= Seq::<Option<i128>>::empty());
        }
        while i < entries.len()
            invariant
                0 <= i <= entries@.len(),
                result == spec_max_stamp(
                    self.kept(entries@.take(i as int)).map_values(|e: WalkEntry| e.mtime),
                ),
            decreases entries@.len() - i,
        {
            let ghost prev = self.kept(entries@.take(i as int));
            proof {
                assert(entries@.take(i + 1).drop_last() =~= entries@.take(i as int));
                assert(entries@.take(i + 1).last() == entries@[i as int]);
                assert(self.kept(entries@.take(i + 1)) == (if self.keeps(entries@[i as int]) {
                    prev.push(entries@[i as int])
                } else {
                    prev
                })) by {
                    reveal(Seq::filter);
                }
                if self.keeps(entries@[i as int]) {
                    let pm = prev.map_values(|e: WalkEntry| e.mtime);
                    let m = entries@[i as int].mtime;
                    assert(self.kept(entries@.take(i + 1)).map_values(|e: WalkEntry| e.mtime)
                        =~= pm.push(m));
                    assert(pm.push(m).drop_last() =~= pm);
                    assert(pm.push(m).last() == m);
                }
            }
            let e = &entries[i];
            match self.keep_entry(e) {
                Some(_) => {
                    match e.mtime {
                        Some(t) => {
                            result = match result {
                                None => Some(t),
                                Some(p) => if t > p {
                                    Some(t)
                                } else {
                                    Some(p)
                                },
                            };
                        },
                        None => {
                        },
                    }
                },
                None => {
                },
            }
            i = i + 1;
        }
        proof {
            assert(entries@.take(i as int) =~= entries@);
        }
        result
    }
}

impl Resource for DirContent {
    /// The joint stamp of what the query selects right now: the newest
    /// stamp among the kept entries of a fresh walk, absent when nothing is
    /// kept or nothing reports one.
    fn timestamp(&self) -> Option<i128> {
        let root_path = self.root.path();
        let walked = walk_tree(&root_path);
        self.content_stamp(&walked)
    }
}

} // verus!
