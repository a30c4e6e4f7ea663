//! File system entities: validated absolute paths for files and directories,
//! pure child-path composition, and the decision rules for linking, touching
//! and rewriting.
//!
//! The entities never reach the disk themselves except to read modification
//! stamps; every mutating operation is decided here as a plain value that an
//! unverified shell executes.

use vstd::prelude::*;
use vstd::pervasive::cloned;
use crate::paths::{abs_path_view, normalize, spec_normalize, wf_parts};
use crate::res::{Resource, ResourceSet};

verus! {

/// What an operation can fail with.
#[derive(Clone, Copy, PartialEq, Eq, Structural, Debug, Hash)]
pub enum Error {
    /// An absolute path was required.
    NotAbsolute,
    /// A relative path that stays inside its directory was required.
    NotRelative,
    /// The link location is already taken and may not be overwritten.
    AlreadyExists,
    /// The underlying artifact does not exist or cannot be reached.
    NotFound,
    /// The glob pattern does not compile.
    BadPattern,
}

/// Copies a component list; the copy carries the same components.
pub(crate) fn clone_parts(parts: &Vec<String>) -> (r: Vec<String>)
    ensures
        r@ == parts@,
{
    let r = parts.clone();
    proof {
        assert forall|i: int| 0 <= i < parts@.len() implies r@[i] == parts@[i] by {
            assert(cloned::<String>(parts@[i], r@[i]));
        }
        assert(r@ =~= parts@);
    }
    r
}

/// Compares two component lists by their characters.
fn eq_parts(a: &Vec<String>, b: &Vec<String>) -> (r: bool)
    ensures
        r == (a.deep_view() == b.deep_view()),
{
    if a.len() != b.len() {
        proof {
            assert(a.deep_view().len() != b.deep_view().len());
        }
        return false;
    }
    let mut i: usize = 0;
    while i < a.len()
        invariant
            0 <= i <= a.len(),
            a@.len() == b@.len(),
            forall|k: int| 0 <= k < i ==> a.deep_view()[k] == b.deep_view()[k],
        decreases a.len() - i,
    {
        if !(a[i] == b[i]) {
            proof {
                assert(a.deep_view()[i as int] != b.deep_view()[i as int]);
            }
            return false;
        }
        i = i + 1;
    }
    proof {
        assert(a.deep_view() =~= b.deep_view());
    }
    true
}

//-- File -----------------------------------------------------------------

/// A file entity: a validated absolute path believed to designate a regular
/// file. Nothing is checked against the disk until an operation runs.
#[derive(Debug, Hash)]
pub struct File {
    pub parts: Vec<String>,
}

impl File {
    /// The path components as plain character sequences.
    pub open spec fn parts_view(&self) -> Seq<Seq<char>> {
        self.parts.deep_view()
    }

    /// Validity: at least one component, each well formed.
    pub open spec fn wf(&self) -> bool {
        self.parts_view().len() >= 1 && wf_parts(self.parts_view())
    }

    /// The rendered absolute path text.
    pub open spec fn path_view(&self) -> Seq<char> {
        abs_path_view(self.parts_view())
    }

    /// Creates a file entity at the given absolute path; the path is
    /// normalized first and rejected when it is not absolute (or when
    /// normalization itself fails).
    pub fn new(path: &str) -> (r: Result<File, Error>)
        ensures
            r is Ok <==> (spec_normalize(path@) matches Some(p) && p.0),
            r matches Ok(f) ==> f.parts_view() == spec_normalize(path@).unwrap().1 && f.wf(),
            r is Err ==> r == Err::<File, Error>(Error::NotAbsolute),
    {
        match normalize(path) {
            Some(np) => {
                if np.abs {
                    Ok(File { parts: np.parts })
                } else {
                    Err(Error::NotAbsolute)
                }
            },
            None => Err(Error::NotAbsolute),
        }
    }

    /// The rendered absolute path text.
    pub fn path(&self) -> (r: String)
        ensures
            r@ == self.path_view(),
    {
        crate::paths::render_abs(&self.parts)
    }

    /// The containing directory: this path with its last component dropped.
    pub fn parent(&self) -> (r: Option<Dir>)
        ensures
            self.parts_view().len() >= 1 ==> (r matches Some(d) && d.parts_view()
                == self.parts_view().drop_last()),
            self.parts_view().len() == 0 ==> r is None,
    {
        if self.parts.len() == 0 {
            return None;
        }
        let mut parts = clone_parts(&self.parts);
        let _ = parts.pop();
        proof {
            assert(parts.deep_view() =~= self.parts_view().drop_last());
        }
        Some(Dir { parts })
    }
}

impl Clone for File {
    /// The copy carries the same path.
    fn clone(&self) -> (r: Self)
        ensures
            r.parts_view() == self.parts_view(),
    {
        File { parts: clone_parts(&self.parts) }
    }
}

impl PartialEq for File {
    fn eq(&self, other: &Self) -> bool {
        eq_parts(&self.parts, &other.parts)
    }
}

impl vstd::std_specs::cmp::PartialEqSpecImpl for File {
    open spec fn obeys_eq_spec() -> bool {
        true
    }

    open spec fn eq_spec(&self, other: &Self) -> bool {
        self.parts_view() == other.parts_view()
    }
}

impl Eq for File {

}

//-- Dir ------------------------------------------------------------------

/// A directory entity: a validated absolute path believed to designate a
/// directory. Child lookups are pure path composition.
#[derive(Debug, Hash)]
pub struct Dir {
    pub parts: Vec<String>,
}

impl Dir {
    /// The path components as plain character sequences.
    pub open spec fn parts_view(&self) -> Seq<Seq<char>> {
        self.parts.deep_view()
    }

    /// Validity: each component well formed. The root directory (no
    /// component at all) only arises through [`File::parent`] and
    /// [`Dir::parent`]; constructed directories have at least one.
    pub open spec fn wf(&self) -> bool {
        wf_parts(self.parts_view())
    }

    /// The rendered absolute path text.
    pub open spec fn path_view(&self) -> Seq<char> {
        abs_path_view(self.parts_view())
    }

    /// Creates a directory entity at the given absolute path, which must
    /// normalize to a non-empty absolute path.
    pub fn new(path: &str) -> (r: Dir)
        requires
            spec_normalize(path@) matches Some(p) && p.0,
        ensures
            r.parts_view() == spec_normalize(path@).unwrap().1,
            r.wf(),
            r.parts_view().len() >= 1,
    {
        match Dir::new_safe(path) {
            Ok(d) => d,
            Err(_) => vstd::pervasive::unreached(),
        }
    }

    /// Creates a directory entity at the given absolute path; the path is
    /// normalized first and rejected when it is not absolute (or when
    /// normalization itself fails).
    pub fn new_safe(path: &str) -> (r: Result<Dir, Error>)
        ensures
            r is Ok <==> (spec_normalize(path@) matches Some(p) && p.0),
            r matches Ok(d) ==> d.parts_view() == spec_normalize(path@).unwrap().1 && d.wf()
                && d.parts_view().len() >= 1,
            r is Err ==> r == Err::<Dir, Error>(Error::NotAbsolute),
    {
        match normalize(path) {
            Some(np) => {
                if np.abs {
                    Ok(Dir { parts: np.parts })
                } else {
                    Err(Error::NotAbsolute)
                }
            },
            None => Err(Error::NotAbsolute),
        }
    }

    /// The rendered absolute path text.
    pub fn path(&self) -> (r: String)
        ensures
            r@ == self.path_view(),
    {
        crate::paths::render_abs(&self.parts)
    }

    /// The subdirectory at the given relative path, which must normalize to
    /// a non-empty relative path (so it cannot escape this directory).
    pub fn dir(&self, path: &str) -> (r: Dir)
        requires
            spec_normalize(path@) matches Some(p) && !p.0,
        ensures
            r.parts_view() == self.parts_view() + spec_normalize(path@).unwrap().1,
    {
        match self.dir_result(path) {
            Ok(d) => d,
            Err(_) => vstd::pervasive::unreached(),
        }
    }

    /// The subdirectory at the given relative path; rejected when the path
    /// is absolute, escapes upward, or normalizes to nothing.
    pub fn dir_result(&self, path: &str) -> (r: Result<Dir, Error>)
        ensures
            r is Ok <==> (spec_normalize(path@) matches Some(p) && !p.0),
            r matches Ok(d) ==> d.parts_view() == self.parts_view() + spec_normalize(
                path@,
            ).unwrap().1,
            r is Err ==> r == Err::<Dir, Error>(Error::NotRelative),
            r matches Ok(d) ==> (self.wf() ==> d.wf()),
    {
        match normalize(path) {
            Some(np) => {
                if !np.abs {
                    let mut parts = clone_parts(&self.parts);
                    let mut rel = np.parts;
                    parts.append(&mut rel);
                    proof {
                        assert(parts.deep_view() =~= self.parts_view() + spec_normalize(
                            path@,
                        ).unwrap().1);
                    }
                    Ok(Dir { parts })
                } else {
                    Err(Error::NotRelative)
                }
            },
            None => Err(Error::NotRelative),
        }
    }

    /// The file at the given relative path, which must normalize to a
    /// non-empty relative path (so it cannot escape this directory).
    pub fn file(&self, path: &str) -> (r: File)
        requires
            spec_normalize(path@) matches Some(p) && !p.0,
        ensures
            r.parts_view() == self.parts_view() + spec_normalize(path@).unwrap().1,
    {
        match self.file_result(path) {
            Ok(f) => f,
            Err(_) => vstd::pervasive::unreached(),
        }
    }

    /// The file at the given relative path; rejected when the path is
    /// absolute, escapes upward, or normalizes to nothing.
    pub fn file_result(&self, path: &str) -> (r: Result<File, Error>)
        ensures
            r is Ok <==> (spec_normalize(path@) matches Some(p) && !p.0),
            r matches Ok(f) ==> f.parts_view() == self.parts_view() + spec_normalize(
                path@,
            ).unwrap().1,
            r is Err ==> r == Err::<File, Error>(Error::NotRelative),
            r matches Ok(f) ==> (self.wf() ==> f.wf()),
    {
        match normalize(path) {
            Some(np) => {
                if !np.abs {
                    let mut parts = clone_parts(&self.parts);
                    let mut rel = np.parts;
                    parts.append(&mut rel);
                    proof {
                        assert(parts.deep_view() =~= self.parts_view() + spec_normalize(
                            path@,
                        ).unwrap().1);
                    }
                    Ok(File { parts })
                } else {
                    Err(Error::NotRelative)
                }
            },
            None => Err(Error::NotRelative),
        }
    }

    /// The containing directory: this path with its last component dropped.
    pub fn parent(&self) -> (r: Option<Dir>)
        ensures
            self.parts_view().len() >= 1 ==> (r matches Some(d) && d.parts_view()
                == self.parts_view().drop_last()),
            self.parts_view().len() == 0 ==> r is None,
    {
        if self.parts.len() == 0 {
            return None;
        }
        let mut parts = clone_parts(&self.parts);
        let _ = parts.pop();
        proof {
            assert(parts.deep_view() =~= self.parts_view().drop_last());
        }
        Some(Dir { parts })
    }
}

impl Clone for Dir {
    /// The copy carries the same path.
    fn clone(&self) -> (r: Self)
        ensures
            r.parts_view() == self.parts_view(),
    {
        Dir { parts: clone_parts(&self.parts) }
    }
}

impl PartialEq for Dir {
    fn eq(&self, other: &Self) -> bool {
        eq_parts(&self.parts, &other.parts)
    }
}

impl vstd::std_specs::cmp::PartialEqSpecImpl for Dir {
    open spec fn obeys_eq_spec() -> bool {
        true
    }

    open spec fn eq_spec(&self, other: &Self) -> bool {
        self.parts_view() == other.parts_view()
    }
}

impl Eq for Dir {

}

//-- Unit -----------------------------------------------------------------

/// A traversal result that may be either a directory or a file.
#[derive(Debug, Hash)]
pub enum Unit {
    Dir(Dir),
    File(File),
}

impl Unit {
    /// The path components of the wrapped entity.
    pub open spec fn parts_view(&self) -> Seq<Seq<char>> {
        match self {
            Unit::Dir(d) => d.parts_view(),
            Unit::File(f) => f.parts_view(),
        }
    }

    /// Validity of the wrapped entity.
    pub open spec fn wf(&self) -> bool {
        match self {
            Unit::Dir(d) => d.wf(),
            Unit::File(f) => f.wf(),
        }
    }

    /// The rendered absolute path text of the wrapped entity.
    pub fn path(&self) -> (r: String)
        ensures
            r@ == abs_path_view(self.parts_view()),
    {
        match self {
            Unit::Dir(d) => d.path(),
            Unit::File(f) => f.path(),
        }
    }
}

impl Clone for Unit {
    /// The copy wraps the same kind of entity at the same path.
    fn clone(&self) -> (r: Self)
        ensures
            r.parts_view() == self.parts_view(),
            r is Dir <==> self is Dir,
    {
        match self {
            Unit::Dir(d) => Unit::Dir(d.clone()),
            Unit::File(f) => Unit::File(f.clone()),
        }
    }
}

impl PartialEq for Unit {
    fn eq(&self, other: &Self) -> bool {
        match (self, other) {
            (Unit::Dir(a), Unit::Dir(b)) => eq_parts(&a.parts, &b.parts),
            (Unit::File(a), Unit::File(b)) => eq_parts(&a.parts, &b.parts),
            _ => false,
        }
    }
}

impl vstd::std_specs::cmp::PartialEqSpecImpl for Unit {
    open spec fn obeys_eq_spec() -> bool {
        true
    }

    open spec fn eq_spec(&self, other: &Self) -> bool {
        (self is Dir <==> other is Dir) && self.parts_view() == other.parts_view()
    }
}

impl Eq for Unit {

}

//-- Link planning --------------------------------------------------------

/// What presently occupies a prospective link location on disk, as observed
/// by the caller: nothing, a symbolic link with the given target text, or
/// any non-link entry.
#[derive(Debug)]
pub enum FoundEntry {
    Missing,
    LinkTo(String),
    NonLink,
}

/// How a symbolic link is to be brought into being at a location.
#[derive(Clone, Copy, PartialEq, Eq, Structural, Debug)]
pub enum LinkAction {
    /// Nothing is there: create the link (parents first).
    CreateLink,
    /// An identical link is there: leave it alone.
    KeepExisting,
    /// A link with a different target is there and overwriting was allowed:
    /// remove it, then create the link.
    ReplaceLink,
}

/// The link overwrite policy. Linking over nothing creates; linking over an
/// identical link is a no-op; linking over a differently-targeted link
/// retargets only when `force` is set; linking over a non-link entry always
/// fails, even with `force`.
pub open spec fn spec_link_action(to_path: Seq<char>, found: FoundEntry, force: bool) -> Result<
    LinkAction,
    Error,
> {
    match found {
        FoundEntry::Missing => Ok(LinkAction::CreateLink),
        FoundEntry::LinkTo(t) => if t@ == to_path {
            Ok(LinkAction::KeepExisting)
        } else if force {
            Ok(LinkAction::ReplaceLink)
        } else {
            Err(Error::AlreadyExists)
        },
        FoundEntry::NonLink => Err(Error::AlreadyExists),
    }
}

/// Decides the link action for a location found as `found`, linking to the
/// path text `to_path`.
fn decide_link(to_path: &String, found: &FoundEntry, force: bool) -> (r: Result<LinkAction, Error>)
    ensures
        r == spec_link_action(to_path@, *found, force),
{
    match found {
        FoundEntry::Missing => Ok(LinkAction::CreateLink),
        FoundEntry::LinkTo(t) => {
            if *t == *to_path {
                Ok(LinkAction::KeepExisting)
            } else if force {
                Ok(LinkAction::ReplaceLink)
            } else {
                Err(Error::AlreadyExists)
            }
        },
        FoundEntry::NonLink => Err(Error::AlreadyExists),
    }
}

impl File {
    /// Decides how to make this path a symbolic link to the file `to`,
    /// given what was `found` at this path; see [`spec_link_action`] for the
    /// policy. The caller executes the returned action, creating missing
    /// parents of this path first.
    pub fn link_to_result(&self, to: &File, found: &FoundEntry, force: bool) -> (r: Result<
        LinkAction,
        Error,
    >)
        ensures
            r == spec_link_action(to.path_view(), *found, force),
    {
        let to_path = to.path();
        decide_link(&to_path, found, force)
    }

    /// As [`File::link_to_result`] without overwriting; the location must
    /// not be taken by anything but an identical link.
    pub fn link_to(&self, to: &File, found: &FoundEntry) -> (r: LinkAction)
        requires
            spec_link_action(to.path_view(), *found, false) is Ok,
        ensures
            Ok::<LinkAction, Error>(r) == spec_link_action(to.path_view(), *found, false),
    {
        match self.link_to_result(to, found, false) {
            Ok(a) => a,
            Err(_) => vstd::pervasive::unreached(),
        }
    }

    /// Decides how to link to this file from inside the directory `dir`,
    /// under this file's own name: returns the link location `dir/<name>`
    /// and the action for it, `found` being what occupies that location.
    pub fn link_from_inside_result(&self, dir: &Dir, found: &FoundEntry, force: bool) -> (r: Result<
        (File, LinkAction),
        Error,
    >)
        requires
            self.parts_view().len() >= 1,
        ensures
            r is Ok <==> spec_link_action(self.path_view(), *found, force) is Ok,
            r matches Ok((link, act)) ==> link.parts_view() == dir.parts_view().push(
                self.parts_view().last(),
            ) && Ok::<LinkAction, Error>(act) == spec_link_action(self.path_view(), *found, force),
            r matches Err(e) ==> Err::<LinkAction, Error>(e) == spec_link_action(
                self.path_view(),
                *found,
                force,
            ),
    {
        let mut parts = clone_parts(&dir.parts);
        let name = self.parts[self.parts.len() - 1].clone();
        parts.push(name);
        proof {
            assert(parts.deep_view() =~= dir.parts_view().push(self.parts_view().last()));
        }
        let link = File { parts };
        match link.link_to_result(self, found, force) {
            Ok(act) => Ok((link, act)),
            Err(e) => Err(e),
        }
    }

    /// As [`File::link_from_inside_result`] without overwriting.
    pub fn link_from_inside(&self, dir: &Dir, found: &FoundEntry) -> (r: (File, LinkAction))
        requires
            self.parts_view().len() >= 1,
            spec_link_action(self.path_view(), *found, false) is Ok,
        ensures
            r.0.parts_view() == dir.parts_view().push(self.parts_view().last()),
            Ok::<LinkAction, Error>(r.1) == spec_link_action(self.path_view(), *found, false),
    {
        match self.link_from_inside_result(dir, found, false) {
            Ok(r) => r,
            Err(_) => vstd::pervasive::unreached(),
        }
    }
}

impl Dir {
    /// Decides how to make this path a symbolic link to the directory `to`,
    /// given what was `found` at this path; see [`spec_link_action`].
    pub fn link_to_result(&self, to: &Dir, found: &FoundEntry, force: bool) -> (r: Result<
        LinkAction,
        Error,
    >)
        ensures
            r == spec_link_action(to.path_view(), *found, force),
    {
        let to_path = to.path();
        decide_link(&to_path, found, force)
    }

    /// As [`Dir::link_to_result`] without overwriting; the location must
    /// not be taken by anything but an identical link.
    pub fn link_to(&self, to: &Dir, found: &FoundEntry) -> (r: LinkAction)
        requires
            spec_link_action(to.path_view(), *found, false) is Ok,
        ensures
            Ok::<LinkAction, Error>(r) == spec_link_action(to.path_view(), *found, false),
    {
        match self.link_to_result(to, found, false) {
            Ok(a) => a,
            Err(_) => vstd::pervasive::unreached(),
        }
    }

    /// Decides how to link to this directory from inside the directory
    /// `dir`, under this directory's own name: returns the link location
    /// `dir/<name>` and the action for it.
    pub fn link_from_inside_result(&self, dir: &Dir, found: &FoundEntry, force: bool) -> (r: Result<
        (Dir, LinkAction),
        Error,
    >)
        requires
            self.parts_view().len() >= 1,
        ensures
            r is Ok <==> spec_link_action(self.path_view(), *found, force) is Ok,
            r matches Ok((link, act)) ==> link.parts_view() == dir.parts_view().push(
                self.parts_view().last(),
            ) && Ok::<LinkAction, Error>(act) == spec_link_action(self.path_view(), *found, force),
            r matches Err(e) ==> Err::<LinkAction, Error>(e) == spec_link_action(
                self.path_view(),
                *found,
                force,
            ),
    {
        let mut parts = clone_parts(&dir.parts);
        let name = self.parts[self.parts.len() - 1].clone();
        parts.push(name);
        proof {
            assert(parts.deep_view() =~= dir.parts_view().push(self.parts_view().last()));
        }
        let link = Dir { parts };
        match link.link_to_result(self, found, force) {
            Ok(act) => Ok((link, act)),
            Err(e) => Err(e),
        }
    }

    /// As [`Dir::link_from_inside_result`] without overwriting.
    pub fn link_from_inside(&self, dir: &Dir, found: &FoundEntry) -> (r: (Dir, LinkAction))
        requires
            self.parts_view().len() >= 1,
            spec_link_action(self.path_view(), *found, false) is Ok,
        ensures
            r.0.parts_view() == dir.parts_view().push(self.parts_view().last()),
            Ok::<LinkAction, Error>(r.1) == spec_link_action(self.path_view(), *found, false),
    {
        match self.link_from_inside_result(dir, found, false) {
            Ok(r) => r,
            Err(_) => vstd::pervasive::unreached(),
        }
    }
}

impl Unit {
    /// Delegates to the wrapped entity's linking decision: the link location
    /// `dir/<name>` keeps the entity's kind.
    pub fn link_from_inside(&self, dir: &Dir, found: &FoundEntry) -> (r: (Unit, LinkAction))
        requires
            self.parts_view().len() >= 1,
            spec_link_action(abs_path_view(self.parts_view()), *found, false) is Ok,
        ensures
            r.0.parts_view() == dir.parts_view().push(self.parts_view().last()),
            (r.0 is Dir <==> self is Dir),
            Ok::<LinkAction, Error>(r.1) == spec_link_action(
                abs_path_view(self.parts_view()),
                *found,
                false,
            ),
    {
        match self {
            Unit::Dir(d) => {
                let (link, act) = d.link_from_inside(dir, found);
                (Unit::Dir(link), act)
            },
            Unit::File(f) => {
                let (link, act) = f.link_from_inside(dir, found);
                (Unit::File(link), act)
            },
        }
    }
}

//-- Touch and rewrite planning -------------------------------------------

/// How an artifact's stamp is to be refreshed.
#[derive(Clone, Copy, PartialEq, Eq, Structural, Debug)]
pub enum TouchAction {
    /// The artifact does not exist: create it empty (parents first).
    CreateEmpty,
    /// The artifact exists: set its modification time to now.
    SetTimeNow,
}

/// Whether a rewrite must reach the disk.
#[derive(Clone, Copy, PartialEq, Eq, Structural, Debug)]
pub enum WriteAction {
    /// The present content is byte-identical: write nothing, so the
    /// modification time is left untouched.
    Keep,
    /// Write the new content in full (creating the file and its parents as
    /// needed).
    Write,
}

/// The rewrite rule: a file whose readable content equals the new bytes is
/// left alone; anything else (different content, or no readable content) is
/// written in full.
pub open spec fn spec_rewrite_action(current: Option<Seq<u8>>, bytes: Seq<u8>) -> WriteAction {
    if current == Some(bytes) {
        WriteAction::Keep
    } else {
        WriteAction::Write
    }
}

/// Rewriting byte-identical content never touches the disk, so a second
/// rewrite of the same bytes keeps the file's modification time; content
/// that differs in any way is written.
pub proof fn lemma_rewrite_idempotent(bytes: Seq<u8>)
    ensures
        spec_rewrite_action(Some(bytes), bytes) == WriteAction::Keep,
        forall|current: Option<Seq<u8>>|
            current != Some(bytes) ==> spec_rewrite_action(current, bytes) == WriteAction::Write,
{
}

/// Compares two byte strings.
fn eq_bytes(a: &Vec<u8>, b: &[u8]) -> (r: bool)
    ensures
        r == (a@ == b@),
{
    if a.len() != b.len() {
        return false;
    }
    let mut i: usize = 0;
    while i < a.len()
        invariant
            0 <= i <= a@.len(),
            a@.len() == b@.len(),
            forall|k: int| 0 <= k < i ==> a@[k] == b@[k],
        decreases a.len() - i,
    {
        if a[i] != b[i] {
            return false;
        }
        i = i + 1;
    }
    proof {
        assert(a@ =~= b@);
    }
    true
}

impl File {
    /// Decides whether to touch this file by creating it or by bumping its
    /// modification time, `exists` being whether it is present on disk.
    pub fn touch(&self, exists: bool) -> (r: TouchAction)
        ensures
            r == (if exists { TouchAction::SetTimeNow } else { TouchAction::CreateEmpty }),
    {
        if exists {
            TouchAction::SetTimeNow
        } else {
            TouchAction::CreateEmpty
        }
    }

    /// Decides whether writing `bytes` must reach the disk, `current` being
    /// the file's readable content (absent when it cannot be read). Content
    /// already equal to `bytes` is kept as is, leaving the modification
    /// time unchanged, so byte-identical generator output forces no
    /// downstream rebuild.
    pub fn rewrite(&self, current: &Option<Vec<u8>>, bytes: &[u8]) -> (r: WriteAction)
        ensures
            r == spec_rewrite_action(current.deep_view(), bytes@),
    {
        match current {
            Some(c) => {
                let same = eq_bytes(c, bytes);
                proof {
                    assert(c.deep_view() =~= c@);
                }
                if same {
                    proof {
                        assert(current.deep_view() == Some(bytes@));
                    }
                    WriteAction::Keep
                } else {
                    proof {
                        assert(current.deep_view() != Some(bytes@));
                    }
                    WriteAction::Write
                }
            },
            None => WriteAction::Write,
        }
    }
}

impl Dir {
    /// Decides whether to touch this directory by creating it or by bumping
    /// its modification time, `exists` being whether it is present on disk.
    pub fn touch(&self, exists: bool) -> (r: TouchAction)
        ensures
            r == (if exists { TouchAction::SetTimeNow } else { TouchAction::CreateEmpty }),
    {
        if exists {
            TouchAction::SetTimeNow
        } else {
            TouchAction::CreateEmpty
        }
    }
}


//-- Stamps and collections -----------------------------------------------

/// Relies on `walkdir::WalkDir` with maximum depth 0 and followed links to
/// read the metadata of the single entry at `path`: hands back its
/// modification time as nanoseconds relative to the epoch, absent when the
/// path cannot be read or its time precedes the epoch.
#[verifier::external_body]
fn mtime_of(path: &String) -> Option<i128> {
    walkdir::WalkDir::new(path.as_str())
        .follow_links(true)
        .max_depth(0)
        .into_iter()
        .next()
        .and_then(|e| e.ok())
        .and_then(|e| e.metadata().ok())
        .and_then(|m| m.modified().ok())
        .and_then(|t| t.duration_since(std::time::UNIX_EPOCH).ok())
        .map(|d| d.as_nanos() as i128)
}

/// Relies on `filetime::set_file_mtime` and `filetime::FileTime::now` to
/// set the entry's modification time to the present moment.
#[verifier::external_body]
fn set_mtime_now(path: &String) -> Result<(), ()> {
    filetime::set_file_mtime(path.as_str(), filetime::FileTime::now()).map_err(|_| ())
}

impl Resource for File {
    /// The file's modification stamp, absent when it does not exist.
    fn timestamp(&self) -> Option<i128> {
        let p = self.path();
        mtime_of(&p)
    }
}

impl Resource for Dir {
    /// The directory's modification stamp, absent when it does not exist.
    fn timestamp(&self) -> Option<i128> {
        let p = self.path();
        mtime_of(&p)
    }
}

impl Resource for Unit {
    /// The wrapped entity's modification stamp.
    fn timestamp(&self) -> Option<i128> {
        match self {
            Unit::Dir(d) => d.timestamp(),
            Unit::File(f) => f.timestamp(),
        }
    }
}

impl File {
    /// Executes [`TouchAction::SetTimeNow`] for this file: sets its
    /// modification time to the present moment. Fails when the file cannot
    /// be reached.
    pub fn set_modified_now(&self) -> Result<(), Error> {
        let p = self.path();
        match set_mtime_now(&p) {
            Ok(()) => Ok(()),
            Err(()) => Err(Error::NotFound),
        }
    }

    /// Joins this file and another into an ordered resource collection.
    pub fn and(&self, other: &File) -> (r: ResourceSet<File>)
        ensures
            r.items@.len() == 2,
            r.items@[0].parts_view() == self.parts_view(),
            r.items@[1].parts_view() == other.parts_view(),
    {
        let mut items: Vec<File> = Vec::new();
        items.push(self.clone());
        items.push(other.clone());
        ResourceSet::from_items(items)
    }

    /// Joins this file and a directory into an ordered resource collection
    /// of mixed entities.
    pub fn and_dir(&self, other: &Dir) -> (r: ResourceSet<Unit>)
        ensures
            r.items@.len() == 2,
            r.items@[0] is File && r.items@[0].parts_view() == self.parts_view(),
            r.items@[1] is Dir && r.items@[1].parts_view() == other.parts_view(),
    {
        let mut items: Vec<Unit> = Vec::new();
        items.push(Unit::File(self.clone()));
        items.push(Unit::Dir(other.clone()));
        ResourceSet::from_items(items)
    }
}

impl Dir {
    /// Executes [`TouchAction::SetTimeNow`] for this directory: sets its
    /// modification time to the present moment. Fails when the directory
    /// cannot be reached.
    pub fn set_modified_now(&self) -> Result<(), Error> {
        let p = self.path();
        match set_mtime_now(&p) {
            Ok(()) => Ok(()),
            Err(()) => Err(Error::NotFound),
        }
    }

    /// Joins this directory and another into an ordered resource collection.
    pub fn and(&self, other: &Dir) -> (r: ResourceSet<Dir>)
        ensures
            r.items@.len() == 2,
            r.items@[0].parts_view() == self.parts_view(),
            r.items@[1].parts_view() == other.parts_view(),
    {
        let mut items: Vec<Dir> = Vec::new();
        items.push(self.clone());
        items.push(other.clone());
        ResourceSet::from_items(items)
    }

    /// Joins this directory and a file into an ordered resource collection
    /// of mixed entities.
    pub fn and_file(&self, other: &File) -> (r: ResourceSet<Unit>)
        ensures
            r.items@.len() == 2,
            r.items@[0] is Dir && r.items@[0].parts_view() == self.parts_view(),
            r.items@[1] is File && r.items@[1].parts_view() == other.parts_view(),
    {
        let mut items: Vec<Unit> = Vec::new();
        items.push(Unit::Dir(self.clone()));
        items.push(Unit::File(other.clone()));
        ResourceSet::from_items(items)
    }
}

} // verus!
