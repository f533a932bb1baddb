use vstd::prelude::*;

use crate::digest::{blake3_of, content_digest, same_digest, Digest};

use crate::palette::NamedColor;

verus! {

/// What a blob refers to.
#[derive(Clone, Copy, Debug, PartialEq, Eq, Structural)]
pub enum BlobType {
    /// Another pinboard file, opened as a board of its own.
    PinboardGraph,
    /// Any other document, opened by an outside program.
    File,
}

impl BlobType {
    /// The colour that marks a node of this kind; `None` leaves the default.
    pub fn color(&self) -> (r: Option<NamedColor>)
        ensures
            r == blob_type_color(*self),
    {
        match self {
            BlobType::PinboardGraph => Some(NamedColor::LightBlue),
            BlobType::File => None,
        }
    }
}

pub open spec fn blob_type_color(t: BlobType) -> Option<NamedColor> {
    match t {
        BlobType::PinboardGraph => Some(NamedColor::LightBlue),
        BlobType::File => None,
    }
}

/// A reference to an outside file: its kind, its path, and the digest of the
/// content it had when it was last read.
#[derive(Clone, Debug)]
pub struct Blob {
    pub ty: BlobType,
    pub path: String,
    pub hash: Digest,
}

/// One entry of a directory tree as the file system showed it.
/// `hidden` is `None` where asking whether the entry is hidden failed.
pub enum FsEntry {
    /// Anything that is not a directory, with the digest of its content
    /// (see `digest_of`); `digest` is `None` where reading it failed.
    File { path: String, hidden: Option<bool>, digest: Option<Digest> },
    /// A directory; `listing` is `None` where listing it failed.
    Dir { path: String, hidden: Option<bool>, listing: Option<Vec<FsEntry>> },
}

/// How the blob's own path looked when it was checked.
pub enum PathProbe {
    /// The path exists; `None` where reading it failed.
    Present(Option<Vec<u8>>),
    /// The path does not exist; the tree under the search root.
    Absent(FsEntry),
    /// Whether the path exists could not be told.
    Unknown,
}

/// Why a blob could not be brought up to date.
#[derive(Clone, Copy, Debug, PartialEq, Eq, Structural)]
pub enum UpdateError {
    /// A file or directory that had to be read could not be.
    Unreadable,
    /// More than one file matches the digest: the path is not repaired.
    MultipleCandidates,
}

/// An entry is searched only where it is known not to be hidden.
pub open spec fn visible(hidden: Option<bool>) -> bool {
    hidden == Some(false)
}

/// The paths of the visible files under `e` whose content has the digest
/// `target`, in the order of a depth-first walk.
pub open spec fn entry_matches(e: FsEntry, target: Seq<u8>) -> Seq<Seq<char>>
    decreases e,
{
    match e {
        FsEntry::File { path, hidden, digest } => {
            if visible(hidden) && digest is Some && digest->0@ == target {
                seq![path@]
            } else {
                Seq::empty()
            }
        },
        FsEntry::Dir { hidden, listing, .. } => {
            if visible(hidden) && listing is Some {
                list_matches(listing->0@, target)
            } else {
                Seq::empty()
            }
        },
    }
}

/// The matches of a directory listing, entry after entry.
pub open spec fn list_matches(s: Seq<FsEntry>, target: Seq<u8>) -> Seq<Seq<char>>
    decreases s,
{
    if s.len() == 0 {
        Seq::empty()
    } else {
        list_matches(s.subrange(0, s.len() - 1), target) + entry_matches(s[s.len() - 1], target)
    }
}

/// Every visible file under `e` could be read and every visible directory listed.
pub open spec fn entry_readable(e: FsEntry) -> bool
    decreases e,
{
    match e {
        FsEntry::File { hidden, digest, .. } => visible(hidden) ==> digest is Some,
        FsEntry::Dir { hidden, listing, .. } => visible(hidden) ==> (listing is Some
            && list_readable(listing->0@)),
    }
}

pub open spec fn list_readable(s: Seq<FsEntry>) -> bool
    decreases s,
{
    if s.len() == 0 {
        true
    } else {
        list_readable(s.subrange(0, s.len() - 1)) && entry_readable(s[s.len() - 1])
    }
}

/// The matches under a search root. A root that is not a directory holds none;
/// the root itself is searched whether hidden or not.
pub open spec fn root_matches(root: FsEntry, target: Seq<u8>) -> Seq<Seq<char>> {
    match root {
        FsEntry::Dir { listing: Some(l), .. } => list_matches(l@, target),
        _ => Seq::empty(),
    }
}

/// The search under `root` meets no read failure.
pub open spec fn root_readable(root: FsEntry) -> bool {
    match root {
        FsEntry::Dir { listing, .. } => listing is Some && list_readable(listing->0@),
        FsEntry::File { .. } => true,
    }
}

/// What a search for `target` under `root` decides: the unique match, no
/// match, or a failure. Two matches make the search ambiguous whatever else
/// could not be read; short of that, an entry that could not be read fails it.
pub open spec fn search_result(root: FsEntry, target: Seq<u8>) -> Result<Option<Seq<char>>, UpdateError> {
    let m = root_matches(root, target);
    if m.len() >= 2 {
        Err(UpdateError::MultipleCandidates)
    } else if !root_readable(root) {
        Err(UpdateError::Unreadable)
    } else if m.len() == 1 {
        Ok(Some(m[0]))
    } else {
        Ok(None)
    }
}

/// The blob's fields, with the path as characters and the digest as bytes.
pub open spec fn blob_view(b: Blob) -> (BlobType, Seq<char>, Seq<u8>) {
    (b.ty, b.path@, b.hash@)
}

/// What `update` makes of a blob: the new fields, or the error. On an error
/// the blob stays as it was.
pub open spec fn updated(b: (BlobType, Seq<char>, Seq<u8>), probe: PathProbe) -> Result<
    (BlobType, Seq<char>, Seq<u8>),
    UpdateError,
> {
    match probe {
        PathProbe::Present(Some(c)) => Ok((b.0, b.1, blake3_of(c@))),
        PathProbe::Present(None) => Err(UpdateError::Unreadable),
        PathProbe::Absent(root) => match search_result(root, b.2) {
            Ok(Some(p)) => Ok((b.0, p, b.2)),
            Ok(None) => Ok(b),
            Err(e) => Err(e),
        },
        PathProbe::Unknown => Ok(b),
    }
}

/// The outcome of scanning part of a tree: no match, one, or more than one.
enum Found {
    Nothing,
    One(String),
    Several,
}

spec fn found_agrees(f: Found, m: Seq<Seq<char>>) -> bool {
    match f {
        Found::Nothing => m.len() == 0,
        Found::One(p) => m.len() == 1 && m[0] == p@,
        Found::Several => m.len() >= 2,
    }
}

proof fn lemma_list_step(s: Seq<FsEntry>, i: int, target: Seq<u8>)
    requires
        0 <= i < s.len(),
    ensures
        list_matches(s.subrange(0, i + 1), target) == list_matches(s.subrange(0, i), target)
            + entry_matches(s[i], target),
        list_readable(s.subrange(0, i + 1)) == (list_readable(s.subrange(0, i))
            && entry_readable(s[i])),
{
    let t = s.subrange(0, i + 1);
    assert(t.subrange(0, t.len() - 1) =~= s.subrange(0, i));
}

/// Scans a directory listing to its end: what matches, and whether every
/// visible entry could be read.
fn scan_list(entries: &Vec<FsEntry>, target: &Digest) -> (r: (Found, bool))
    ensures
        r.1 == list_readable(entries@),
        found_agrees(r.0, list_matches(entries@, target@)),
    decreases entries@,
{
    let mut found = Found::Nothing;
    let mut readable = true;
    let mut i: usize = 0;
    while i < entries.len()
        invariant
            0 <= i <= entries@.len(),
            readable == list_readable(entries@.subrange(0, i as int)),
            found_agrees(found, list_matches(entries@.subrange(0, i as int), target@)),
        decreases entries@.len() - i,
    {
        proof {
            lemma_list_step(entries@, i as int, target@);
        }
        let (h, ok) = scan_entry(&entries[i], target);
        readable = readable && ok;
        found = match (found, h) {
            (Found::Nothing, h) => h,
            (f, Found::Nothing) => f,
            (_, _) => Found::Several,
        };
        i = i + 1;
    }
    assert(entries@.subrange(0, entries@.len() as int) =~= entries@);
    (found, readable)
}

/// Scans one entry and what lies under it.
fn scan_entry(e: &FsEntry, target: &Digest) -> (r: (Found, bool))
    ensures
        r.1 == entry_readable(*e),
        found_agrees(r.0, entry_matches(*e, target@)),
    decreases e,
{
    match e {
        FsEntry::File { path, hidden, digest } => {
            if !matches!(hidden, Some(false)) {
                return (Found::Nothing, true);
            }
            match digest {
                None => (Found::Nothing, false),
                Some(d) => {
                    if same_digest(d, target) {
                        (Found::One(path.clone()), true)
                    } else {
                        (Found::Nothing, true)
                    }
                },
            }
        },
        FsEntry::Dir { hidden, listing, .. } => {
            if !matches!(hidden, Some(false)) {
                return (Found::Nothing, true);
            }
            match listing {
                None => (Found::Nothing, false),
                Some(l) => scan_list(l, target),
            }
        },
    }
}

impl Blob {
    /// A blob for the file at `path` whose bytes are `content`.
    pub fn new(ty: BlobType, path: String, content: &[u8]) -> (r: Blob)
        ensures
            blob_view(r) == (ty, path@, blake3_of(content@)),
    {
        let hash = content_digest(content);
        Blob { ty, path, hash }
    }

    /// A copy of the blob, field for field.
    pub fn duplicate(&self) -> (r: Blob)
        ensures
            r == *self,
    {
        Blob { ty: self.ty, path: self.path.clone(), hash: self.hash }
    }

    pub fn path(&self) -> (r: &String)
        ensures
            r == &self.path,
    {
        &self.path
    }

    pub fn ty(&self) -> (r: &BlobType)
        ensures
            r == &self.ty,
    {
        &self.ty
    }

    /// Searches the tree under `root`, skipping every entry not known to be
    /// visible, for the one file whose recorded digest is `hash`.
    /// Fails as ambiguous when more than one file matches anywhere under
    /// `root`, whatever else could not be read; else fails when a visible
    /// entry cannot be read.
    pub fn walk(root: &FsEntry, hash: &Digest) -> (r: Result<Option<String>, UpdateError>)
        ensures
            match search_result(*root, hash@) {
                Ok(Some(p)) => r matches Ok(Some(q)) && q@ == p,
                Ok(None) => r matches Ok(None),
                Err(e) => r == Err::<Option<String>, UpdateError>(e),
            },
    {
        match root {
            FsEntry::File { .. } => Ok(None),
            FsEntry::Dir { listing, .. } => match listing {
                None => Err(UpdateError::Unreadable),
                Some(l) => match scan_list(l, hash) {
                    (Found::Several, _) => Err(UpdateError::MultipleCandidates),
                    (_, false) => Err(UpdateError::Unreadable),
                    (Found::Nothing, true) => Ok(None),
                    (Found::One(p), true) => Ok(Some(p)),
                },
            },
        }
    }

    /// Brings the blob up to date with what `probe` found at its path: where
    /// the file is there its digest is taken again; where it is gone the
    /// blob moves to the unique file under the search root with the same
    /// content; where it cannot be told, nothing changes.
    pub fn update(&mut self, probe: &PathProbe) -> (r: Result<(), UpdateError>)
        ensures
            match updated(blob_view(*old(self)), *probe) {
                Ok(v) => r is Ok && blob_view(*final(self)) == v,
                Err(e) => r == Err::<(), UpdateError>(e) && *final(self) == *old(self),
            },
    {
        match probe {
            PathProbe::Present(Some(c)) => {
                self.hash = content_digest(c.as_slice());
                Ok(())
            },
            PathProbe::Present(None) => Err(UpdateError::Unreadable),
            PathProbe::Absent(root) => match Self::walk(root, &self.hash) {
                Ok(Some(p)) => {
                    self.path = p;
                    Ok(())
                },
                Ok(None) => Ok(()),
                Err(e) => Err(e),
            },
            PathProbe::Unknown => Ok(()),
        }
    }

    /// The colour that marks a node holding this blob.
    pub fn color(&self) -> (r: Option<NamedColor>)
        ensures
            r == blob_type_color(self.ty),
    {
        self.ty.color()
    }
}

/// Updating a blob whose file is there and unchanged, and then updating it
/// again, gives the same blob as updating it once.
pub proof fn lemma_update_idempotent(b: (BlobType, Seq<char>, Seq<u8>), content: Vec<u8>)
    ensures
        updated(b, PathProbe::Present(Some(content))) is Ok,
        updated(updated(b, PathProbe::Present(Some(content)))->Ok_0, PathProbe::Present(Some(content)))
            == updated(b, PathProbe::Present(Some(content))),
{
}

/// Where the blob's path is gone and exactly one file under the search root
/// has the blob's digest, at whatever depth, the update moves the blob to
/// that file and keeps its kind and digest.
pub proof fn lemma_repair_unique(b: (BlobType, Seq<char>, Seq<u8>), root: FsEntry, p: Seq<char>)
    requires
        root_readable(root),
        root_matches(root, b.2) == seq![p],
    ensures
        updated(b, PathProbe::Absent(root)) == Ok::<_, UpdateError>((b.0, p, b.2)),
{
}

/// Where two or more visible files under the search root have the blob's
/// digest, the update fails as ambiguous, whatever else could not be read
/// (and `update` leaves the blob as it was): the ambiguity is never
/// resolved by picking one.
pub proof fn lemma_repair_ambiguous(b: (BlobType, Seq<char>, Seq<u8>), root: FsEntry)
    requires
        root_matches(root, b.2).len() >= 2,
    ensures
        updated(b, PathProbe::Absent(root)) == Err::<(BlobType, Seq<char>, Seq<u8>), _>(
            UpdateError::MultipleCandidates,
        ),
{
}

/// Where every file under the search root with the blob's digest is hidden
/// or lies in a hidden directory, so that no match is visible, the update
/// never moves the blob nor changes its digest: it succeeds leaving the blob
/// as it was, or fails on an unreadable entry (and `update` then leaves the
/// blob as it was too).
pub proof fn lemma_hidden_matches_leave_blob(b: (BlobType, Seq<char>, Seq<u8>), root: FsEntry)
    requires
        root_matches(root, b.2).len() == 0,
    ensures
        match updated(b, PathProbe::Absent(root)) {
            Ok(v) => v == b,
            Err(e) => e == UpdateError::Unreadable,
        },
        root_readable(root) ==> updated(b, PathProbe::Absent(root)) == Ok::<_, UpdateError>(b),
{
}

/// Where no file under the search root has the blob's digest, the update
/// succeeds and changes nothing.
pub proof fn lemma_repair_miss(b: (BlobType, Seq<char>, Seq<u8>), root: FsEntry)
    requires
        root_readable(root),
        root_matches(root, b.2).len() == 0,
    ensures
        updated(b, PathProbe::Absent(root)) == Ok::<_, UpdateError>(b),
{
}

/// A hidden entry, or one whose hiddenness is unknown, is never matched:
/// taking it out of a listing leaves the matches as they were, whatever it holds.
pub proof fn lemma_hidden_never_matches(s: Seq<FsEntry>, i: int, target: Seq<u8>)
    requires
        0 <= i < s.len(),
        !visible(
            match s[i] {
                FsEntry::File { hidden, .. } => hidden,
                FsEntry::Dir { hidden, .. } => hidden,
            },
        ),
    ensures
        list_matches(s, target) == list_matches(s.remove(i), target),
    decreases s.len(),
{
    let n = s.len();
    let front = s.subrange(0, n - 1);
    if i == n - 1 {
        assert(s.remove(i) =~= front);
        assert(entry_matches(s[i], target) =~= Seq::<Seq<char>>::empty());
        assert(list_matches(s, target) =~= list_matches(front, target));
    } else {
        lemma_hidden_never_matches(front, i, target);
        let r = s.remove(i);
        assert(r.subrange(0, r.len() - 1) =~= front.remove(i));
        assert(r[r.len() - 1] == s[n - 1]);
    }
}

} // verus!
