use vstd::prelude::*;

use crate::blob::{Blob, BlobType};
use crate::board::BoardGraph;
use crate::paths::{extension, extension_of};
use crate::pinboard::{fresh_uuid, Pinboard, PinboardBuffer};

use poll_promise::Promise;

verus! {

/// A pinboard being read from its file.
pub type BoardLoad = Promise<Result<PinboardBuffer, String>>;

/// The application's state: the open pinboards, each with whether its
/// window is shown, the boards being opened, and where files go to be
/// edited. No two open boards hold the same identifier, so one file is
/// never open twice.
pub struct PinlabApp {
    pub pinboards: Vec<(PinboardBuffer, bool)>,
    pub boards_to_open: Vec<Option<BoardLoad>>,
    pub nvim_ext: Vec<String>,
    pub nvim_srv: Option<String>,
}

/// The identifier of each entry, in order.
pub open spec fn uuids(s: Seq<(PinboardBuffer, bool)>) -> Seq<u128> {
    s.map_values(|e: (PinboardBuffer, bool)| e.0.pinboard.uuid)
}

impl PinlabApp {
    pub open spec fn wf(&self) -> bool {
        forall|i: int, j: int|
            0 <= i < j < self.pinboards@.len() ==> (#[trigger] self.pinboards@[i]).0.pinboard.uuid
                != (#[trigger] self.pinboards@[j]).0.pinboard.uuid
    }

    /// No board open; files whose extension is in `nvim_ext` (Markdown's
    /// where none are given) go to the editor server `nvim_srv` if there is one.
    pub fn new(nvim_srv: Option<String>, nvim_ext: Option<Vec<String>>) -> (r: PinlabApp)
        ensures
            r.wf(),
            r.pinboards@.len() == 0,
            r.boards_to_open@.len() == 0,
            r.nvim_srv == nvim_srv,
            match nvim_ext {
                Some(v) => r.nvim_ext == v,
                None => r.nvim_ext@.len() == 2 && r.nvim_ext@[0]@ == "md"@ && r.nvim_ext@[1]@
                    == "markdown"@,
            },
    {
        PinlabApp {
            pinboards: Vec::new(),
            boards_to_open: Vec::new(),
            nvim_ext: editor_extensions(nvim_ext),
            nvim_srv,
        }
    }

    /// The position of the board with identifier `uuid`, if it is open.
    pub fn find(&self, uuid: u128) -> (r: Option<usize>)
        ensures
            r matches Some(i) ==> i < self.pinboards@.len() && self.pinboards@[i as int].0.pinboard.uuid
                == uuid,
            r is None ==> !uuids(self.pinboards@).contains(uuid),
    {
        let mut i: usize = 0;
        while i < self.pinboards.len()
            invariant
                0 <= i <= self.pinboards@.len(),
                forall|j: int| 0 <= j < i ==> (#[trigger] self.pinboards@[j]).0.pinboard.uuid != uuid,
            decreases self.pinboards@.len() - i,
        {
            if self.pinboards[i].0.pinboard.uuid == uuid {
                return Some(i);
            }
            i = i + 1;
        }
        proof {
            if uuids(self.pinboards@).contains(uuid) {
                let j = choose|j: int| 0 <= j < uuids(self.pinboards@).len() && uuids(self.pinboards@)[j] == uuid;
                assert(self.pinboards@[j].0.pinboard.uuid == uuid);
            }
        }
        None
    }

    /// Takes in a buffer that was opened from a file. Where a board with the
    /// same identifier is open already, its window is shown and `buffer` is
    /// dropped; else `buffer` is added, shown. Returns whether it was added.
    pub fn open_buffer(&mut self, buffer: PinboardBuffer) -> (r: bool)
        requires
            old(self).wf(),
        ensures
            final(self).boards_to_open == old(self).boards_to_open,
            final(self).nvim_ext == old(self).nvim_ext,
            final(self).nvim_srv == old(self).nvim_srv,
            final(self).wf(),
            r == !uuids(old(self).pinboards@).contains(buffer.pinboard.uuid),
            r ==> final(self).pinboards@ == old(self).pinboards@.push((buffer, true)),
            !r ==> exists|i: int|
                0 <= i < old(self).pinboards@.len() && old(self).pinboards@[i].0.pinboard.uuid
                    == buffer.pinboard.uuid && final(self).pinboards@ == old(self).pinboards@.update(
                    i,
                    (old(self).pinboards@[i].0, true),
                ),
    {
        match self.find(buffer.pinboard.uuid) {
            Some(i) => {
                assert(uuids(self.pinboards@)[i as int] == buffer.pinboard.uuid);
                self.show(i);
                false
            },
            None => {
                self.push_new(buffer);
                true
            },
        }
    }

    /// Shows the window of the board at `i`.
    fn show(&mut self, i: usize)
        requires
            old(self).wf(),
            i < old(self).pinboards@.len(),
        ensures
            final(self).boards_to_open == old(self).boards_to_open,
            final(self).nvim_ext == old(self).nvim_ext,
            final(self).nvim_srv == old(self).nvim_srv,
            final(self).wf(),
            final(self).pinboards@ == old(self).pinboards@.update(
                i as int,
                (old(self).pinboards@[i as int].0, true),
            ),
    {
        let mut slot = (PinboardBuffer::new(Pinboard::default(), None, false), false);
        self.pinboards.set_and_swap(i, &mut slot);
        let (buffer, _) = slot;
        self.pinboards.set(i, (buffer, true));
        assert forall|a: int, b: int| 0 <= a < b < self.pinboards@.len() implies (
        #[trigger] self.pinboards@[a]).0.pinboard.uuid != (#[trigger] self.pinboards@[b]).0.pinboard.uuid by {
            assert(old(self).pinboards@[a].0.pinboard.uuid != old(self).pinboards@[b].0.pinboard.uuid);
        }
    }

    /// Adds a board whose identifier is not open yet, shown.
    fn push_new(&mut self, buffer: PinboardBuffer)
        requires
            old(self).wf(),
            !uuids(old(self).pinboards@).contains(buffer.pinboard.uuid),
        ensures
            final(self).boards_to_open == old(self).boards_to_open,
            final(self).nvim_ext == old(self).nvim_ext,
            final(self).nvim_srv == old(self).nvim_srv,
            final(self).wf(),
            final(self).pinboards@ == old(self).pinboards@.push((buffer, true)),
    {
        let ghost u = buffer.pinboard.uuid;
        self.pinboards.push((buffer, true));
        assert forall|a: int, b: int| 0 <= a < b < self.pinboards@.len() implies (
        #[trigger] self.pinboards@[a]).0.pinboard.uuid != (#[trigger] self.pinboards@[b]).0.pinboard.uuid by {
            if b == self.pinboards@.len() - 1 {
                assert(uuids(old(self).pinboards@)[a] == old(self).pinboards@[a].0.pinboard.uuid);
            } else {
                assert(old(self).pinboards@[a].0.pinboard.uuid != old(self).pinboards@[b].0.pinboard.uuid);
            }
        }
    }

    /// An identifier that no open board holds. Among 0 to the number of
    /// open boards there is always one.
    fn free_uuid(&self) -> (r: u128)
        ensures
            !uuids(self.pinboards@).contains(r),
    {
        let n = self.pinboards.len();
        proof {
            assert(uuids(self.pinboards@).len() == n);
            lemma_some_free(uuids(self.pinboards@));
        }
        let mut c: u128 = 0;
        while c <= n as u128
            invariant
                c <= n + 1,
                n == self.pinboards@.len(),
                forall|k: int| 0 <= k < c ==> #[trigger] uuids(self.pinboards@).contains(k as u128),
            decreases n + 1 - c,
        {
            match self.find(c) {
                None => {
                    return c;
                },
                Some(i) => {
                    assert(uuids(self.pinboards@)[i as int] == c);
                },
            }
            c = c + 1;
        }
        proof {
            let w = choose|w: int| 0 <= w <= n && !#[trigger] uuids(self.pinboards@).contains(w as u128);
            assert(uuids(self.pinboards@).contains(w as u128));
        }
        c
    }

    /// Adds a new, empty, unsaved board titled "Untitled", shown, after the
    /// open boards, under an identifier that no open board holds: a fresh
    /// random one, drawn again a few times should it be taken, else
    /// `free_uuid`'s.
    pub fn new_pinboard(&mut self)
        requires
            old(self).wf(),
        ensures
            final(self).wf(),
            final(self).boards_to_open == old(self).boards_to_open,
            final(self).nvim_ext == old(self).nvim_ext,
            final(self).nvim_srv == old(self).nvim_srv,
            ({
                let e = final(self).pinboards@[final(self).pinboards@.len() - 1];
                &&& final(self).pinboards@ == old(self).pinboards@.push(e)
                &&& !uuids(old(self).pinboards@).contains(e.0.pinboard.uuid)
                &&& fresh_board(e)
            }),
    {
        let mut uuid = fresh_uuid();
        let mut tries: usize = 0;
        while tries < 4
            decreases 4 - tries,
        {
            if self.find(uuid).is_none() {
                break;
            }
            uuid = fresh_uuid();
            tries = tries + 1;
        }
        if self.find(uuid).is_some() {
            uuid = self.free_uuid();
        }
        let pinboard = Pinboard::with_uuid(uuid, "Untitled".to_owned(), BoardGraph::new());
        let buffer = PinboardBuffer::new(pinboard, None, true);
        let ghost b = buffer;
        self.push_new(buffer);
        assert(self.pinboards@[self.pinboards@.len() - 1] == (b, true));
    }

    /// Takes in the boards whose loading finished this frame, in order:
    /// each board read in is opened, or shown where a board with its
    /// identifier is open already; each failure gives its message, in order.
    /// The boards that were open stay, in their places, changed in no more
    /// than being shown.
    pub fn handle_opened(&mut self, loaded: Vec<Result<PinboardBuffer, String>>) -> (r: Vec<String>)
        requires
            old(self).wf(),
        ensures
            final(self).wf(),
            final(self).boards_to_open == old(self).boards_to_open,
            final(self).nvim_ext == old(self).nvim_ext,
            final(self).nvim_srv == old(self).nvim_srv,
            kept_boards(old(self).pinboards@, final(self).pinboards@),
            forall|j: int|
                old(self).pinboards@.len() <= j < final(self).pinboards@.len()
                    ==> (#[trigger] final(self).pinboards@[j]).1 && loaded_ok(
                    loaded@,
                    final(self).pinboards@[j].0,
                ),
            forall|k: int|
                0 <= k < loaded@.len() && (#[trigger] loaded@[k]) is Ok ==> shown(
                    final(self).pinboards@,
                    loaded@[k]->Ok_0.pinboard.uuid,
                ),
            r@.map_values(|s: String| s@) == load_errors(loaded@),
    {
        let ghost all = loaded@;
        let mut rest = loaded;
        let mut errors: Vec<String> = Vec::new();
        let ghost mut p: int = 0;
        while rest.len() > 0
            invariant
                self.wf(),
                self.boards_to_open == old(self).boards_to_open,
                self.nvim_ext == old(self).nvim_ext,
                self.nvim_srv == old(self).nvim_srv,
                0 <= p <= all.len(),
                rest@ == all.subrange(p, all.len() as int),
                kept_boards(old(self).pinboards@, self.pinboards@),
                forall|j: int|
                    old(self).pinboards@.len() <= j < self.pinboards@.len() ==> (
                    #[trigger] self.pinboards@[j]).1 && loaded_ok(all, self.pinboards@[j].0),
                forall|k: int|
                    0 <= k < p && (#[trigger] all[k]) is Ok ==> shown(
                        self.pinboards@,
                        all[k]->Ok_0.pinboard.uuid,
                    ),
                errors@.map_values(|s: String| s@) + load_errors(rest@) == load_errors(all),
            decreases rest@.len(),
        {
            let ghost before = rest@;
            let ghost boards = self.pinboards@;
            let ghost errs = errors@.map_values(|s: String| s@);
            let x = rest.remove(0);
            assert(rest@ =~= before.subrange(1, before.len() as int));
            assert(rest@ =~= all.subrange(p + 1, all.len() as int));
            assert(all[p] == x);
            match x {
                Ok(buffer) => {
                    let ghost b = buffer;
                    let added = self.open_buffer(buffer);
                    proof {
                        lemma_step_keeps(boards, self.pinboards@, b, added);
                        assert(loaded_ok(all, b));
                        assert forall|k: int|
                            0 <= k < p + 1 && (#[trigger] all[k]) is Ok implies shown(
                                self.pinboards@,
                                all[k]->Ok_0.pinboard.uuid,
                            ) by {
                            if k < p {
                                let j = choose|j: int|
                                    0 <= j < boards.len() && boards[j].0.pinboard.uuid
                                        == all[k]->Ok_0.pinboard.uuid && boards[j].1;
                                assert(self.pinboards@[j].0 == boards[j].0 && self.pinboards@[j].1);
                            }
                        }
                        assert(errors@.map_values(|s: String| s@) + load_errors(rest@) =~= errs
                            + load_errors(before));
                    }
                },
                Err(e) => {
                    errors.push(e);
                    proof {
                        assert(errors@.map_values(|s: String| s@) =~= errs.push(x->Err_0@));
                        assert(errors@.map_values(|s: String| s@) + load_errors(rest@) =~= errs
                            + load_errors(before));
                    }
                },
            }
            proof {
                p = p + 1;
            }
        }
        errors
    }

    /// How to open `blob` under this application's editor settings.
    pub fn launch(&self, blob: &Blob) -> (r: Launch)
        ensures
            launch_agrees(*blob, self.nvim_srv, self.nvim_ext@, r),
    {
        launch_for(blob, &self.nvim_srv, &self.nvim_ext)
    }
}

/// Among 0 to `s.len()` some identifier is not in `s`.
proof fn lemma_some_free(s: Seq<u128>)
    requires
        s.len() <= usize::MAX,
    ensures
        exists|c: int| 0 <= c <= s.len() && !#[trigger] s.contains(c as u128),
{
    broadcast use vstd::seq_lib::seq_to_set_is_finite;
    let n = s.len() as int;
    let si = s.map_values(|x: u128| x as int);
    if forall|c: int| 0 <= c <= n ==> #[trigger] s.contains(c as u128) {
        si.lemma_cardinality_of_set();
        vstd::set_lib::lemma_int_range(0, n + 1);
        assert forall|c: int| vstd::set_lib::set_int_range(0, n + 1).contains(c) implies si.to_set().contains(c) by {
            assert(s.contains(c as u128));
            let j = choose|j: int| 0 <= j < s.len() && s[j] == c as u128;
            assert(si[j] == c);
        }
        vstd::set_lib::lemma_len_subset(vstd::set_lib::set_int_range(0, n + 1), si.to_set());
    }
}

/// A new board: shown, unsaved, never saved, titled "Untitled", empty, with no task in flight.
pub open spec fn fresh_board(e: (PinboardBuffer, bool)) -> bool {
    let b = e.0;
    &&& e.1
    &&& b.unsaved
    &&& b.path is None
    &&& !b.show_rename_modal
    &&& b.pinboard.title@ == "Untitled"@
    &&& b.pinboard.graph.wf()
    &&& b.pinboard.graph.nodes@.len() == 0
    &&& b.pinboard.graph.edges@.len() == 0
    &&& b.pinboard.graph.selected_nodes@.len() == 0
    &&& b.pinboard.graph.selected_edges@.len() == 0
    &&& b.save_file_promise is None
    &&& b.update_blob_promise is None
    &&& b.update_blob_and_open_promise is None
}

/// The messages of the loads that failed, in order.
pub open spec fn load_errors(s: Seq<Result<PinboardBuffer, String>>) -> Seq<Seq<char>>
    decreases s.len(),
{
    if s.len() == 0 {
        Seq::empty()
    } else {
        (match s[0] {
            Err(e) => seq![e@],
            Ok(_) => Seq::empty(),
        }) + load_errors(s.subrange(1, s.len() as int))
    }
}

/// A board with identifier `u` is open and shown.
pub open spec fn shown(s: Seq<(PinboardBuffer, bool)>, u: u128) -> bool {
    exists|j: int| 0 <= j < s.len() && s[j].0.pinboard.uuid == u && s[j].1
}

/// `b` is one of the boards read in.
pub open spec fn loaded_ok(loaded: Seq<Result<PinboardBuffer, String>>, b: PinboardBuffer) -> bool {
    exists|k: int| 0 <= k < loaded.len() && loaded[k] == Ok::<PinboardBuffer, String>(b)
}

/// Every board of `s0` stays in `s1`, in its place, and a shown one stays shown.
pub open spec fn kept_boards(s0: Seq<(PinboardBuffer, bool)>, s1: Seq<(PinboardBuffer, bool)>) -> bool {
    &&& s1.len() >= s0.len()
    &&& forall|i: int|
        0 <= i < s0.len() ==> (#[trigger] s1[i]).0 == s0[i].0 && (s0[i].1 ==> s1[i].1)
}

/// One `open_buffer` keeps the boards and shows the one it took in.
proof fn lemma_step_keeps(s0: Seq<(PinboardBuffer, bool)>, s1: Seq<(PinboardBuffer, bool)>, b: PinboardBuffer, added: bool)
    requires
        added ==> s1 == s0.push((b, true)),
        !added ==> exists|i: int|
            0 <= i < s0.len() && s0[i].0.pinboard.uuid == b.pinboard.uuid && s1 == s0.update(
                i,
                (s0[i].0, true),
            ),
    ensures
        kept_boards(s0, s1),
        shown(s1, b.pinboard.uuid),
        added ==> s1.len() == s0.len() + 1 && s1[s0.len() as int] == (b, true),
        !added ==> s1.len() == s0.len(),
{
    if added {
        assert(s1[s0.len() as int] == (b, true));
    } else {
        let i = choose|i: int|
            0 <= i < s0.len() && s0[i].0.pinboard.uuid == b.pinboard.uuid && s1 == s0.update(
                i,
                (s0[i].0, true),
            );
        assert(s1[i].1);
    }
}

/// How a double-clicked blob is opened.
#[derive(Clone, Debug, PartialEq, Eq)]
pub enum Launch {
    /// In the running editor server at `server`.
    Editor { server: String, path: String },
    /// With the system's default program.
    System(String),
    /// As a pinboard of its own.
    Board(String),
}

/// `exts` holds `x`.
pub open spec fn listed(exts: Seq<String>, x: Seq<char>) -> bool {
    exists|k: int| 0 <= k < exts.len() && (#[trigger] exts[k])@ == x
}

/// `r` is how `blob` opens: a pinboard as a board; a file in the editor
/// server where one is given and the file's extension is listed, else with
/// the system's default program.
pub open spec fn launch_agrees(blob: Blob, editor_server: Option<String>, editor_exts: Seq<String>, r: Launch) -> bool {
    match blob.ty {
        BlobType::PinboardGraph => r matches Launch::Board(p) && p@ == blob.path@,
        BlobType::File => match (editor_server, extension_of(blob.path@)) {
            (Some(s), Some(x)) => if listed(editor_exts, x) {
                r matches Launch::Editor { server, path } && server@ == s@ && path@ == blob.path@
            } else {
                r matches Launch::System(p) && p@ == blob.path@
            },
            _ => r matches Launch::System(p) && p@ == blob.path@,
        },
    }
}

/// Decides how to open `blob`: a pinboard opens as a board; a file goes to
/// the editor server where one is given and the file's extension is one of
/// `editor_exts`, else to the system's default program.
pub fn launch_for(blob: &Blob, editor_server: &Option<String>, editor_exts: &Vec<String>) -> (r: Launch)
    ensures
        launch_agrees(*blob, *editor_server, editor_exts@, r),
{
    match blob.ty {
        BlobType::PinboardGraph => Launch::Board(blob.path.clone()),
        BlobType::File => {
            if let Some(server) = editor_server {
                if let Some(x) = extension(blob.path.as_str()) {
                    let mut k: usize = 0;
                    while k < editor_exts.len()
                        invariant
                            0 <= k <= editor_exts@.len(),
                            forall|j: int| 0 <= j < k ==> (#[trigger] editor_exts@[j])@ != x@,
                            extension_of(blob.path@) == Some(x@),
                            *editor_server == Some(*server),
                            blob.ty == BlobType::File,
                        decreases editor_exts@.len() - k,
                    {
                        if editor_exts[k] == x {
                            assert(listed(editor_exts@, x@));
                            return Launch::Editor { server: server.clone(), path: blob.path.clone() };
                        }
                        k = k + 1;
                    }
                }
            }
            Launch::System(blob.path.clone())
        },
    }
}

/// The kind of blob for a picked file: a pinboard where its extension is
/// `pinbrd`, any other file otherwise.
pub fn blob_type_for(path: &str) -> (r: BlobType)
    ensures
        r == if extension_of(path@) == Some("pinbrd"@) {
            BlobType::PinboardGraph
        } else {
            BlobType::File
        },
{
    match extension(path) {
        Some(x) => {
            if x == "pinbrd".to_owned() {
                BlobType::PinboardGraph
            } else {
                BlobType::File
            }
        },
        None => BlobType::File,
    }
}

/// The extensions that go to the editor server: those given, else Markdown's.
pub fn editor_extensions(given: Option<Vec<String>>) -> (r: Vec<String>)
    ensures
        match given {
            Some(v) => r == v,
            None => r@.len() == 2 && r@[0]@ == "md"@ && r@[1]@ == "markdown"@,
        },
{
    match given {
        Some(v) => v,
        None => {
            let mut r: Vec<String> = Vec::new();
            r.push("md".to_owned());
            r.push("markdown".to_owned());
            r
        },
    }
}

} // verus!
