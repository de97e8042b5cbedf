//! The edit history: an undo stack and a redo stack of (command, line
//! identifier) pairs over one project, plus a per-line revision clock.
//!
//! Every `invoke` clears the redo stack and stamps the edited line with a
//! fresh, strictly larger revision; `undo` steps the line's revision
//! cursor back (floored at the oldest), and `redo` steps it forward
//! again. The stamp read through `get_current_time_stamp` is the
//! authoritative "as of" tag that in-flight background jobs are compared
//! against, so a line edited while a job was in flight never matches the
//! job's captured stamp again.

use crate::commands::{
    cmd_invoke, cmd_undo, lemma_cmd_invoke_wf, lemma_cmd_undo_wf, Command, CommandV,
};
use crate::project::{AudioItem, ProjectV, VoiceVoxProject};
use vstd::prelude::*;

verus! {

/// The revision trail of one line: the stamps of its recorded revisions,
/// and a cursor saying how deep in that trail the line currently is.
pub struct Revisions {
    pub times: Vec<u64>,
    pub cursor: usize,
}

/// Mathematical image of a [`Revisions`].
#[verifier::ext_equal]
pub ghost struct RevisionsV {
    pub times: Seq<u64>,
    pub cursor: int,
}

impl View for Revisions {
    type V = RevisionsV;

    open spec fn view(&self) -> RevisionsV {
        RevisionsV { times: self.times@, cursor: self.cursor as int }
    }
}

/// The history manager: owns the project, the two stacks and the
/// revision table.
pub struct HistoryManager {
    pub undo_stack: Vec<(Command, String)>,
    pub redo_stack: Vec<(Command, String)>,
    pub update_times: Vec<(String, Revisions)>,
    pub clock: u64,
    pub project: VoiceVoxProject,
    pub last_saved_snapshot: Option<VoiceVoxProject>,
}

/// Mathematical image of a [`HistoryManager`].
#[verifier::ext_equal]
pub ghost struct HistoryV {
    pub undo_stack: Seq<(CommandV, Seq<char>)>,
    pub redo_stack: Seq<(CommandV, Seq<char>)>,
    pub update_times: Seq<(Seq<char>, RevisionsV)>,
    pub clock: u64,
    pub project: ProjectV,
    pub snapshot: Option<ProjectV>,
}

impl View for HistoryManager {
    type V = HistoryV;

    open spec fn view(&self) -> HistoryV {
        HistoryV {
            undo_stack: self.undo_stack@.map_values(|e: (Command, String)| (e.0@, e.1@)),
            redo_stack: self.redo_stack@.map_values(|e: (Command, String)| (e.0@, e.1@)),
            update_times: self.update_times@.map_values(|e: (String, Revisions)| (e.0@, e.1@)),
            clock: self.clock,
            project: self.project@,
            snapshot: match self.last_saved_snapshot {
                Some(ref p) => Some(p@),
                None => None,
            },
        }
    }
}

/// Index of the revision entry for `u`, or -1 when there is none.
pub open spec fn rev_idx_of(entries: Seq<(Seq<char>, RevisionsV)>, u: Seq<char>) -> int
    decreases entries.len(),
{
    if entries.len() == 0 {
        -1
    } else if entries[0].0 == u {
        0
    } else {
        let r = rev_idx_of(entries.skip(1), u);
        if r < 0 {
            -1
        } else {
            r + 1
        }
    }
}

/// What `rev_idx_of` finds: the first entry for `u`, or a witness that
/// none exists.
pub proof fn lemma_rev_idx_of(entries: Seq<(Seq<char>, RevisionsV)>, u: Seq<char>)
    ensures
        rev_idx_of(entries, u) == -1 ==> forall|k: int|
            0 <= k < entries.len() ==> entries[k].0 != u,
        rev_idx_of(entries, u) != -1 ==> {
            &&& 0 <= rev_idx_of(entries, u) < entries.len()
            &&& entries[rev_idx_of(entries, u)].0 == u
            &&& forall|k: int| 0 <= k < rev_idx_of(entries, u) ==> entries[k].0 != u
        },
    decreases entries.len(),
{
    if entries.len() == 0 {
    } else if entries[0].0 == u {
    } else {
        lemma_rev_idx_of(entries.skip(1), u);
        let r = rev_idx_of(entries.skip(1), u);
        if r >= 0 {
            assert(entries[r + 1] == entries.skip(1)[r]);
            assert forall|k: int| 0 <= k < r + 1 implies entries[k].0 != u by {
                if k > 0 {
                    assert(entries.skip(1)[k - 1] == entries[k]);
                }
            }
        } else {
            assert forall|k: int| 0 <= k < entries.len() implies entries[k].0 != u by {
                if k > 0 {
                    assert(entries.skip(1)[k - 1] == entries[k]);
                }
            }
        }
    }
}

/// The revision table after one `invoke` on line `u` at stamp `now`: the
/// line's trail gains the stamp and its cursor advances; a line not yet
/// tracked starts a trail.
pub open spec fn tick_times(
    entries: Seq<(Seq<char>, RevisionsV)>,
    u: Seq<char>,
    now: u64,
) -> Seq<(Seq<char>, RevisionsV)> {
    let i = rev_idx_of(entries, u);
    if i >= 0 {
        let r = entries[i].1;
        entries.update(
            i,
            (entries[i].0, RevisionsV { times: r.times.push(now), cursor: r.cursor + 1 }),
        )
    } else {
        entries.push((u, RevisionsV { times: seq![now], cursor: 0 }))
    }
}

/// The revision table after one `undo` of an edit on line `u`: its cursor
/// steps back, floored at the oldest revision.
pub open spec fn cursor_back(
    entries: Seq<(Seq<char>, RevisionsV)>,
    u: Seq<char>,
) -> Seq<(Seq<char>, RevisionsV)> {
    let i = rev_idx_of(entries, u);
    if i >= 0 && entries[i].1.cursor > 0 {
        let r = entries[i].1;
        entries.update(i, (entries[i].0, RevisionsV { times: r.times, cursor: r.cursor - 1 }))
    } else {
        entries
    }
}

/// The revision table after one `redo` of an edit on line `u`: its cursor
/// steps forward, capped at the newest revision.
pub open spec fn cursor_fwd(
    entries: Seq<(Seq<char>, RevisionsV)>,
    u: Seq<char>,
) -> Seq<(Seq<char>, RevisionsV)> {
    let i = rev_idx_of(entries, u);
    if i >= 0 && entries[i].1.cursor + 1 < entries[i].1.times.len() {
        let r = entries[i].1;
        entries.update(i, (entries[i].0, RevisionsV { times: r.times, cursor: r.cursor + 1 }))
    } else {
        entries
    }
}

/// The stamp at line `u`'s current cursor.
pub open spec fn current_rev(h: HistoryV, u: Seq<char>) -> Option<u64> {
    let i = rev_idx_of(h.update_times, u);
    if i >= 0 {
        let r = h.update_times[i].1;
        if 0 <= r.cursor < r.times.len() {
            Some(r.times[r.cursor])
        } else {
            None
        }
    } else {
        None
    }
}

/// One revision trail is well formed under the manager's clock: the
/// cursor points at a recorded stamp, the stamps strictly increase, and
/// all of them predate the clock.
pub open spec fn rev_wf(r: RevisionsV, clock: u64) -> bool {
    &&& 0 <= r.cursor < r.times.len()
    &&& forall|a: int, b: int| 0 <= a < b < r.times.len() ==> r.times[a] < r.times[b]
    &&& forall|k: int| 0 <= k < r.times.len() ==> r.times[k] < clock
}

impl HistoryV {
    /// Well-formedness: the project's identifiers are unique, the
    /// revision table has one entry per line, and every trail is well
    /// formed under the clock.
    pub open spec fn wf(self) -> bool {
        &&& self.project.wf()
        &&& forall|a: int, b: int|
            0 <= a < b < self.update_times.len() ==> self.update_times[a].0
                != self.update_times[b].0
        &&& forall|k: int| 0 <= k < self.update_times.len() ==> rev_wf(
            #[trigger] self.update_times[k].1,
            self.clock,
        )
    }
}

/// What `invoke` does: the command runs and is recorded, the redo stack
/// is cleared, the edited line is stamped and the clock advances.
pub open spec fn mgr_invoke(h: HistoryV, c: CommandV, u: Seq<char>) -> HistoryV {
    let (c2, p2) = cmd_invoke(c, h.project, u);
    HistoryV {
        undo_stack: h.undo_stack.push((c2, u)),
        redo_stack: Seq::empty(),
        update_times: tick_times(h.update_times, u, h.clock),
        clock: (h.clock + 1) as u64,
        project: p2,
        snapshot: h.snapshot,
    }
}

/// What `undo` does: the newest recorded command is rolled back and moves
/// to the redo stack; with an empty undo stack, nothing happens.
pub open spec fn mgr_undo(h: HistoryV) -> HistoryV {
    if h.undo_stack.len() == 0 {
        h
    } else {
        let (c, u) = h.undo_stack.last();
        let (c2, p2) = cmd_undo(c, h.project, u);
        HistoryV {
            undo_stack: h.undo_stack.drop_last(),
            redo_stack: h.redo_stack.push((c2, u)),
            update_times: cursor_back(h.update_times, u),
            clock: h.clock,
            project: p2,
            snapshot: h.snapshot,
        }
    }
}

/// What `redo` does: the newest undone command runs again and moves back
/// to the undo stack; with an empty redo stack, nothing happens.
pub open spec fn mgr_redo(h: HistoryV) -> HistoryV {
    if h.redo_stack.len() == 0 {
        h
    } else {
        let (c, u) = h.redo_stack.last();
        let (c2, p2) = cmd_invoke(c, h.project, u);
        HistoryV {
            undo_stack: h.undo_stack.push((c2, u)),
            redo_stack: h.redo_stack.drop_last(),
            update_times: cursor_fwd(h.update_times, u),
            clock: h.clock,
            project: p2,
            snapshot: h.snapshot,
        }
    }
}

/// Whether the current project matches the last saved snapshot; an empty
/// history with no snapshot counts as saved.
pub open spec fn saved_spec(h: HistoryV) -> bool {
    match h.snapshot {
        Some(ss) => ss == h.project,
        None => h.undo_stack.len() == 0 && h.redo_stack.len() == 0,
    }
}

/// Position of the revision entry for `id`, if any.
fn find_rev(entries: &Vec<(String, Revisions)>, id: &String) -> (r: Option<usize>)
    ensures
        ({
            let ev = entries@.map_values(|e: (String, Revisions)| (e.0@, e.1@));
            match r {
                Some(i) => i == rev_idx_of(ev, id@) && i < ev.len() && ev[i as int].0 == id@,
                None => rev_idx_of(ev, id@) == -1,
            }
        }),
{
    let ghost ev = entries@.map_values(|e: (String, Revisions)| (e.0@, e.1@));
    proof {
        lemma_rev_idx_of(ev, id@);
    }
    let mut i: usize = 0;
    while i < entries.len()
        invariant
            i <= entries@.len(),
            ev == entries@.map_values(|e: (String, Revisions)| (e.0@, e.1@)),
            forall|j: int| 0 <= j < i ==> ev[j].0 != id@,
            rev_idx_of(ev, id@) == -1 || {
                &&& 0 <= rev_idx_of(ev, id@) < ev.len()
                &&& ev[rev_idx_of(ev, id@)].0 == id@
                &&& forall|k: int| 0 <= k < rev_idx_of(ev, id@) ==> ev[k].0 != id@
            },
        decreases entries@.len() - i,
    {
        if entries[i].0.eq(id) {
            proof {
                assert(ev[i as int].0 == id@);
                if rev_idx_of(ev, id@) != i as int {
                    if rev_idx_of(ev, id@) == -1 {
                        lemma_rev_idx_of(ev, id@);
                        assert(false);
                    } else if rev_idx_of(ev, id@) < i as int {
                        assert(ev[rev_idx_of(ev, id@)].0 != id@);
                        assert(false);
                    } else {
                        assert(false);
                    }
                }
            }
            return Some(i);
        }
        i += 1;
    }
    proof {
        if rev_idx_of(ev, id@) != -1 {
            assert(ev[rev_idx_of(ev, id@)].0 != id@);
            assert(false);
        }
    }
    None
}

impl HistoryManager {
    /// A manager over a project with one blank line, bound to the given
    /// identifier and carrying the given initial parameters.
    pub fn new(initial_line_id: String, blank_query: Option<crate::api_schema::AudioQuery>) -> (r:
        HistoryManager)
        ensures
            r@.undo_stack.len() == 0,
            r@.redo_stack.len() == 0,
            r@.update_times.len() == 0,
            r@.clock == 0,
            r@.snapshot is None,
            r@.project.app_version == "0.11.4"@,
            r@.project.lines.len() == 1,
            r@.project.lines[0].0 == initial_line_id@,
            r@.project.lines[0].1.text == Seq::<char>::empty(),
            r@.project.lines[0].1.style_id == crate::DEFAULT_STYLE_ID,
            r@.wf(),
    {
        let item = AudioItem {
            text: String::new(),
            style_id: crate::DEFAULT_STYLE_ID,
            query: blank_query,
            preset_key: None,
        };
        let mut audio_items: Vec<(String, AudioItem)> = Vec::new();
        audio_items.push((initial_line_id, item));
        let project = VoiceVoxProject { app_version: "0.11.4".to_string(), audio_items };
        HistoryManager {
            undo_stack: Vec::new(),
            redo_stack: Vec::new(),
            update_times: Vec::new(),
            clock: 0,
            project,
            last_saved_snapshot: None,
        }
    }

    /// A manager over an existing project, with empty history.
    pub fn from_project(project: VoiceVoxProject) -> (r: HistoryManager)
        ensures
            r@.undo_stack.len() == 0,
            r@.redo_stack.len() == 0,
            r@.update_times.len() == 0,
            r@.clock == 0,
            r@.snapshot is None,
            r@.project == project@,
            project@.wf() ==> r@.wf(),
    {
        HistoryManager {
            undo_stack: Vec::new(),
            redo_stack: Vec::new(),
            update_times: Vec::new(),
            clock: 0,
            project,
            last_saved_snapshot: None,
        }
    }

    /// Executes the command on the line bound to `uuid` and records it:
    /// the redo stack is cleared, and the line's revision strictly
    /// advances.
    pub fn invoke(&mut self, command: Command, uuid: String)
        requires
            old(self)@.wf(),
            old(self)@.clock < u64::MAX,
        ensures
            final(self)@ == mgr_invoke(old(self)@, command@, uuid@),
            final(self)@.wf(),
    {
        let ghost pre: HistoryV = self@;
        let ghost c0: CommandV = command@;
        let ghost uv: Seq<char> = uuid@;
        let mut command = command;
        command.invoke(&mut self.project, &uuid);
        self.redo_stack.clear();
        let now = self.clock;
        self.clock = self.clock + 1;
        let ghost pre_times: Seq<(Seq<char>, RevisionsV)> = pre.update_times;
        proof {
            lemma_rev_idx_of(pre_times, uuid@);
        }
        match find_rev(&self.update_times, &uuid) {
            Some(i) => {
                proof {
                    assert(pre_times[i as int].1 == self.update_times@[i as int].1@);
                    assert(rev_wf(pre_times[i as int].1, pre.clock));
                }
                let entry = &mut self.update_times[i];
                proof {
                    assert((*entry).1@ == pre_times[i as int].1);
                }
                let n: usize = entry.1.times.len();
                entry.1.times.push(now);
                entry.1.cursor = entry.1.cursor + 1;
                proof {
                    assert(self@.update_times =~= tick_times(pre_times, uv, now));
                }
            },
            None => {
                let mut times: Vec<u64> = Vec::new();
                times.push(now);
                self.update_times.push((uuid.clone(), Revisions { times, cursor: 0 }));
                proof {
                    assert(self@.update_times =~= tick_times(pre_times, uv, now));
                }
            },
        }
        self.undo_stack.push((command, uuid));
        proof {
            assert(self@ =~= mgr_invoke(pre, c0, uv)) by {
                assert(self@.undo_stack =~= pre.undo_stack.push(
                    (cmd_invoke(c0, pre.project, uv).0, uv),
                ));
                assert(self@.redo_stack =~= Seq::<(CommandV, Seq<char>)>::empty());
            }
            lemma_cmd_invoke_wf(c0, pre.project, uv);
            lemma_tick_times_wf(pre_times, uv, pre.clock);
        }
    }

    /// Rolls back the newest recorded command, if any: it moves to the
    /// redo stack and the line's revision cursor steps back, floored at
    /// the oldest revision.
    pub fn undo(&mut self)
        requires
            old(self)@.wf(),
        ensures
            final(self)@ == mgr_undo(old(self)@),
            final(self)@.wf(),
    {
        let ghost pre: HistoryV = self@;
        match self.undo_stack.pop() {
            Some(entry) => {
                let (mut op, uuid) = entry;
                proof {
                    assert((op@, uuid@) == pre.undo_stack.last());
                }
                op.undo(&mut self.project, &uuid);
                proof {
                    lemma_rev_idx_of(pre.update_times, uuid@);
                }
                match find_rev(&self.update_times, &uuid) {
                    Some(i) => {
                        let entry = &mut self.update_times[i];
                        if entry.1.cursor > 0 {
                            entry.1.cursor = entry.1.cursor - 1;
                        }
                        proof {
                            assert(self@.update_times =~= cursor_back(pre.update_times, uuid@));
                        }
                    },
                    None => {
                        proof {
                            assert(self@.update_times =~= cursor_back(pre.update_times, uuid@));
                        }
                    },
                }
                self.redo_stack.push((op, uuid));
                proof {
                    assert(self@ =~= mgr_undo(pre)) by {
                        assert(self@.undo_stack =~= pre.undo_stack.drop_last());
                        assert(self@.redo_stack =~= pre.redo_stack.push(
                            (
                                cmd_undo(
                                    pre.undo_stack.last().0,
                                    pre.project,
                                    pre.undo_stack.last().1,
                                ).0,
                                pre.undo_stack.last().1,
                            ),
                        ));
                    }
                    lemma_cmd_undo_wf(pre.undo_stack.last().0, pre.project, pre.undo_stack.last().1);
                    lemma_cursor_back_wf(pre.update_times, pre.undo_stack.last().1, pre.clock);
                }
            },
            None => {
                proof {
                    assert(self@ =~= mgr_undo(pre));
                }
            },
        }
    }

    /// Runs the newest undone command again, if any: it moves back to the
    /// undo stack and the line's revision cursor steps forward, capped at
    /// the newest revision.
    pub fn redo(&mut self)
        requires
            old(self)@.wf(),
        ensures
            final(self)@ == mgr_redo(old(self)@),
            final(self)@.wf(),
    {
        let ghost pre: HistoryV = self@;
        match self.redo_stack.pop() {
            Some(entry) => {
                let (mut op, uuid) = entry;
                proof {
                    assert((op@, uuid@) == pre.redo_stack.last());
                }
                op.redo(&mut self.project, &uuid);
                proof {
                    lemma_rev_idx_of(pre.update_times, uuid@);
                }
                match find_rev(&self.update_times, &uuid) {
                    Some(i) => {
                        proof {
                            assert(pre.update_times[i as int].1 == self.update_times@[i as int].1@);
                            assert(rev_wf(pre.update_times[i as int].1, pre.clock));
                        }
                        let entry = &mut self.update_times[i];
                        proof {
                            assert((*entry).1@ == pre.update_times[i as int].1);
                        }
                        let n: usize = entry.1.times.len();
                        if entry.1.cursor + 1 < n {
                            entry.1.cursor = entry.1.cursor + 1;
                        }
                        proof {
                            assert(self@.update_times =~= cursor_fwd(pre.update_times, uuid@));
                        }
                    },
                    None => {
                        proof {
                            assert(self@.update_times =~= cursor_fwd(pre.update_times, uuid@));
                        }
                    },
                }
                self.undo_stack.push((op, uuid));
                proof {
                    assert(self@ =~= mgr_redo(pre)) by {
                        assert(self@.redo_stack =~= pre.redo_stack.drop_last());
                        assert(self@.undo_stack =~= pre.undo_stack.push(
                            (
                                cmd_invoke(
                                    pre.redo_stack.last().0,
                                    pre.project,
                                    pre.redo_stack.last().1,
                                ).0,
                                pre.redo_stack.last().1,
                            ),
                        ));
                    }
                    lemma_cmd_invoke_wf(pre.redo_stack.last().0, pre.project, pre.redo_stack.last().1);
                    lemma_cursor_fwd_wf(pre.update_times, pre.redo_stack.last().1, pre.clock);
                }
            },
            None => {
                proof {
                    assert(self@ =~= mgr_redo(pre));
                }
            },
        }
    }

    /// The stamp of the revision the line is currently at: the "as of"
    /// tag for caches and staleness checks.
    pub fn get_current_time_stamp(&self, uuid: &String) -> (r: Option<u64>)
        ensures
            r == current_rev(self@, uuid@),
    {
        match find_rev(&self.update_times, uuid) {
            Some(i) => {
                let entry = &self.update_times[i];
                if entry.1.cursor < entry.1.times.len() {
                    Some(entry.1.times[entry.1.cursor])
                } else {
                    None
                }
            },
            None => None,
        }
    }

    /// Whether both stacks are empty.
    pub fn is_empty(&self) -> (r: bool)
        ensures
            r == (self@.undo_stack.len() == 0 && self@.redo_stack.len() == 0),
    {
        self.undo_stack.is_empty() && self.redo_stack.is_empty()
    }

    /// Whether there is a command to undo.
    pub fn undoable(&self) -> (r: bool)
        ensures
            r == (self@.undo_stack.len() > 0),
    {
        !self.undo_stack.is_empty()
    }

    /// Whether there is a command to redo.
    pub fn redoable(&self) -> (r: bool)
        ensures
            r == (self@.redo_stack.len() > 0),
    {
        !self.redo_stack.is_empty()
    }

    /// Whether the project matches the last saved snapshot (an empty
    /// history with no snapshot counts as saved).
    pub fn saved(&self) -> (r: bool)
        ensures
            r == saved_spec(self@),
    {
        match &self.last_saved_snapshot {
            Some(ss) => ss.content_eq(&self.project),
            None => self.is_empty(),
        }
    }

    /// Records the current project as the saved snapshot.
    pub fn save(&mut self)
        ensures
            final(self)@ == (HistoryV { snapshot: Some(old(self)@.project), ..old(self)@ }),
    {
        self.last_saved_snapshot = Some(self.project.clone());
        proof {
            assert(self@ =~= HistoryV { snapshot: Some(old(self)@.project), ..old(self)@ });
        }
    }
}

/// Stamping a line at the clock keeps the revision table well formed
/// under the advanced clock.
proof fn lemma_tick_times_wf(entries: Seq<(Seq<char>, RevisionsV)>, u: Seq<char>, clock: u64)
    requires
        clock < u64::MAX,
        forall|a: int, b: int| 0 <= a < b < entries.len() ==> entries[a].0 != entries[b].0,
        forall|k: int| 0 <= k < entries.len() ==> rev_wf(#[trigger] entries[k].1, clock),
    ensures
        ({
            let e2 = tick_times(entries, u, clock);
            &&& forall|a: int, b: int| 0 <= a < b < e2.len() ==> e2[a].0 != e2[b].0
            &&& forall|k: int| 0 <= k < e2.len() ==> rev_wf(#[trigger] e2[k].1, (clock + 1) as u64)
        }),
{
    lemma_rev_idx_of(entries, u);
    let e2 = tick_times(entries, u, clock);
    let i = rev_idx_of(entries, u);
    if i >= 0 {
        assert forall|k: int| 0 <= k < e2.len() implies rev_wf(
            #[trigger] e2[k].1,
            (clock + 1) as u64,
        ) by {
            if k == i {
                let r = entries[i].1;
                let r2 = e2[i].1;
                assert(r2.times == r.times.push(clock));
                assert forall|a: int, b: int| 0 <= a < b < r2.times.len() implies r2.times[a]
                    < r2.times[b] by {
                    if b == r2.times.len() - 1 {
                        assert(r2.times[a] == r.times[a]);
                    }
                }
            }
        }
    } else {
        assert forall|a: int, b: int| 0 <= a < b < e2.len() implies e2[a].0 != e2[b].0 by {
            if b == e2.len() - 1 {
                assert(e2[a] == entries[a]);
            }
        }
        assert forall|k: int| 0 <= k < e2.len() implies rev_wf(
            #[trigger] e2[k].1,
            (clock + 1) as u64,
        ) by {
            if k < e2.len() - 1 {
                assert(e2[k] == entries[k]);
            }
        }
    }
}

/// Stepping a cursor back keeps the revision table well formed.
proof fn lemma_cursor_back_wf(entries: Seq<(Seq<char>, RevisionsV)>, u: Seq<char>, clock: u64)
    requires
        forall|a: int, b: int| 0 <= a < b < entries.len() ==> entries[a].0 != entries[b].0,
        forall|k: int| 0 <= k < entries.len() ==> rev_wf(#[trigger] entries[k].1, clock),
    ensures
        ({
            let e2 = cursor_back(entries, u);
            &&& forall|a: int, b: int| 0 <= a < b < e2.len() ==> e2[a].0 != e2[b].0
            &&& forall|k: int| 0 <= k < e2.len() ==> rev_wf(#[trigger] e2[k].1, clock)
        }),
{
    lemma_rev_idx_of(entries, u);
}

/// Stepping a cursor forward keeps the revision table well formed.
proof fn lemma_cursor_fwd_wf(entries: Seq<(Seq<char>, RevisionsV)>, u: Seq<char>, clock: u64)
    requires
        forall|a: int, b: int| 0 <= a < b < entries.len() ==> entries[a].0 != entries[b].0,
        forall|k: int| 0 <= k < entries.len() ==> rev_wf(#[trigger] entries[k].1, clock),
    ensures
        ({
            let e2 = cursor_fwd(entries, u);
            &&& forall|a: int, b: int| 0 <= a < b < e2.len() ==> e2[a].0 != e2[b].0
            &&& forall|k: int| 0 <= k < e2.len() ==> rev_wf(#[trigger] e2[k].1, clock)
        }),
{
    lemma_rev_idx_of(entries, u);
}

/// Two revision tables with the same keys index identically.
pub proof fn lemma_rev_idx_same_keys(
    e1: Seq<(Seq<char>, RevisionsV)>,
    e2: Seq<(Seq<char>, RevisionsV)>,
    u: Seq<char>,
)
    requires
        e1.len() == e2.len(),
        forall|k: int| 0 <= k < e1.len() ==> e1[k].0 == e2[k].0,
    ensures
        rev_idx_of(e1, u) == rev_idx_of(e2, u),
    decreases e1.len(),
{
    if e1.len() == 0 {
    } else {
        assert(e1[0].0 == e2[0].0);
        assert forall|k: int| 0 <= k < e1.skip(1).len() implies e1.skip(1)[k].0 == e2.skip(
            1,
        )[k].0 by {
            assert(e1.skip(1)[k] == e1[k + 1]);
            assert(e2.skip(1)[k] == e2[k + 1]);
        }
        lemma_rev_idx_same_keys(e1.skip(1), e2.skip(1), u);
    }
}

/// A table that does not track `u` indexes a fresh entry for `u` at its
/// end once that entry is appended.
proof fn lemma_rev_idx_push(entries: Seq<(Seq<char>, RevisionsV)>, u: Seq<char>, r: RevisionsV)
    requires
        rev_idx_of(entries, u) == -1,
    ensures
        rev_idx_of(entries.push((u, r)), u) == entries.len(),
{
    let e2 = entries.push((u, r));
    lemma_rev_idx_of(entries, u);
    lemma_rev_idx_of(e2, u);
    let j = rev_idx_of(e2, u);
    if j == -1 {
        assert(e2[entries.len() as int].0 == u);
        assert(false);
    }
    if j < entries.len() {
        assert(e2[j] == entries[j]);
        assert(entries[j].0 != u);
        assert(false);
    }
}

/// Redoing right after an `invoke` changes nothing: every `invoke` clears
/// the redo stack, so a later edit invalidates whatever had been undone.
pub proof fn lemma_redo_cleared_by_invoke(h: HistoryV, c: CommandV, u: Seq<char>)
    ensures
        mgr_redo(mgr_invoke(h, c, u)) == mgr_invoke(h, c, u),
{
}

/// The current revision of the edited line strictly increases on
/// `invoke`: an untracked line gains one, a tracked line moves to a
/// strictly larger stamp.
pub proof fn lemma_revision_increases_on_invoke(h: HistoryV, c: CommandV, u: Seq<char>)
    requires
        h.wf(),
        h.clock < u64::MAX,
    ensures
        ({
            let h2 = mgr_invoke(h, c, u);
            match (current_rev(h, u), current_rev(h2, u)) {
                (Some(r1), Some(r2)) => r1 < r2,
                (None, Some(r2)) => true,
                _ => false,
            }
        }),
{
    let h2 = mgr_invoke(h, c, u);
    let entries = h.update_times;
    let e2 = h2.update_times;
    lemma_rev_idx_of(entries, u);
    let i = rev_idx_of(entries, u);
    if i >= 0 {
        assert forall|k: int| 0 <= k < entries.len() implies entries[k].0 == e2[k].0 by {}
        lemma_rev_idx_same_keys(entries, e2, u);
        let r = entries[i].1;
        assert(rev_wf(r, h.clock));
        let r2 = e2[i].1;
        assert(r2.times == r.times.push(h.clock));
        assert(r2.cursor == r.cursor + 1);
        if r.cursor + 1 < r.times.len() {
            assert(r2.times[r2.cursor] == r.times[r.cursor + 1]);
            assert(r.times[r.cursor] < r.times[r.cursor + 1]);
        } else {
            assert(r2.times[r2.cursor] == h.clock);
            assert(r.times[r.cursor] < h.clock);
        }
    } else {
        lemma_rev_idx_push(entries, u, RevisionsV { times: seq![h.clock], cursor: 0 });
        assert(e2[entries.len() as int].1.times[0] == h.clock);
    }
}

/// Undoing the newest command steps the edited line's revision strictly
/// back, unless the line is already at its oldest revision, where the
/// cursor is floored and the revision stays put.
pub proof fn lemma_revision_decreases_on_undo(h: HistoryV)
    requires
        h.wf(),
        h.undo_stack.len() > 0,
    ensures
        ({
            let u = h.undo_stack.last().1;
            let h2 = mgr_undo(h);
            let i = rev_idx_of(h.update_times, u);
            &&& i >= 0 && h.update_times[i].1.cursor > 0 ==> match (
                current_rev(h, u),
                current_rev(h2, u),
            ) {
                (Some(r1), Some(r2)) => r2 < r1,
                _ => false,
            }
            &&& i >= 0 && h.update_times[i].1.cursor == 0 ==> current_rev(h2, u) == current_rev(
                h,
                u,
            )
            &&& i < 0 ==> current_rev(h2, u) == current_rev(h, u)
        }),
{
    let u = h.undo_stack.last().1;
    let h2 = mgr_undo(h);
    let entries = h.update_times;
    let e2 = h2.update_times;
    lemma_rev_idx_of(entries, u);
    let i = rev_idx_of(entries, u);
    if i >= 0 {
        let r = entries[i].1;
        assert(rev_wf(r, h.clock));
        if r.cursor > 0 {
            assert forall|k: int| 0 <= k < entries.len() implies entries[k].0 == e2[k].0 by {}
            lemma_rev_idx_same_keys(entries, e2, u);
            assert(e2[i].1.times[r.cursor - 1] < r.times[r.cursor]);
        }
    }
}

/// Redoing right after an `undo` restores the edited line's revision
/// exactly, provided the line was not already at its oldest revision
/// when it was undone.
pub proof fn lemma_redo_restores_revision(h: HistoryV)
    requires
        h.wf(),
        h.undo_stack.len() > 0,
        ({
            let u = h.undo_stack.last().1;
            let i = rev_idx_of(h.update_times, u);
            i >= 0 && h.update_times[i].1.cursor > 0
        }),
    ensures
        ({
            let u = h.undo_stack.last().1;
            current_rev(mgr_redo(mgr_undo(h)), u) == current_rev(h, u)
        }),
{
    let u = h.undo_stack.last().1;
    let h1 = mgr_undo(h);
    let h2 = mgr_redo(h1);
    let entries = h.update_times;
    lemma_rev_idx_of(entries, u);
    let i = rev_idx_of(entries, u);
    let r = entries[i].1;
    assert(rev_wf(r, h.clock));
    assert forall|k: int| 0 <= k < entries.len() implies entries[k].0 == h1.update_times[k].0 by {}
    lemma_rev_idx_same_keys(entries, h1.update_times, u);
    assert(h1.redo_stack.last().1 == u);
    assert(h1.update_times[i].1.cursor == r.cursor - 1);
    assert forall|k: int|
        0 <= k < entries.len() implies h1.update_times[k].0 == h2.update_times[k].0 by {}
    lemma_rev_idx_same_keys(h1.update_times, h2.update_times, u);
    assert(h2.update_times[i].1 =~= r);
}

/// The staleness check: a job dispatched at the line's current revision
/// can never match again once any further command is invoked on that
/// line, so its late result is detected and discarded.
pub proof fn lemma_invoke_outdates_captured_revision(h: HistoryV, c: CommandV, u: Seq<char>)
    requires
        h.wf(),
        h.clock < u64::MAX,
    ensures
        current_rev(mgr_invoke(h, c, u), u) != current_rev(h, u),
{
    lemma_revision_increases_on_invoke(h, c, u);
}

} // verus!
