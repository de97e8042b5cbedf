//! Correlation of asynchronous recomputation jobs with the edit history.
//!
//! Background work (parameter regeneration, audio rendering) runs outside
//! the scheduling loop and reports back through one-shot channels. This
//! module holds the verified bookkeeping: the per-line job states, the
//! transition applied on each non-blocking poll, and the staleness rule —
//! an audio result is keyed by the revision stamp it was rendered at, and
//! is never surfaced once the line has moved to another revision. The
//! caller performs the actual channel receive and hands the observed
//! outcome in as a plain value.

use crate::api_schema::{AudioQuery, AudioQueryV};
use crate::commands::{AudioQueryCommands, AudioQueryCommandsV, Command, CommandV};
use crate::history::{current_rev, mgr_invoke, HistoryManager};
use vstd::prelude::*;

verus! {

/// The lifecycle of one parameter-regeneration request for a line.
pub enum AudioQueryState {
    /// Dispatched and not yet answered; carries the text the parameters
    /// are being computed for.
    WaitingForQuery(String),
    /// No request in flight.
    NoJob,
    /// Answered; terminal until drained by the scheduling loop.
    Finished(String, AudioQuery),
    /// The request failed; never retried automatically.
    Failed,
}

/// Mathematical image of an [`AudioQueryState`].
#[verifier::ext_equal]
pub ghost enum AudioQueryStateV {
    WaitingForQuery(Seq<char>),
    NoJob,
    Finished(Seq<char>, AudioQueryV),
    Failed,
}

impl View for AudioQueryState {
    type V = AudioQueryStateV;

    open spec fn view(&self) -> AudioQueryStateV {
        match self {
            AudioQueryState::WaitingForQuery(text) => AudioQueryStateV::WaitingForQuery(text@),
            AudioQueryState::NoJob => AudioQueryStateV::NoJob,
            AudioQueryState::Finished(text, aq) => AudioQueryStateV::Finished(text@, aq@),
            AudioQueryState::Failed => AudioQueryStateV::Failed,
        }
    }
}

/// What one non-blocking poll of a pending parameter request observed.
pub enum QueryPoll {
    /// No result yet; the job stays pending and is polled again next
    /// tick.
    NotReady,
    /// The engine answered with fresh parameters.
    Delivered(AudioQuery),
    /// The engine failed or the channel closed.
    Failed,
}

/// Mathematical image of a [`QueryPoll`].
#[verifier::ext_equal]
pub ghost enum QueryPollV {
    NotReady,
    Delivered(AudioQueryV),
    Failed,
}

impl View for QueryPoll {
    type V = QueryPollV;

    open spec fn view(&self) -> QueryPollV {
        match self {
            QueryPoll::NotReady => QueryPollV::NotReady,
            QueryPoll::Delivered(aq) => QueryPollV::Delivered(aq@),
            QueryPoll::Failed => QueryPollV::Failed,
        }
    }
}

/// The poll transition: a pending job finishes or fails according to the
/// observed outcome and stays pending otherwise; every other state is
/// unchanged (finished and failed jobs are terminal until drained).
pub open spec fn query_poll_step(s: AudioQueryStateV, o: QueryPollV) -> AudioQueryStateV {
    match s {
        AudioQueryStateV::WaitingForQuery(text) => match o {
            QueryPollV::NotReady => s,
            QueryPollV::Delivered(aq) => AudioQueryStateV::Finished(text, aq),
            QueryPollV::Failed => AudioQueryStateV::Failed,
        },
        _ => s,
    }
}

impl AudioQueryState {
    /// Applies one observed poll outcome to this job.
    pub fn poll(&mut self, outcome: QueryPoll)
        ensures
            final(self)@ == query_poll_step(old(self)@, outcome@),
    {
        match self {
            AudioQueryState::WaitingForQuery(text) => {
                match outcome {
                    QueryPoll::NotReady => {},
                    QueryPoll::Delivered(aq) => {
                        let t = text.clone();
                        *self = AudioQueryState::Finished(t, aq);
                    },
                    QueryPoll::Failed => {
                        *self = AudioQueryState::Failed;
                    },
                }
            },
            _ => {},
        }
    }

    /// Drains a finished job: hands out the text and parameters and
    /// resets the slot; every other state is left as it is.
    pub fn take_finished(&mut self) -> (r: Option<(String, AudioQuery)>)
        ensures
            match old(self)@ {
                AudioQueryStateV::Finished(text, aq) => {
                    &&& final(self)@ == AudioQueryStateV::NoJob
                    &&& match r {
                        Some(pair) => pair.0@ == text && pair.1@ == aq,
                        None => false,
                    }
                },
                _ => final(self)@ == old(self)@ && r is None,
            },
    {
        let mut taken = AudioQueryState::NoJob;
        core::mem::swap(self, &mut taken);
        match taken {
            AudioQueryState::Finished(text, aq) => Some((text, aq)),
            other => {
                *self = other;
                None
            },
        }
    }
}

/// Builds the update command for a finished parameter job and feeds it
/// through the history manager — the only path by which a job result
/// becomes visible state, so every remote-derived change is undoable.
pub fn apply_finished_query(
    histories: &mut HistoryManager,
    uuid: String,
    new_text: String,
    prev_text: String,
    aq: &AudioQuery,
)
    requires
        old(histories)@.wf(),
        old(histories)@.clock < u64::MAX,
    ensures
        final(histories)@ == mgr_invoke(
            old(histories)@,
            CommandV::AudioQuery(
                AudioQueryCommandsV::UpdateAccentPhrases {
                    new_text: new_text@,
                    prev_text: prev_text@,
                    accent_phrases: aq@.accent_phrases,
                },
            ),
            uuid@,
        ),
        final(histories)@.wf(),
{
    let accent_phrases = crate::api_schema::clone_accent_phrases(&aq.accent_phrases);
    let command = Command::AudioQuery(
        AudioQueryCommands::UpdateAccentPhrases { new_text, prev_text, accent_phrases },
    );
    histories.invoke(command, uuid);
}

/// Reconciles a finished parameter job with the history: when the line
/// still exists, the result becomes an update command fed through the
/// history manager; a result for a line the user has deleted is
/// discarded without touching the history — no stack entry, no revision.
/// Returns whether the result was applied.
pub fn reconcile_finished_query(
    histories: &mut HistoryManager,
    uuid: String,
    new_text: String,
    prev_text: String,
    aq: &AudioQuery,
) -> (applied: bool)
    requires
        old(histories)@.wf(),
        old(histories)@.clock < u64::MAX,
    ensures
        old(histories)@.project.contains_id(uuid@) ==> applied && final(histories)@
            == mgr_invoke(
            old(histories)@,
            CommandV::AudioQuery(
                AudioQueryCommandsV::UpdateAccentPhrases {
                    new_text: new_text@,
                    prev_text: prev_text@,
                    accent_phrases: aq@.accent_phrases,
                },
            ),
            uuid@,
        ),
        !old(histories)@.project.contains_id(uuid@) ==> !applied && final(histories)@ == old(
            histories,
        )@,
        final(histories)@.wf(),
{
    if histories.project.contains_key(&uuid) {
        apply_finished_query(histories, uuid, new_text, prev_text, aq);
        true
    } else {
        false
    }
}

/// Whether a job's captured revision stamp no longer matches the line's
/// current revision: a stale result must be discarded without touching
/// the history.
pub fn is_stale(captured: u64, histories: &HistoryManager, uuid: &String) -> (r: bool)
    ensures
        r == (current_rev(histories@, uuid@) != Some(captured)),
{
    match histories.get_current_time_stamp(uuid) {
        Some(t) => t != captured,
        None => true,
    }
}

/// The lifecycle of one audio-rendering request.
pub enum SynthesisState {
    /// Dispatched and not yet answered.
    WaitingForSynthesis,
    /// Rendered audio, as a wav file.
    Finished(Vec<u8>),
    /// The request failed; never retried automatically.
    Failed,
}

/// Mathematical image of a [`SynthesisState`].
#[verifier::ext_equal]
pub ghost enum SynthesisStateV {
    WaitingForSynthesis,
    Finished(Seq<u8>),
    Failed,
}

impl View for SynthesisState {
    type V = SynthesisStateV;

    open spec fn view(&self) -> SynthesisStateV {
        match self {
            SynthesisState::WaitingForSynthesis => SynthesisStateV::WaitingForSynthesis,
            SynthesisState::Finished(wav) => SynthesisStateV::Finished(wav@),
            SynthesisState::Failed => SynthesisStateV::Failed,
        }
    }
}

/// What one non-blocking poll of a pending render observed.
pub enum SynthesisPoll {
    NotReady,
    Delivered(Vec<u8>),
    Failed,
}

/// Mathematical image of a [`SynthesisPoll`].
#[verifier::ext_equal]
pub ghost enum SynthesisPollV {
    NotReady,
    Delivered(Seq<u8>),
    Failed,
}

impl View for SynthesisPoll {
    type V = SynthesisPollV;

    open spec fn view(&self) -> SynthesisPollV {
        match self {
            SynthesisPoll::NotReady => SynthesisPollV::NotReady,
            SynthesisPoll::Delivered(wav) => SynthesisPollV::Delivered(wav@),
            SynthesisPoll::Failed => SynthesisPollV::Failed,
        }
    }
}

/// The poll transition for renders; finished and failed renders are
/// terminal.
pub open spec fn synthesis_poll_step(s: SynthesisStateV, o: SynthesisPollV) -> SynthesisStateV {
    match s {
        SynthesisStateV::WaitingForSynthesis => match o {
            SynthesisPollV::NotReady => s,
            SynthesisPollV::Delivered(wav) => SynthesisStateV::Finished(wav),
            SynthesisPollV::Failed => SynthesisStateV::Failed,
        },
        _ => s,
    }
}

impl SynthesisState {
    /// Applies one observed poll outcome to this render.
    pub fn poll(&mut self, outcome: SynthesisPoll)
        ensures
            final(self)@ == synthesis_poll_step(old(self)@, outcome@),
    {
        match self {
            SynthesisState::WaitingForSynthesis => {
                match outcome {
                    SynthesisPoll::NotReady => {},
                    SynthesisPoll::Delivered(wav) => {
                        *self = SynthesisState::Finished(wav);
                    },
                    SynthesisPoll::Failed => {
                        *self = SynthesisState::Failed;
                    },
                }
            },
            _ => {},
        }
    }
}

/// Index of the cache entry for line `u` at revision `t`, or -1.
pub open spec fn cache_idx_of(
    entries: Seq<((Seq<char>, u64), SynthesisStateV)>,
    u: Seq<char>,
    t: u64,
) -> int
    decreases entries.len(),
{
    if entries.len() == 0 {
        -1
    } else if entries[0].0 == (u, t) {
        0
    } else {
        let r = cache_idx_of(entries.skip(1), u, t);
        if r < 0 {
            -1
        } else {
            r + 1
        }
    }
}

/// What `cache_idx_of` finds.
pub proof fn lemma_cache_idx_of(
    entries: Seq<((Seq<char>, u64), SynthesisStateV)>,
    u: Seq<char>,
    t: u64,
)
    ensures
        cache_idx_of(entries, u, t) == -1 ==> forall|k: int|
            0 <= k < entries.len() ==> entries[k].0 != (u, t),
        cache_idx_of(entries, u, t) != -1 ==> {
            &&& 0 <= cache_idx_of(entries, u, t) < entries.len()
            &&& entries[cache_idx_of(entries, u, t)].0 == (u, t)
            &&& forall|k: int| 0 <= k < cache_idx_of(entries, u, t) ==> entries[k].0 != (u, t)
        },
    decreases entries.len(),
{
    if entries.len() == 0 {
    } else if entries[0].0 == (u, t) {
    } else {
        lemma_cache_idx_of(entries.skip(1), u, t);
        let r = cache_idx_of(entries.skip(1), u, t);
        if r >= 0 {
            assert(entries[r + 1] == entries.skip(1)[r]);
            assert forall|k: int| 0 <= k < r + 1 implies entries[k].0 != (u, t) by {
                if k > 0 {
                    assert(entries.skip(1)[k - 1] == entries[k]);
                }
            }
        } else {
            assert forall|k: int| 0 <= k < entries.len() implies entries[k].0 != (u, t) by {
                if k > 0 {
                    assert(entries.skip(1)[k - 1] == entries[k]);
                }
            }
        }
    }
}

/// The render cache: one entry per (line identifier, revision stamp).
/// Because audio depends on the exact parameter revision, a stale entry
/// is simply never looked up again once the line's revision moves on.
pub struct SynthesisCache {
    pub entries: Vec<((String, u64), SynthesisState)>,
}

impl View for SynthesisCache {
    type V = Seq<((Seq<char>, u64), SynthesisStateV)>;

    open spec fn view(&self) -> Seq<((Seq<char>, u64), SynthesisStateV)> {
        self.entries@.map_values(|e: ((String, u64), SynthesisState)| ((e.0.0@, e.0.1), e.1@))
    }
}

impl SynthesisCache {
    /// An empty cache.
    pub fn new() -> (r: SynthesisCache)
        ensures
            r@ == Seq::<((Seq<char>, u64), SynthesisStateV)>::empty(),
    {
        SynthesisCache { entries: Vec::new() }
    }

    /// Position of the entry for line `uuid` at revision `stamp`.
    fn find(&self, uuid: &String, stamp: u64) -> (r: Option<usize>)
        ensures
            match r {
                Some(i) => i == cache_idx_of(self@, uuid@, stamp) && i < self@.len()
                    && self@[i as int].0 == (uuid@, stamp),
                None => cache_idx_of(self@, uuid@, stamp) == -1,
            },
    {
        let ghost ev = self@;
        proof {
            lemma_cache_idx_of(ev, uuid@, stamp);
        }
        let mut i: usize = 0;
        while i < self.entries.len()
            invariant
                i <= self.entries@.len(),
                ev == self@,
                forall|j: int| 0 <= j < i ==> ev[j].0 != (uuid@, stamp),
                cache_idx_of(ev, uuid@, stamp) == -1 || {
                    &&& 0 <= cache_idx_of(ev, uuid@, stamp) < ev.len()
                    &&& ev[cache_idx_of(ev, uuid@, stamp)].0 == (uuid@, stamp)
                    &&& forall|k: int|
                        0 <= k < cache_idx_of(ev, uuid@, stamp) ==> ev[k].0 != (uuid@, stamp)
                },
            decreases self.entries@.len() - i,
        {
            let entry = &self.entries[i];
            if entry.0.0.eq(uuid) && entry.0.1 == stamp {
                proof {
                    assert(ev[i as int].0 == (uuid@, stamp));
                    if cache_idx_of(ev, uuid@, stamp) != i as int {
                        if cache_idx_of(ev, uuid@, stamp) == -1 {
                            lemma_cache_idx_of(ev, uuid@, stamp);
                            assert(false);
                        } else if cache_idx_of(ev, uuid@, stamp) < i as int {
                            assert(ev[cache_idx_of(ev, uuid@, stamp)].0 != (uuid@, stamp));
                            assert(false);
                        } else {
                            assert(false);
                        }
                    }
                }
                return Some(i);
            }
            i += 1;
        }
        proof {
            if cache_idx_of(ev, uuid@, stamp) != -1 {
                assert(ev[cache_idx_of(ev, uuid@, stamp)].0 != (uuid@, stamp));
                assert(false);
            }
        }
        None
    }

    /// Registers a render request for line `uuid` at revision `stamp`.
    /// Returns whether a request must actually be dispatched: nothing is
    /// sent when an entry for that exact revision already exists.
    pub fn dispatch(&mut self, uuid: String, stamp: u64) -> (dispatched: bool)
        ensures
            ({
                let i = cache_idx_of(old(self)@, uuid@, stamp);
                if i < 0 {
                    dispatched && final(self)@ == old(self)@.push(
                        ((uuid@, stamp), SynthesisStateV::WaitingForSynthesis),
                    )
                } else {
                    !dispatched && final(self)@ == old(self)@
                }
            }),
    {
        let ghost pre = self@;
        let ghost uv: Seq<char> = uuid@;
        match self.find(&uuid, stamp) {
            Some(_) => false,
            None => {
                self.entries.push(((uuid, stamp), SynthesisState::WaitingForSynthesis));
                proof {
                    assert(self@ =~= pre.push(((uv, stamp), SynthesisStateV::WaitingForSynthesis)));
                }
                true
            },
        }
    }

    /// Applies one observed poll outcome to the entry for line `uuid` at
    /// revision `stamp`; a no-op when there is no such entry.
    pub fn poll_at(&mut self, uuid: &String, stamp: u64, outcome: SynthesisPoll)
        ensures
            ({
                let i = cache_idx_of(old(self)@, uuid@, stamp);
                if i >= 0 {
                    final(self)@ == old(self)@.update(
                        i,
                        (
                            (uuid@, stamp),
                            synthesis_poll_step(old(self)@[i].1, outcome@),
                        ),
                    )
                } else {
                    final(self)@ == old(self)@
                }
            }),
    {
        let ghost pre = self@;
        match self.find(uuid, stamp) {
            Some(i) => {
                let entry = &mut self.entries[i];
                entry.1.poll(outcome);
                proof {
                    assert(self@ =~= pre.update(
                        i as int,
                        ((uuid@, stamp), synthesis_poll_step(pre[i as int].1, outcome@)),
                    ));
                }
            },
            None => {},
        }
    }

    /// The rendered audio for line `uuid` at its *current* revision, if
    /// that exact render has finished. A render cached under any other
    /// revision stamp — in particular one that was in flight when the
    /// line was edited again — is never returned.
    pub fn fresh_audio<'a>(&'a self, histories: &HistoryManager, uuid: &String) -> (r: Option<
        &'a Vec<u8>,
    >)
        ensures
            match current_rev(histories@, uuid@) {
                Some(t) => {
                    let i = cache_idx_of(self@, uuid@, t);
                    match r {
                        Some(wav) => i >= 0 && self@[i].1 == SynthesisStateV::Finished(wav@),
                        None => i < 0 || !(self@[i].1 is Finished),
                    }
                },
                None => r is None,
            },
    {
        match histories.get_current_time_stamp(uuid) {
            Some(t) => {
                match self.find(uuid, t) {
                    Some(i) => {
                        match &self.entries[i].1 {
                            SynthesisState::Finished(wav) => Some(wav),
                            _ => None,
                        }
                    },
                    None => None,
                }
            },
            None => None,
        }
    }
}

} // verus!
