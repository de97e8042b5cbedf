//! The entity store: an ordered list of line identifiers, each bound to a
//! text line with its speaker style and optional synthesis parameters.
//!
//! Identifiers are opaque strings, generated once and never reused. The
//! store keeps one entry per identifier, in insertion order; every
//! accessor reports absence instead of failing, so callers can treat a
//! missing line as a silent no-op.

use crate::api_schema::{AudioQuery, AudioQueryV};
use vstd::prelude::*;

verus! {

/// One line of the project: its text, the speaker style it is bound to,
/// its synthesis parameters (once computed) and an optional preset.
pub struct AudioItem {
    pub text: String,
    pub style_id: i32,
    pub query: Option<AudioQuery>,
    pub preset_key: Option<String>,
}

/// Mathematical image of an [`AudioItem`].
#[verifier::ext_equal]
pub ghost struct AudioItemV {
    pub text: Seq<char>,
    pub style_id: i32,
    pub query: Option<AudioQueryV>,
    pub preset_key: Option<Seq<char>>,
}

impl View for AudioItem {
    type V = AudioItemV;

    open spec fn view(&self) -> AudioItemV {
        AudioItemV {
            text: self.text@,
            style_id: self.style_id,
            query: match self.query {
                Some(ref q) => Some(q@),
                None => None,
            },
            preset_key: match self.preset_key {
                Some(ref k) => Some(k@),
                None => None,
            },
        }
    }
}

impl AudioItemV {
    /// The line's parameters, if any, carry well-formed accent positions.
    pub open spec fn accents_wf(self) -> bool {
        match self.query {
            Some(q) => crate::api_schema::phrases_accents_wf(q.accent_phrases),
            None => true,
        }
    }
}

impl Clone for AudioItem {
    fn clone(&self) -> (r: AudioItem)
        ensures
            r@ == self@,
    {
        let r = AudioItem {
            text: self.text.clone(),
            style_id: self.style_id,
            query: match self.query {
                Some(ref q) => Some(q.clone()),
                None => None,
            },
            preset_key: match self.preset_key {
                Some(ref k) => Some(k.clone()),
                None => None,
            },
        };
        proof {
            assert(r@ =~= self@);
        }
        r
    }
}

impl AudioItem {
    /// Deep equality on lines.
    pub fn content_eq(&self, other: &AudioItem) -> (r: bool)
        ensures
            r == (self@ == other@),
    {
        if !(self.text == other.text && self.style_id == other.style_id) {
            proof {
                assert(self@ != other@);
            }
            return false;
        }
        let preset_eq = match (&self.preset_key, &other.preset_key) {
            (Some(a), Some(b)) => a.eq(b),
            (None, None) => true,
            _ => false,
        };
        if !preset_eq {
            proof {
                assert(self@ != other@);
            }
            return false;
        }
        let query_eq = match (&self.query, &other.query) {
            (Some(a), Some(b)) => a.content_eq(b),
            (None, None) => true,
            _ => false,
        };
        proof {
            if query_eq {
                assert(self@ =~= other@);
            } else {
                assert(self@ != other@);
            }
        }
        query_eq
    }
}

/// The project: the ordered lines of text to synthesize.
pub struct VoiceVoxProject {
    pub app_version: String,
    pub audio_items: Vec<(String, AudioItem)>,
}

/// Mathematical image of a [`VoiceVoxProject`]: the ordered sequence of
/// (identifier, line) pairs.
#[verifier::ext_equal]
pub ghost struct ProjectV {
    pub app_version: Seq<char>,
    pub lines: Seq<(Seq<char>, AudioItemV)>,
}

impl View for VoiceVoxProject {
    type V = ProjectV;

    open spec fn view(&self) -> ProjectV {
        ProjectV {
            app_version: self.app_version@,
            lines: self.audio_items@.map_values(|l: (String, AudioItem)| (l.0@, l.1@)),
        }
    }
}

/// Index of the first line bound to `id`, or -1 when there is none.
pub open spec fn idx_of_lines(lines: Seq<(Seq<char>, AudioItemV)>, id: Seq<char>) -> int
    decreases lines.len(),
{
    if lines.len() == 0 {
        -1
    } else if lines[0].0 == id {
        0
    } else {
        let r = idx_of_lines(lines.skip(1), id);
        if r < 0 {
            -1
        } else {
            r + 1
        }
    }
}

/// What `idx_of_lines` finds: either the first line bound to `id`, or a
/// witness that no line is.
pub proof fn lemma_idx_of_lines(lines: Seq<(Seq<char>, AudioItemV)>, id: Seq<char>)
    ensures
        idx_of_lines(lines, id) == -1 ==> forall|k: int| 0 <= k < lines.len() ==> lines[k].0 != id,
        idx_of_lines(lines, id) != -1 ==> {
            &&& 0 <= idx_of_lines(lines, id) < lines.len()
            &&& lines[idx_of_lines(lines, id)].0 == id
            &&& forall|k: int| 0 <= k < idx_of_lines(lines, id) ==> lines[k].0 != id
        },
    decreases lines.len(),
{
    if lines.len() == 0 {
    } else if lines[0].0 == id {
    } else {
        lemma_idx_of_lines(lines.skip(1), id);
        let r = idx_of_lines(lines.skip(1), id);
        if r >= 0 {
            assert(lines[r + 1] == lines.skip(1)[r]);
            assert forall|k: int| 0 <= k < r + 1 implies lines[k].0 != id by {
                if k > 0 {
                    assert(lines.skip(1)[k - 1] == lines[k]);
                }
            }
        } else {
            assert forall|k: int| 0 <= k < lines.len() implies lines[k].0 != id by {
                if k > 0 {
                    assert(lines.skip(1)[k - 1] == lines[k]);
                }
            }
        }
    }
}

impl ProjectV {
    /// The identifiers, in order.
    pub open spec fn keys(self) -> Seq<Seq<char>> {
        self.lines.map_values(|l: (Seq<char>, AudioItemV)| l.0)
    }

    /// Each identifier is bound at most once.
    pub open spec fn wf(self) -> bool {
        forall|i: int, j: int|
            0 <= i < j < self.lines.len() ==> self.lines[i].0 != self.lines[j].0
    }

    /// Index of the line bound to `id`, or -1.
    pub open spec fn idx_of(self, id: Seq<char>) -> int {
        idx_of_lines(self.lines, id)
    }

    /// Whether some line is bound to `id`.
    pub open spec fn contains_id(self, id: Seq<char>) -> bool {
        self.idx_of(id) >= 0
    }

    /// The line bound to `id`; meaningful only when `contains_id`.
    pub open spec fn item_of(self, id: Seq<char>) -> AudioItemV {
        self.lines[self.idx_of(id)].1
    }

    /// The data-model invariant on synthesis parameters: every line's
    /// accent positions point at moras of their phrases.
    pub open spec fn accents_wf(self) -> bool {
        forall|k: int| 0 <= k < self.lines.len() ==> (#[trigger] self.lines[k].1).accents_wf()
    }
}

impl Clone for VoiceVoxProject {
    fn clone(&self) -> (r: VoiceVoxProject)
        ensures
            r@ == self@,
    {
        let mut lines: Vec<(String, AudioItem)> = Vec::new();
        let mut i: usize = 0;
        while i < self.audio_items.len()
            invariant
                i <= self.audio_items@.len(),
                lines@.len() == i,
                forall|j: int|
                    0 <= j < i ==> (lines@[j].0@, lines@[j].1@) == (
                        self.audio_items@[j].0@,
                        self.audio_items@[j].1@,
                    ),
            decreases self.audio_items@.len() - i,
        {
            let entry = &self.audio_items[i];
            lines.push((entry.0.clone(), entry.1.clone()));
            i += 1;
        }
        let r = VoiceVoxProject { app_version: self.app_version.clone(), audio_items: lines };
        proof {
            assert(r@ =~= self@);
        }
        r
    }
}

impl VoiceVoxProject {
    /// A project with no lines.
    pub fn empty(app_version: String) -> (r: VoiceVoxProject)
        ensures
            r@.app_version == app_version@,
            r@.lines == Seq::<(Seq<char>, AudioItemV)>::empty(),
            r@.wf(),
    {
        VoiceVoxProject { app_version, audio_items: Vec::new() }
    }

    /// Position of the line bound to `id`, if any: the first match, which
    /// under well-formedness is the only one.
    pub fn find_index(&self, id: &String) -> (r: Option<usize>)
        ensures
            match r {
                Some(i) => i == self@.idx_of(id@) && i < self@.lines.len()
                    && self@.lines[i as int].0 == id@,
                None => self@.idx_of(id@) == -1,
            },
    {
        proof {
            lemma_idx_of_lines(self@.lines, id@);
        }
        let mut i: usize = 0;
        while i < self.audio_items.len()
            invariant
                i <= self.audio_items@.len(),
                forall|j: int| 0 <= j < i ==> self@.lines[j].0 != id@,
                idx_of_lines(self@.lines, id@) == -1 || {
                    &&& 0 <= self@.idx_of(id@) < self@.lines.len()
                    &&& self@.lines[self@.idx_of(id@)].0 == id@
                    &&& forall|k: int| 0 <= k < self@.idx_of(id@) ==> self@.lines[k].0 != id@
                },
            decreases self.audio_items@.len() - i,
        {
            if self.audio_items[i].0.eq(id) {
                proof {
                    assert(self@.lines[i as int].0 == id@);
                    if self@.idx_of(id@) != i as int {
                        if self@.idx_of(id@) == -1 {
                            lemma_idx_of_lines(self@.lines, id@);
                            assert(false);
                        } else if self@.idx_of(id@) < i as int {
                            assert(self@.lines[self@.idx_of(id@)].0 != id@);
                            assert(false);
                        } else {
                            assert(self@.lines[i as int].0 != id@);
                            assert(false);
                        }
                    }
                }
                return Some(i);
            }
            i += 1;
        }
        proof {
            if self@.idx_of(id@) != -1 {
                assert(self@.lines[self@.idx_of(id@)].0 != id@);
                assert(false);
            }
        }
        None
    }

    /// Whether a line is bound to `id`.
    pub fn contains_key(&self, id: &String) -> (r: bool)
        ensures
            r == self@.contains_id(id@),
    {
        match self.find_index(id) {
            Some(_) => true,
            None => false,
        }
    }

    /// The line bound to `id`, read-only; `None` when there is none.
    pub fn get(&self, id: &String) -> (r: Option<&AudioItem>)
        ensures
            match r {
                Some(item) => self@.contains_id(id@) && item@ == self@.item_of(id@),
                None => !self@.contains_id(id@),
            },
    {
        match self.find_index(id) {
            Some(i) => Some(&self.audio_items[i].1),
            None => None,
        }
    }

    /// Mutable access to the line at position `i`.
    pub fn item_at_mut(&mut self, i: usize) -> (r: &mut AudioItem)
        requires
            i < old(self)@.lines.len(),
        ensures
            *r == old(self).audio_items@[i as int].1,
            final(self).audio_items@ == old(self).audio_items@.update(
                i as int,
                (old(self).audio_items@[i as int].0, *final(r)),
            ),
            final(self).app_version == old(self).app_version,
    {
        &mut self.audio_items[i].1
    }

    /// Binds `id` to `item`: overwrites the line when `id` is already
    /// bound, appends a new line otherwise. Well-formedness is preserved.
    pub fn insert(&mut self, id: String, item: AudioItem)
        ensures
            final(self)@.app_version == old(self)@.app_version,
            old(self)@.contains_id(id@) ==> final(self)@.lines == old(self)@.lines.update(
                old(self)@.idx_of(id@),
                (id@, item@),
            ),
            !old(self)@.contains_id(id@) ==> final(self)@.lines == old(self)@.lines.push(
                (id@, item@),
            ),
            old(self)@.wf() ==> final(self)@.wf(),
    {
        proof {
            lemma_idx_of_lines(self@.lines, id@);
        }
        let ghost pre: ProjectV = self@;
        match self.find_index(&id) {
            Some(i) => {
                let slot = self.item_at_mut(i);
                *slot = item;
                proof {
                    assert(self@.lines =~= pre.lines.update(pre.idx_of(id@), (id@, item@)));
                    if pre.wf() {
                        assert forall|a: int, b: int|
                            0 <= a < b < self@.lines.len() implies self@.lines[a].0
                            != self@.lines[b].0 by {
                            assert(self@.lines[a].0 == pre.lines[a].0);
                            assert(self@.lines[b].0 == pre.lines[b].0);
                        }
                    }
                }
            },
            None => {
                self.audio_items.push((id, item));
                proof {
                    assert(self@.lines =~= pre.lines.push((id@, item@)));
                    if pre.wf() {
                        lemma_idx_of_lines(pre.lines, id@);
                        assert forall|a: int, b: int|
                            0 <= a < b < self@.lines.len() implies self@.lines[a].0
                            != self@.lines[b].0 by {
                            if b == self@.lines.len() - 1 {
                                assert(pre.lines[a].0 != id@);
                            }
                        }
                    }
                }
            },
        }
    }

    /// Unbinds `id`, returning its line; `None` (and no change) when `id`
    /// is not bound. Order of the remaining lines is preserved.
    pub fn remove(&mut self, id: &String) -> (r: Option<AudioItem>)
        ensures
            final(self)@.app_version == old(self)@.app_version,
            match r {
                Some(item) => old(self)@.contains_id(id@) && item@ == old(self)@.item_of(id@)
                    && final(self)@.lines == old(self)@.lines.remove(old(self)@.idx_of(id@)),
                None => !old(self)@.contains_id(id@) && final(self)@ == old(self)@,
            },
            old(self)@.wf() ==> final(self)@.wf(),
    {
        let ghost pre: ProjectV = self@;
        match self.find_index(id) {
            Some(i) => {
                let (_, item) = self.audio_items.remove(i);
                proof {
                    assert(self@.lines =~= pre.lines.remove(pre.idx_of(id@)));
                    if pre.wf() {
                        assert forall|a: int, b: int|
                            0 <= a < b < self@.lines.len() implies self@.lines[a].0
                            != self@.lines[b].0 by {
                            let ia: int = if a < i { a } else { a + 1 };
                            let ib: int = if b < i { b } else { b + 1 };
                            assert(self@.lines[a] == pre.lines[ia]);
                            assert(self@.lines[b] == pre.lines[ib]);
                        }
                    }
                }
                Some(item)
            },
            None => None,
        }
    }

    /// The line bound to `id`, for mutation in place; `None` when there
    /// is none. Only the line's content can change through the returned
    /// reference; the identifiers and their order stay as they are.
    pub fn get_mut(&mut self, id: &String) -> (r: Option<&mut AudioItem>)
        ensures
            match r {
                Some(item) => {
                    &&& old(self)@.contains_id(id@)
                    &&& *item == old(self).audio_items@[old(self)@.idx_of(id@)].1
                    &&& final(self).audio_items@ == old(self).audio_items@.update(
                        old(self)@.idx_of(id@),
                        (
                            old(self).audio_items@[old(self)@.idx_of(id@)].0,
                            *final(item),
                        ),
                    )
                    &&& final(self).app_version == old(self).app_version
                },
                None => !old(self)@.contains_id(id@) && final(self)@ == old(self)@,
            },
    {
        match self.find_index(id) {
            Some(i) => Some(self.item_at_mut(i)),
            None => None,
        }
    }

    /// The identifiers, in order: the project's `line_order`.
    pub fn audio_keys(&self) -> (r: Vec<String>)
        ensures
            r@.map_values(|s: String| s@) == self@.keys(),
    {
        let mut out: Vec<String> = Vec::new();
        let mut i: usize = 0;
        while i < self.audio_items.len()
            invariant
                i <= self.audio_items@.len(),
                out@.len() == i,
                forall|j: int| 0 <= j < i ==> out@[j]@ == self@.lines[j].0,
            decreases self.audio_items@.len() - i,
        {
            out.push(self.audio_items[i].0.clone());
            i += 1;
        }
        proof {
            assert(out@.map_values(|s: String| s@) =~= self@.keys());
        }
        out
    }

    /// How many lines the project holds.
    pub fn len(&self) -> (r: usize)
        ensures
            r == self@.lines.len(),
    {
        self.audio_items.len()
    }

    /// Deep equality on projects.
    pub fn content_eq(&self, other: &VoiceVoxProject) -> (r: bool)
        ensures
            r == (self@ == other@),
    {
        if !(self.app_version == other.app_version) {
            proof {
                assert(self@ != other@);
            }
            return false;
        }
        if self.audio_items.len() != other.audio_items.len() {
            proof {
                assert(self@.lines.len() != other@.lines.len());
            }
            return false;
        }
        let mut i: usize = 0;
        while i < self.audio_items.len()
            invariant
                i <= self.audio_items@.len(),
                self.audio_items@.len() == other.audio_items@.len(),
                forall|j: int| 0 <= j < i ==> self@.lines[j] == other@.lines[j],
            decreases self.audio_items@.len() - i,
        {
            let a = &self.audio_items[i];
            let b = &other.audio_items[i];
            if !(a.0.eq(&b.0) && a.1.content_eq(&b.1)) {
                proof {
                    assert(self@.lines[i as int] != other@.lines[i as int]);
                }
                return false;
            }
            proof {
                assert(self@.lines[i as int] =~= other@.lines[i as int]);
            }
            i += 1;
        }
        proof {
            assert(self@ =~= other@);
        }
        true
    }
}

/// A command payload recording a text replacement on one line: the
/// identifier, the text being replaced and the text to install.
pub struct UpdateTextCommand {
    pub uuid: String,
    pub prev_text: String,
    pub new_text: String,
}

impl UpdateTextCommand {
    /// A fresh text replacement; the previous text starts out empty and is
    /// captured when the command is applied.
    pub fn new(uuid: String, new_text: String) -> (r: UpdateTextCommand)
        ensures
            r.uuid@ == uuid@,
            r.new_text@ == new_text@,
            r.prev_text@ == Seq::<char>::empty(),
    {
        UpdateTextCommand { uuid, prev_text: String::new(), new_text }
    }
}

/// Playback status of one line.
pub struct AudioState {
    pub now_playing: bool,
    pub now_generating: bool,
}

} // verus!
