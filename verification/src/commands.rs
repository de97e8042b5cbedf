//! The reversible edit commands. Each command is a tagged value holding a
//! signed delta or the captured previous state, with two symmetric
//! transforms, `invoke` and `undo`, over the project and a target line
//! identifier.
//!
//! Commands are total: a command aimed at a missing line, or at indices
//! that no longer exist, degrades to a no-op instead of failing. Both
//! transforms are specified exactly by spec-level transition functions on
//! the project image, and the involution laws are proved from those.

use crate::api_schema::{accent_wf, phrases_accents_wf, AccentPhrase, AccentPhraseV, AudioQueryV, Mora, MoraV};
use crate::chara_change_button::{CharaChangeCommand, CharaChangeCommandV};
use crate::project::{idx_of_lines, AudioItem, AudioItemV, ProjectV, VoiceVoxProject};
use vstd::prelude::*;

verus! {

/// Edits of whole lines: removal, insertion, and installing freshly
/// computed accent phrases together with the text that produced them.
pub enum AudioQueryCommands {
    /// Removal; captures the removed line and its position when applied.
    Remove(usize, Option<AudioItem>),
    /// Insertion of a line under a fresh identifier.
    Insert(AudioItem),
    /// Text replacement plus an exchange of the accent-phrase sequence:
    /// applying it swaps the stored sequence with the line's, so the same
    /// swap undoes it.
    UpdateAccentPhrases {
        new_text: String,
        prev_text: String,
        accent_phrases: Vec<AccentPhrase>,
    },
}

/// Mathematical image of an [`AudioQueryCommands`].
#[verifier::ext_equal]
pub ghost enum AudioQueryCommandsV {
    Remove { pos: int, saved: Option<AudioItemV> },
    Insert { item: AudioItemV },
    UpdateAccentPhrases {
        new_text: Seq<char>,
        prev_text: Seq<char>,
        accent_phrases: Seq<AccentPhraseV>,
    },
}

impl View for AudioQueryCommands {
    type V = AudioQueryCommandsV;

    open spec fn view(&self) -> AudioQueryCommandsV {
        match self {
            AudioQueryCommands::Remove(pos, saved) => AudioQueryCommandsV::Remove {
                pos: *pos as int,
                saved: match saved {
                    Some(item) => Some(item@),
                    None => None,
                },
            },
            AudioQueryCommands::Insert(item) => AudioQueryCommandsV::Insert { item: item@ },
            AudioQueryCommands::UpdateAccentPhrases { new_text, prev_text, accent_phrases } => {
                AudioQueryCommandsV::UpdateAccentPhrases {
                    new_text: new_text@,
                    prev_text: prev_text@,
                    accent_phrases: accent_phrases@.map_values(|p: AccentPhrase| p@),
                }
            },
        }
    }
}

/// The project with the line at position `i` replaced by `item`.
pub open spec fn with_item(p: ProjectV, i: int, item: AudioItemV) -> ProjectV {
    ProjectV { app_version: p.app_version, lines: p.lines.update(i, (p.lines[i].0, item)) }
}

/// One text-and-phrases exchange: installs `text` as the line's text and
/// swaps the command's phrase sequence with the line's, when the line has
/// parameters.
pub open spec fn uap_apply(
    new_text: Seq<char>,
    prev_text: Seq<char>,
    phrases: Seq<AccentPhraseV>,
    text: Seq<char>,
    p: ProjectV,
    u: Seq<char>,
) -> (AudioQueryCommandsV, ProjectV) {
    let c = AudioQueryCommandsV::UpdateAccentPhrases {
        new_text,
        prev_text,
        accent_phrases: phrases,
    };
    let i = p.idx_of(u);
    if i >= 0 {
        let item = p.lines[i].1;
        match item.query {
            Some(q) => {
                let c2 = AudioQueryCommandsV::UpdateAccentPhrases {
                    new_text,
                    prev_text,
                    accent_phrases: q.accent_phrases,
                };
                let q2 = AudioQueryV { accent_phrases: phrases, ..q };
                let item2 = AudioItemV { text, query: Some(q2), ..item };
                (c2, with_item(p, i, item2))
            },
            None => {
                let item2 = AudioItemV { text, ..item };
                (c, with_item(p, i, item2))
            },
        }
    } else {
        (c, p)
    }
}

/// What applying an [`AudioQueryCommands`] does.
pub open spec fn aqc_invoke(c: AudioQueryCommandsV, p: ProjectV, u: Seq<char>) -> (
    AudioQueryCommandsV,
    ProjectV,
) {
    match c {
        AudioQueryCommandsV::Remove { pos, saved } => {
            let i = p.idx_of(u);
            if i >= 0 {
                let c2 = AudioQueryCommandsV::Remove { pos: i, saved: Some(p.lines[i].1) };
                let p2 = ProjectV { app_version: p.app_version, lines: p.lines.remove(i) };
                (c2, p2)
            } else {
                (c, p)
            }
        },
        AudioQueryCommandsV::Insert { item } => {
            let i = p.idx_of(u);
            if i >= 0 {
                (c, with_item(p, i, item))
            } else {
                (c, ProjectV { app_version: p.app_version, lines: p.lines.push((u, item)) })
            }
        },
        AudioQueryCommandsV::UpdateAccentPhrases { new_text, prev_text, accent_phrases } => {
            uap_apply(new_text, prev_text, accent_phrases, new_text, p, u)
        },
    }
}

/// What undoing an [`AudioQueryCommands`] does. A removal is undone only
/// where its captured state still applies (the position exists and the
/// identifier is free); an insertion is undone only where the inserted
/// identifier is still the last line. Both conditions always hold right
/// after the matching `invoke`, and keep the store well-formed otherwise.
pub open spec fn aqc_undo(c: AudioQueryCommandsV, p: ProjectV, u: Seq<char>) -> (
    AudioQueryCommandsV,
    ProjectV,
) {
    match c {
        AudioQueryCommandsV::Remove { pos, saved } => {
            match saved {
                Some(item) => {
                    if 0 <= pos <= p.lines.len() && p.idx_of(u) < 0 {
                        let c2 = AudioQueryCommandsV::Remove { pos, saved: None };
                        let p2 = ProjectV {
                            app_version: p.app_version,
                            lines: p.lines.insert(pos, (u, item)),
                        };
                        (c2, p2)
                    } else {
                        (c, p)
                    }
                },
                None => (c, p),
            }
        },
        AudioQueryCommandsV::Insert { item } => {
            if p.lines.len() > 0 && p.lines.last().0 == u {
                (c, ProjectV { app_version: p.app_version, lines: p.lines.drop_last() })
            } else {
                (c, p)
            }
        },
        AudioQueryCommandsV::UpdateAccentPhrases { new_text, prev_text, accent_phrases } => {
            uap_apply(new_text, prev_text, accent_phrases, prev_text, p, u)
        },
    }
}

impl AudioQueryCommands {
    /// Applies the command to the line bound to `uuid`; a no-op when no
    /// line is.
    pub fn invoke(&mut self, project: &mut VoiceVoxProject, uuid: &String)
        ensures
            final(self)@ == aqc_invoke(old(self)@, old(project)@, uuid@).0,
            final(project)@ == aqc_invoke(old(self)@, old(project)@, uuid@).1,
    {
        let ghost pre: ProjectV = project@;
        match self {
            AudioQueryCommands::Remove(pos_save, save) => {
                match project.find_index(uuid) {
                    Some(i) => {
                        let (_, item) = project.audio_items.remove(i);
                        *pos_save = i;
                        *save = Some(item);
                        proof {
                            assert(project@.lines =~= pre.lines.remove(pre.idx_of(uuid@)));
                            assert(project@ =~= aqc_invoke(old(self)@, pre, uuid@).1);
                        }
                    },
                    None => {},
                }
            },
            AudioQueryCommands::Insert(value) => {
                let item = value.clone();
                project.insert(uuid.clone(), item);
                proof {
                    crate::project::lemma_idx_of_lines(pre.lines, uuid@);
                    assert(project@ =~= aqc_invoke(old(self)@, pre, uuid@).1);
                }
            },
            AudioQueryCommands::UpdateAccentPhrases { new_text, prev_text: _, accent_phrases } => {
                let text = new_text.clone();
                match project.find_index(uuid) {
                    Some(i) => {
                        let item = project.item_at_mut(i);
                        item.text = text;
                        match &mut item.query {
                            Some(q) => {
                                core::mem::swap(&mut q.accent_phrases, accent_phrases);
                            },
                            None => {},
                        }
                        proof {
                            assert(project@ =~= aqc_invoke(old(self)@, pre, uuid@).1);
                        }
                    },
                    None => {},
                }
            },
        }
        proof {
            assert(self@ =~= aqc_invoke(old(self)@, pre, uuid@).0);
        }
    }

    /// Rolls the command back; the inverse of `invoke` on the state that
    /// `invoke` produced.
    pub fn undo(&mut self, project: &mut VoiceVoxProject, uuid: &String)
        ensures
            final(self)@ == aqc_undo(old(self)@, old(project)@, uuid@).0,
            final(project)@ == aqc_undo(old(self)@, old(project)@, uuid@).1,
    {
        let ghost pre: ProjectV = project@;
        match self {
            AudioQueryCommands::Remove(pos_save, save) => {
                let pos: usize = *pos_save;
                let mut do_insert = false;
                if save.is_some() && pos <= project.audio_items.len() {
                    if !project.contains_key(uuid) {
                        do_insert = true;
                    }
                }
                if do_insert {
                    let item = save.take().unwrap();
                    project.audio_items.insert(pos, (uuid.clone(), item));
                    proof {
                        assert(project@.lines =~= pre.lines.insert(
                            pos as int,
                            (uuid@, old(self)@->Remove_saved->0),
                        ));
                        assert(project@ =~= aqc_undo(old(self)@, pre, uuid@).1);
                    }
                }
            },
            AudioQueryCommands::Insert(_) => {
                let n = project.audio_items.len();
                let mut is_last = false;
                if n > 0 {
                    if project.audio_items[n - 1].0.eq(uuid) {
                        is_last = true;
                    }
                }
                if is_last {
                    project.audio_items.pop();
                    proof {
                        assert(project@.lines =~= pre.lines.drop_last());
                        assert(project@ =~= aqc_undo(old(self)@, pre, uuid@).1);
                    }
                }
            },
            AudioQueryCommands::UpdateAccentPhrases { new_text: _, prev_text, accent_phrases } => {
                let text = prev_text.clone();
                match project.find_index(uuid) {
                    Some(i) => {
                        let item = project.item_at_mut(i);
                        item.text = text;
                        match &mut item.query {
                            Some(q) => {
                                core::mem::swap(&mut q.accent_phrases, accent_phrases);
                            },
                            None => {},
                        }
                        proof {
                            assert(project@ =~= aqc_undo(old(self)@, pre, uuid@).1);
                        }
                    },
                    None => {},
                }
            },
        }
        proof {
            assert(self@ =~= aqc_undo(old(self)@, pre, uuid@).0);
        }
    }

    /// The operation's display name.
    pub fn op_name(&self) -> (r: &'static str)
        ensures
            match self {
                AudioQueryCommands::Remove(..) => r@ == "行削除"@,
                AudioQueryCommands::Insert(..) => r@ == "行挿入"@,
                AudioQueryCommands::UpdateAccentPhrases { .. } => r@ == "テキスト/波形変更"@,
            },
    {
        match self {
            AudioQueryCommands::Remove(..) => "行削除",
            AudioQueryCommands::Insert(..) => "行挿入",
            AudioQueryCommands::UpdateAccentPhrases { .. } => "テキスト/波形変更",
        }
    }
}

/// Edits of the accent-phrase structure and mora-level parameters of one
/// line, from the bottom editing pane. Structural edits capture whatever
/// they discard, so their undos restore the phrases exactly, and every
/// edit keeps each accent position pointing at one of its phrase's moras.
pub enum BottomPaneCommand {
    /// Merge the accent phrase after `accent_phrase` into it. Applying
    /// it captures the left phrase's mora count in `length` and the
    /// right phrase's accent, pause mora and interrogative flag in
    /// `saved`, where `undo` splits again and rebuilds the right phrase
    /// exactly.
    Concat { accent_phrase: usize, length: usize, saved: Option<PhraseAttributes> },
    /// Split the accent phrase at mora index `mora`. The left half keeps
    /// its accent where that still points at one of its moras and falls
    /// back to the first mora otherwise; the right half starts accented
    /// on its first mora. Applying it captures the whole phrase's accent
    /// in `saved_accent`, where `undo` restores it.
    Split { accent_phrase: usize, mora: usize, saved_accent: Option<i32> },
    /// Move the accent position of one phrase; a position outside the
    /// phrase's moras is refused as a no-op, in either direction.
    AccentPhrase { accent_phrase: usize, new_accent: i32, prev_accent: i32 },
    /// Shift the pitch of one mora by a signed delta.
    Pitch { accent_phrase: usize, mora: usize, pitch_diff: i64 },
    /// Shift the vowel and/or consonant length of one mora by signed
    /// deltas.
    VowelAndConsonant {
        accent_phrase: usize,
        mora: usize,
        vowel_diff: Option<i64>,
        consonant_diff: Option<i64>,
    },
}

/// What a merge discards of the right phrase — its accent, pause mora
/// and interrogative flag — captured when the command runs so that its
/// undo can rebuild the phrase exactly.
pub struct PhraseAttributes {
    pub accent: i32,
    pub pause_mora: Option<Mora>,
    pub is_interrogative: Option<bool>,
}

/// Mathematical image of a [`PhraseAttributes`].
#[verifier::ext_equal]
pub ghost struct PhraseAttributesV {
    pub accent: i32,
    pub pause_mora: Option<MoraV>,
    pub is_interrogative: Option<bool>,
}

impl View for PhraseAttributes {
    type V = PhraseAttributesV;

    open spec fn view(&self) -> PhraseAttributesV {
        PhraseAttributesV {
            accent: self.accent,
            pause_mora: match self.pause_mora {
                Some(ref m) => Some(m@),
                None => None,
            },
            is_interrogative: self.is_interrogative,
        }
    }
}

/// Mathematical image of a [`BottomPaneCommand`].
#[verifier::ext_equal]
pub ghost enum BottomPaneCommandV {
    Concat { accent_phrase: int, length: int, saved: Option<PhraseAttributesV> },
    Split { accent_phrase: int, mora: int, saved_accent: Option<i32> },
    AccentPhrase { accent_phrase: int, new_accent: i32, prev_accent: i32 },
    Pitch { accent_phrase: int, mora: int, pitch_diff: i64 },
    VowelAndConsonant {
        accent_phrase: int,
        mora: int,
        vowel_diff: Option<i64>,
        consonant_diff: Option<i64>,
    },
}

impl View for BottomPaneCommand {
    type V = BottomPaneCommandV;

    open spec fn view(&self) -> BottomPaneCommandV {
        match self {
            BottomPaneCommand::Concat { accent_phrase, length, saved } => {
                BottomPaneCommandV::Concat {
                    accent_phrase: *accent_phrase as int,
                    length: *length as int,
                    saved: match saved {
                        Some(at) => Some(at@),
                        None => None,
                    },
                }
            },
            BottomPaneCommand::Split { accent_phrase, mora, saved_accent } => {
                BottomPaneCommandV::Split {
                    accent_phrase: *accent_phrase as int,
                    mora: *mora as int,
                    saved_accent: *saved_accent,
                }
            },
            BottomPaneCommand::AccentPhrase { accent_phrase, new_accent, prev_accent } => {
                BottomPaneCommandV::AccentPhrase {
                    accent_phrase: *accent_phrase as int,
                    new_accent: *new_accent,
                    prev_accent: *prev_accent,
                }
            },
            BottomPaneCommand::Pitch { accent_phrase, mora, pitch_diff } => {
                BottomPaneCommandV::Pitch {
                    accent_phrase: *accent_phrase as int,
                    mora: *mora as int,
                    pitch_diff: *pitch_diff,
                }
            },
            BottomPaneCommand::VowelAndConsonant { accent_phrase, mora, vowel_diff, consonant_diff } => {
                BottomPaneCommandV::VowelAndConsonant {
                    accent_phrase: *accent_phrase as int,
                    mora: *mora as int,
                    vowel_diff: *vowel_diff,
                    consonant_diff: *consonant_diff,
                }
            },
        }
    }
}

/// The project with the parameters of line `i` replaced by `q`.
pub open spec fn with_query(p: ProjectV, i: int, q: AudioQueryV) -> ProjectV {
    let item = p.lines[i].1;
    with_item(p, i, AudioItemV { query: Some(q), ..item })
}

/// The attributes a merge discards of the right phrase: everything but
/// its moras.
pub open spec fn attrs_of(p: AccentPhraseV) -> PhraseAttributesV {
    PhraseAttributesV {
        accent: p.accent,
        pause_mora: p.pause_mora,
        is_interrogative: p.is_interrogative,
    }
}

/// Accent phrase `i` merged with its right neighbour: the neighbour's
/// moras are appended and the neighbour removed. The left phrase's
/// accent, pause and flag carry over — still well formed, since the
/// phrase only grew — and the neighbour's are dropped (the command
/// captures them for its undo).
pub open spec fn concat_phrases(aps: Seq<AccentPhraseV>, i: int) -> Seq<AccentPhraseV> {
    aps.update(i, AccentPhraseV { moras: aps[i].moras + aps[i + 1].moras, ..aps[i] }).remove(i + 1)
}

/// The same merge with the merged phrase's accent set to `accent`: the
/// undo of a split restores the accent the split had adjusted.
pub open spec fn concat_phrases_with_accent(
    aps: Seq<AccentPhraseV>,
    i: int,
    accent: i32,
) -> Seq<AccentPhraseV> {
    aps.update(
        i,
        AccentPhraseV { moras: aps[i].moras + aps[i + 1].moras, accent, ..aps[i] },
    ).remove(i + 1)
}

/// The accent the left half keeps after being cut down to its first `m`
/// moras: its own where that still points at one of them, the first mora
/// otherwise — well formed either way.
pub open spec fn split_left_accent(accent: i32, m: int) -> i32 {
    if 1 <= accent && accent <= m {
        accent
    } else {
        1
    }
}

/// Accent phrase `i` split at mora index `m`, the right half given the
/// attributes `at`: the left keeps the first `m` moras, its pause and
/// flag, and a well-formed accent; the right takes the remaining moras
/// and `at`.
pub open spec fn split_phrase_with(
    aps: Seq<AccentPhraseV>,
    i: int,
    m: int,
    at: PhraseAttributesV,
) -> Seq<AccentPhraseV> {
    aps.update(
        i,
        AccentPhraseV {
            moras: aps[i].moras.take(m),
            accent: split_left_accent(aps[i].accent, m),
            ..aps[i]
        },
    ).insert(
        i + 1,
        AccentPhraseV {
            moras: aps[i].moras.skip(m),
            accent: at.accent,
            pause_mora: at.pause_mora,
            is_interrogative: at.is_interrogative,
        },
    )
}

/// A fresh split: the right half starts accented on its first mora, with
/// no pause mora or interrogative flag.
pub open spec fn split_phrase(aps: Seq<AccentPhraseV>, i: int, m: int) -> Seq<AccentPhraseV> {
    split_phrase_with(
        aps,
        i,
        m,
        PhraseAttributesV { accent: 1, pause_mora: None, is_interrogative: None },
    )
}

/// What applying a [`BottomPaneCommand`] does to the accent phrases of
/// the target line's parameters: the command after capture, and the
/// edited phrases — `None` where the edit is out of range (the command
/// degrades to a no-op there). An accent move whose new position lies
/// outside the phrase's moras is refused, keeping every accent position
/// well formed.
pub open spec fn bpc_invoke_phrases(c: BottomPaneCommandV, aps: Seq<AccentPhraseV>) -> (
    BottomPaneCommandV,
    Option<Seq<AccentPhraseV>>,
) {
    match c {
        BottomPaneCommandV::Concat { accent_phrase, length, saved } => {
            if 0 <= accent_phrase && accent_phrase + 1 < aps.len() {
                let c2 = BottomPaneCommandV::Concat {
                    accent_phrase,
                    length: aps[accent_phrase].moras.len() as int,
                    saved: Some(attrs_of(aps[accent_phrase + 1])),
                };
                (c2, Some(concat_phrases(aps, accent_phrase)))
            } else {
                (c, None)
            }
        },
        BottomPaneCommandV::Split { accent_phrase, mora, saved_accent } => {
            if 0 <= accent_phrase < aps.len() && 0 < mora < aps[accent_phrase].moras.len() {
                let c2 = BottomPaneCommandV::Split {
                    accent_phrase,
                    mora,
                    saved_accent: Some(aps[accent_phrase].accent),
                };
                (c2, Some(split_phrase(aps, accent_phrase, mora)))
            } else {
                (c, None)
            }
        },
        BottomPaneCommandV::AccentPhrase { accent_phrase, new_accent, prev_accent } => {
            if 0 <= accent_phrase < aps.len() && 1 <= new_accent && new_accent
                <= aps[accent_phrase].moras.len() {
                (
                    c,
                    Some(
                        aps.update(
                            accent_phrase,
                            AccentPhraseV { accent: new_accent, ..aps[accent_phrase] },
                        ),
                    ),
                )
            } else {
                (c, None)
            }
        },
        BottomPaneCommandV::Pitch { accent_phrase, mora, pitch_diff } => {
            if 0 <= accent_phrase < aps.len() && 0 <= mora < aps[accent_phrase].moras.len() {
                let ph = aps[accent_phrase];
                let mo = ph.moras[mora];
                let mo2 = MoraV { pitch: mo.pitch.wrapping_add(pitch_diff), ..mo };
                (
                    c,
                    Some(
                        aps.update(
                            accent_phrase,
                            AccentPhraseV { moras: ph.moras.update(mora, mo2), ..ph },
                        ),
                    ),
                )
            } else {
                (c, None)
            }
        },
        BottomPaneCommandV::VowelAndConsonant { accent_phrase, mora, vowel_diff, consonant_diff } => {
            if 0 <= accent_phrase < aps.len() && 0 <= mora < aps[accent_phrase].moras.len() {
                let ph = aps[accent_phrase];
                let mo = ph.moras[mora];
                let mo2 = MoraV {
                    vowel_length: match vowel_diff {
                        Some(d) => mo.vowel_length.wrapping_add(d),
                        None => mo.vowel_length,
                    },
                    consonant_length: match (mo.consonant_length, consonant_diff) {
                        (Some(cl), Some(d)) => Some(cl.wrapping_add(d)),
                        _ => mo.consonant_length,
                    },
                    ..mo
                };
                (
                    c,
                    Some(
                        aps.update(
                            accent_phrase,
                            AccentPhraseV { moras: ph.moras.update(mora, mo2), ..ph },
                        ),
                    ),
                )
            } else {
                (c, None)
            }
        },
    }
}

/// What undoing a [`BottomPaneCommand`] does to the accent phrases. A
/// structural undo acts only where its captured state still applies —
/// which always holds right after the matching `invoke` — and clears the
/// capture; `redo` then captures afresh.
pub open spec fn bpc_undo_phrases(c: BottomPaneCommandV, aps: Seq<AccentPhraseV>) -> (
    BottomPaneCommandV,
    Option<Seq<AccentPhraseV>>,
) {
    match c {
        BottomPaneCommandV::Concat { accent_phrase, length, saved } => {
            match saved {
                Some(at) => {
                    if 0 <= accent_phrase < aps.len() && 1 <= length
                        && aps[accent_phrase].accent <= length && 1 <= at.accent && length
                        + at.accent <= aps[accent_phrase].moras.len() {
                        let c2 = BottomPaneCommandV::Concat { accent_phrase, length, saved: None };
                        (c2, Some(split_phrase_with(aps, accent_phrase, length, at)))
                    } else {
                        (c, None)
                    }
                },
                None => (c, None),
            }
        },
        BottomPaneCommandV::Split { accent_phrase, mora, saved_accent } => {
            match saved_accent {
                Some(a) => {
                    if 0 <= accent_phrase && accent_phrase + 1 < aps.len() && 1 <= a && a
                        <= aps[accent_phrase].moras.len() + aps[accent_phrase + 1].moras.len() {
                        let c2 = BottomPaneCommandV::Split {
                            accent_phrase,
                            mora,
                            saved_accent: None,
                        };
                        (c2, Some(concat_phrases_with_accent(aps, accent_phrase, a)))
                    } else {
                        (c, None)
                    }
                },
                None => (c, None),
            }
        },
        BottomPaneCommandV::AccentPhrase { accent_phrase, new_accent, prev_accent } => {
            if 0 <= accent_phrase < aps.len() && 1 <= prev_accent && prev_accent
                <= aps[accent_phrase].moras.len() {
                (
                    c,
                    Some(
                        aps.update(
                            accent_phrase,
                            AccentPhraseV { accent: prev_accent, ..aps[accent_phrase] },
                        ),
                    ),
                )
            } else {
                (c, None)
            }
        },
        BottomPaneCommandV::Pitch { accent_phrase, mora, pitch_diff } => {
            if 0 <= accent_phrase < aps.len() && 0 <= mora < aps[accent_phrase].moras.len() {
                let ph = aps[accent_phrase];
                let mo = ph.moras[mora];
                let mo2 = MoraV { pitch: mo.pitch.wrapping_sub(pitch_diff), ..mo };
                (
                    c,
                    Some(
                        aps.update(
                            accent_phrase,
                            AccentPhraseV { moras: ph.moras.update(mora, mo2), ..ph },
                        ),
                    ),
                )
            } else {
                (c, None)
            }
        },
        BottomPaneCommandV::VowelAndConsonant { accent_phrase, mora, vowel_diff, consonant_diff } => {
            if 0 <= accent_phrase < aps.len() && 0 <= mora < aps[accent_phrase].moras.len() {
                let ph = aps[accent_phrase];
                let mo = ph.moras[mora];
                let mo2 = MoraV {
                    vowel_length: match vowel_diff {
                        Some(d) => mo.vowel_length.wrapping_sub(d),
                        None => mo.vowel_length,
                    },
                    consonant_length: match (mo.consonant_length, consonant_diff) {
                        (Some(cl), Some(d)) => Some(cl.wrapping_sub(d)),
                        _ => mo.consonant_length,
                    },
                    ..mo
                };
                (
                    c,
                    Some(
                        aps.update(
                            accent_phrase,
                            AccentPhraseV { moras: ph.moras.update(mora, mo2), ..ph },
                        ),
                    ),
                )
            } else {
                (c, None)
            }
        },
    }
}

/// Lifts a phrase-level result to the whole project: the line's phrases
/// are replaced where the edit applies, and nothing changes where the
/// line is missing, has no parameters, or the edit is out of range.
pub open spec fn lift_phrase_edit(
    r: Option<Seq<AccentPhraseV>>,
    p: ProjectV,
    u: Seq<char>,
) -> ProjectV {
    let i = p.idx_of(u);
    if i >= 0 {
        match p.lines[i].1.query {
            Some(q) => match r {
                Some(aps2) => with_query(p, i, AudioQueryV { accent_phrases: aps2, ..q }),
                None => p,
            },
            None => p,
        }
    } else {
        p
    }
}

/// The edited phrases where the edit applies, the original ones where it
/// does not.
pub open spec fn applied_or_kept(
    r: Option<Seq<AccentPhraseV>>,
    aps: Seq<AccentPhraseV>,
) -> Seq<AccentPhraseV> {
    match r {
        Some(s) => s,
        None => aps,
    }
}

/// What applying a [`BottomPaneCommand`] does: the command after
/// capture, and the project after the edit.
pub open spec fn bpc_invoke(c: BottomPaneCommandV, p: ProjectV, u: Seq<char>) -> (
    BottomPaneCommandV,
    ProjectV,
) {
    let i = p.idx_of(u);
    if i >= 0 {
        match p.lines[i].1.query {
            Some(q) => {
                let (c2, r) = bpc_invoke_phrases(c, q.accent_phrases);
                (c2, lift_phrase_edit(r, p, u))
            },
            None => (c, p),
        }
    } else {
        (c, p)
    }
}

/// What undoing a [`BottomPaneCommand`] does.
pub open spec fn bpc_undo(c: BottomPaneCommandV, p: ProjectV, u: Seq<char>) -> (
    BottomPaneCommandV,
    ProjectV,
) {
    let i = p.idx_of(u);
    if i >= 0 {
        match p.lines[i].1.query {
            Some(q) => {
                let (c2, r) = bpc_undo_phrases(c, q.accent_phrases);
                (c2, lift_phrase_edit(r, p, u))
            },
            None => (c, p),
        }
    } else {
        (c, p)
    }
}

impl BottomPaneCommand {
    /// Applies the edit to one phrase sequence, capturing what it
    /// discards; a no-op where the edit is out of range.
    fn invoke_phrases(&mut self, aps: &mut Vec<AccentPhrase>)
        ensures
            final(self)@ == bpc_invoke_phrases(
                old(self)@,
                old(aps)@.map_values(|p: AccentPhrase| p@),
            ).0,
            final(aps)@.map_values(|p: AccentPhrase| p@) == applied_or_kept(
                bpc_invoke_phrases(old(self)@, old(aps)@.map_values(|p: AccentPhrase| p@)).1,
                old(aps)@.map_values(|p: AccentPhrase| p@),
            ),
    {
        let ghost oldv: Seq<AccentPhraseV> = aps@.map_values(|p: AccentPhrase| p@);
        match self {
            BottomPaneCommand::Concat { accent_phrase, length, saved } => {
                let ap: usize = *accent_phrase;
                if aps.len() >= 2 && ap < aps.len() - 1 {
                    let left_len: usize = aps[ap].moras.len();
                    let right = aps.remove(ap + 1);
                    let AccentPhrase {
                        moras: mut right_moras,
                        accent: right_accent,
                        pause_mora: right_pause,
                        is_interrogative: right_flag,
                    } = right;
                    let left = &mut aps[ap];
                    left.moras.append(&mut right_moras);
                    *length = left_len;
                    *saved = Some(
                        PhraseAttributes {
                            accent: right_accent,
                            pause_mora: right_pause,
                            is_interrogative: right_flag,
                        },
                    );
                    proof {
                        assert(final(left)@.moras =~= oldv[ap as int].moras + oldv[ap
                            + 1].moras);
                        assert(aps@.map_values(|p: AccentPhrase| p@) =~= concat_phrases(
                            oldv,
                            ap as int,
                        ));
                        assert(self@ =~~= bpc_invoke_phrases(old(self)@, oldv).0);
                    }
                }
            },
            BottomPaneCommand::Split { accent_phrase, mora, saved_accent } => {
                let ap: usize = *accent_phrase;
                let m: usize = *mora;
                if ap < aps.len() {
                    let plen = aps[ap].moras.len();
                    if 0 < m && m < plen {
                        let prev: i32 = aps[ap].accent;
                        let phrase = &mut aps[ap];
                        let tail = phrase.moras.split_off(m);
                        if !(phrase.accent >= 1 && (phrase.accent as usize) <= m) {
                            phrase.accent = 1;
                        }
                        proof {
                            assert(final(phrase)@.moras =~= oldv[ap as int].moras.take(m as int));
                            assert(final(phrase).accent == split_left_accent(
                                oldv[ap as int].accent,
                                m as int,
                            ));
                            assert(tail@.map_values(|mo: Mora| mo@) =~= oldv[ap as int].moras.skip(
                                m as int,
                            ));
                        }
                        let new_phrase = AccentPhrase {
                            moras: tail,
                            accent: 1,
                            pause_mora: None,
                            is_interrogative: None,
                        };
                        aps.insert(ap + 1, new_phrase);
                        *saved_accent = Some(prev);
                        proof {
                            assert(aps@.map_values(|p: AccentPhrase| p@) =~~= split_phrase(
                                oldv,
                                ap as int,
                                m as int,
                            ));
                            assert(self@ =~~= bpc_invoke_phrases(old(self)@, oldv).0);
                        }
                    }
                }
            },
            BottomPaneCommand::AccentPhrase { accent_phrase, new_accent, prev_accent: _ } => {
                let ap: usize = *accent_phrase;
                let na: i32 = *new_accent;
                if ap < aps.len() {
                    let phrase = &mut aps[ap];
                    if na >= 1 && (na as usize) <= phrase.moras.len() {
                        phrase.accent = na;
                    }
                    proof {
                        assert(aps@.map_values(|p: AccentPhrase| p@) =~~= applied_or_kept(
                            bpc_invoke_phrases(self@, oldv).1,
                            oldv,
                        ));
                    }
                }
            },
            BottomPaneCommand::Pitch { accent_phrase, mora, pitch_diff } => {
                let ap: usize = *accent_phrase;
                let m: usize = *mora;
                let d: i64 = *pitch_diff;
                if ap < aps.len() {
                    let phrase = &mut aps[ap];
                    if m < phrase.moras.len() {
                        let mo = &mut phrase.moras[m];
                        mo.pitch = mo.pitch.wrapping_add(d);
                        proof {
                            assert(aps@.map_values(|p: AccentPhrase| p@) =~~= applied_or_kept(
                                bpc_invoke_phrases(self@, oldv).1,
                                oldv,
                            ));
                        }
                    }
                }
            },
            BottomPaneCommand::VowelAndConsonant { accent_phrase, mora, vowel_diff, consonant_diff } => {
                let ap: usize = *accent_phrase;
                let m: usize = *mora;
                let vd: Option<i64> = *vowel_diff;
                let cd: Option<i64> = *consonant_diff;
                if ap < aps.len() {
                    let phrase = &mut aps[ap];
                    if m < phrase.moras.len() {
                        let mo = &mut phrase.moras[m];
                        match vd {
                            Some(d) => {
                                mo.vowel_length = mo.vowel_length.wrapping_add(d);
                            },
                            None => {},
                        }
                        match cd {
                            Some(d) => {
                                match mo.consonant_length {
                                    Some(cl) => {
                                        mo.consonant_length = Some(cl.wrapping_add(d));
                                    },
                                    None => {},
                                }
                            },
                            None => {},
                        }
                        proof {
                            assert(aps@.map_values(|p: AccentPhrase| p@) =~~= applied_or_kept(
                                bpc_invoke_phrases(self@, oldv).1,
                                oldv,
                            ));
                        }
                    }
                }
            },
        }
    }

    /// Rolls the edit back on one phrase sequence, where its captured
    /// state still applies, and clears the capture.
    fn undo_phrases(&mut self, aps: &mut Vec<AccentPhrase>)
        ensures
            final(self)@ == bpc_undo_phrases(
                old(self)@,
                old(aps)@.map_values(|p: AccentPhrase| p@),
            ).0,
            final(aps)@.map_values(|p: AccentPhrase| p@) == applied_or_kept(
                bpc_undo_phrases(old(self)@, old(aps)@.map_values(|p: AccentPhrase| p@)).1,
                old(aps)@.map_values(|p: AccentPhrase| p@),
            ),
    {
        let ghost oldv: Seq<AccentPhraseV> = aps@.map_values(|p: AccentPhrase| p@);
        match self {
            BottomPaneCommand::Concat { accent_phrase, length, saved } => {
                let ap: usize = *accent_phrase;
                let m: usize = *length;
                let mut can = false;
                if ap < aps.len() {
                    match &*saved {
                        Some(at_ref) => {
                            let phrase = &aps[ap];
                            let accent_ok = phrase.accent <= 0 || (phrase.accent as usize) <= m;
                            let room_ok = at_ref.accent >= 1 && m <= phrase.moras.len() && (
                            at_ref.accent as usize) <= phrase.moras.len() - m;
                            can = m >= 1 && accent_ok && room_ok;
                        },
                        None => {},
                    }
                }
                if can {
                    let at = saved.take().unwrap();
                    let phrase = &mut aps[ap];
                    let tail = phrase.moras.split_off(m);
                    if !(phrase.accent >= 1 && (phrase.accent as usize) <= m) {
                        phrase.accent = 1;
                    }
                    proof {
                        assert(final(phrase)@.moras =~= oldv[ap as int].moras.take(m as int));
                        assert(final(phrase).accent == split_left_accent(
                            oldv[ap as int].accent,
                            m as int,
                        ));
                        assert(tail@.map_values(|mo: Mora| mo@) =~= oldv[ap as int].moras.skip(
                            m as int,
                        ));
                    }
                    let new_phrase = AccentPhrase {
                        moras: tail,
                        accent: at.accent,
                        pause_mora: at.pause_mora,
                        is_interrogative: at.is_interrogative,
                    };
                    aps.insert(ap + 1, new_phrase);
                    proof {
                        assert(aps@.map_values(|p: AccentPhrase| p@) =~~= split_phrase_with(
                            oldv,
                            ap as int,
                            m as int,
                            old(self)@->Concat_saved->0,
                        ));
                        assert(self@ =~~= bpc_undo_phrases(old(self)@, oldv).0);
                    }
                }
            },
            BottomPaneCommand::Split { accent_phrase, mora: _, saved_accent } => {
                let ap: usize = *accent_phrase;
                let mut can = false;
                let mut a_val: i32 = 0;
                if aps.len() >= 2 && ap < aps.len() - 1 {
                    match &*saved_accent {
                        Some(a) => {
                            let lv = aps[ap].moras.len();
                            let rv = aps[ap + 1].moras.len();
                            if *a >= 1 && ((*a as usize) <= lv || (*a as usize) - lv <= rv) {
                                can = true;
                                a_val = *a;
                            }
                        },
                        None => {},
                    }
                }
                if can {
                    *saved_accent = None;
                    let right = aps.remove(ap + 1);
                    let AccentPhrase {
                        moras: mut right_moras,
                        accent: _,
                        pause_mora: _,
                        is_interrogative: _,
                    } = right;
                    let left = &mut aps[ap];
                    left.moras.append(&mut right_moras);
                    left.accent = a_val;
                    proof {
                        assert(final(left)@.moras =~= oldv[ap as int].moras + oldv[ap
                            + 1].moras);
                        assert(aps@.map_values(|p: AccentPhrase| p@)
                            =~= concat_phrases_with_accent(oldv, ap as int, a_val));
                        assert(self@ =~~= bpc_undo_phrases(old(self)@, oldv).0);
                    }
                }
            },
            BottomPaneCommand::AccentPhrase { accent_phrase, new_accent: _, prev_accent } => {
                let ap: usize = *accent_phrase;
                let pa: i32 = *prev_accent;
                if ap < aps.len() {
                    let phrase = &mut aps[ap];
                    if pa >= 1 && (pa as usize) <= phrase.moras.len() {
                        phrase.accent = pa;
                    }
                    proof {
                        assert(aps@.map_values(|p: AccentPhrase| p@) =~~= applied_or_kept(
                            bpc_undo_phrases(self@, oldv).1,
                            oldv,
                        ));
                    }
                }
            },
            BottomPaneCommand::Pitch { accent_phrase, mora, pitch_diff } => {
                let ap: usize = *accent_phrase;
                let m: usize = *mora;
                let d: i64 = *pitch_diff;
                if ap < aps.len() {
                    let phrase = &mut aps[ap];
                    if m < phrase.moras.len() {
                        let mo = &mut phrase.moras[m];
                        mo.pitch = mo.pitch.wrapping_sub(d);
                        proof {
                            assert(aps@.map_values(|p: AccentPhrase| p@) =~~= applied_or_kept(
                                bpc_undo_phrases(self@, oldv).1,
                                oldv,
                            ));
                        }
                    }
                }
            },
            BottomPaneCommand::VowelAndConsonant { accent_phrase, mora, vowel_diff, consonant_diff } => {
                let ap: usize = *accent_phrase;
                let m: usize = *mora;
                let vd: Option<i64> = *vowel_diff;
                let cd: Option<i64> = *consonant_diff;
                if ap < aps.len() {
                    let phrase = &mut aps[ap];
                    if m < phrase.moras.len() {
                        let mo = &mut phrase.moras[m];
                        match vd {
                            Some(d) => {
                                mo.vowel_length = mo.vowel_length.wrapping_sub(d);
                            },
                            None => {},
                        }
                        match cd {
                            Some(d) => {
                                match mo.consonant_length {
                                    Some(cl) => {
                                        mo.consonant_length = Some(cl.wrapping_sub(d));
                                    },
                                    None => {},
                                }
                            },
                            None => {},
                        }
                        proof {
                            assert(aps@.map_values(|p: AccentPhrase| p@) =~~= applied_or_kept(
                                bpc_undo_phrases(self@, oldv).1,
                                oldv,
                            ));
                        }
                    }
                }
            },
        }
    }

    /// Applies the edit to the line bound to `uuid`; a no-op when the
    /// line is missing or has no parameters.
    pub fn invoke(&mut self, project: &mut VoiceVoxProject, uuid: &String)
        ensures
            final(self)@ == bpc_invoke(old(self)@, old(project)@, uuid@).0,
            final(project)@ == bpc_invoke(old(self)@, old(project)@, uuid@).1,
    {
        let ghost pre: ProjectV = project@;
        match project.find_index(uuid) {
            Some(i) => {
                let item = project.item_at_mut(i);
                match &mut item.query {
                    Some(q) => {
                        self.invoke_phrases(&mut q.accent_phrases);
                    },
                    None => {},
                }
                proof {
                    assert(project@ =~~= bpc_invoke(old(self)@, pre, uuid@).1);
                    assert(self@ =~~= bpc_invoke(old(self)@, pre, uuid@).0);
                }
            },
            None => {},
        }
    }

    /// Rolls the edit back on the line bound to `uuid`.
    pub fn undo(&mut self, project: &mut VoiceVoxProject, uuid: &String)
        ensures
            final(self)@ == bpc_undo(old(self)@, old(project)@, uuid@).0,
            final(project)@ == bpc_undo(old(self)@, old(project)@, uuid@).1,
    {
        let ghost pre: ProjectV = project@;
        match project.find_index(uuid) {
            Some(i) => {
                let item = project.item_at_mut(i);
                match &mut item.query {
                    Some(q) => {
                        self.undo_phrases(&mut q.accent_phrases);
                    },
                    None => {},
                }
                proof {
                    assert(project@ =~~= bpc_undo(old(self)@, pre, uuid@).1);
                    assert(self@ =~~= bpc_undo(old(self)@, pre, uuid@).0);
                }
            },
            None => {},
        }
    }

    /// The operation's display name.
    pub fn op_name(&self) -> (r: &'static str)
        ensures
            match self {
                BottomPaneCommand::Concat { .. } => r@ == "アクセントフレーズ連結"@,
                BottomPaneCommand::Split { .. } => r@ == "アクセントフレーズ分割"@,
                BottomPaneCommand::AccentPhrase { .. } => r@ == "アクセント位置変更"@,
                BottomPaneCommand::Pitch { .. } => r@ == "ピッチ変更"@,
                BottomPaneCommand::VowelAndConsonant { .. } => r@ == "母音子音長さ変更"@,
            },
    {
        match self {
            BottomPaneCommand::Concat { .. } => "アクセントフレーズ連結",
            BottomPaneCommand::Split { .. } => "アクセントフレーズ分割",
            BottomPaneCommand::AccentPhrase { .. } => "アクセント位置変更",
            BottomPaneCommand::Pitch { .. } => "ピッチ変更",
            BottomPaneCommand::VowelAndConsonant { .. } => "母音子音長さ変更",
        }
    }
}

/// Edits of the audio query's scalar controls, each a signed delta so
/// that undoing applies the negated delta.
pub enum AudioQueryEditCommand {
    SpeedScale(i64),
    PitchScale(i64),
    IntonationScale(i64),
    VolumeScale(i64),
    PrePhonemeLength(i64),
    PostPhonemeLength(i64),
}

/// Mathematical image of an [`AudioQueryEditCommand`].
#[verifier::ext_equal]
pub ghost enum AudioQueryEditCommandV {
    SpeedScale(i64),
    PitchScale(i64),
    IntonationScale(i64),
    VolumeScale(i64),
    PrePhonemeLength(i64),
    PostPhonemeLength(i64),
}

impl View for AudioQueryEditCommand {
    type V = AudioQueryEditCommandV;

    open spec fn view(&self) -> AudioQueryEditCommandV {
        match self {
            AudioQueryEditCommand::SpeedScale(x) => AudioQueryEditCommandV::SpeedScale(*x),
            AudioQueryEditCommand::PitchScale(x) => AudioQueryEditCommandV::PitchScale(*x),
            AudioQueryEditCommand::IntonationScale(x) => AudioQueryEditCommandV::IntonationScale(
                *x,
            ),
            AudioQueryEditCommand::VolumeScale(x) => AudioQueryEditCommandV::VolumeScale(*x),
            AudioQueryEditCommand::PrePhonemeLength(x) => AudioQueryEditCommandV::PrePhonemeLength(
                *x,
            ),
            AudioQueryEditCommand::PostPhonemeLength(x) => {
                AudioQueryEditCommandV::PostPhonemeLength(*x)
            },
        }
    }
}

/// The query with one scalar control shifted by the command's delta
/// (wrapping), in the `invoke` direction.
pub open spec fn edit_query_invoke(c: AudioQueryEditCommandV, q: AudioQueryV) -> AudioQueryV {
    match c {
        AudioQueryEditCommandV::SpeedScale(x) => AudioQueryV {
            speed_scale: q.speed_scale.wrapping_add(x),
            ..q
        },
        AudioQueryEditCommandV::PitchScale(x) => AudioQueryV {
            pitch_scale: q.pitch_scale.wrapping_add(x),
            ..q
        },
        AudioQueryEditCommandV::IntonationScale(x) => AudioQueryV {
            intonation_scale: q.intonation_scale.wrapping_add(x),
            ..q
        },
        AudioQueryEditCommandV::VolumeScale(x) => AudioQueryV {
            volume_scale: q.volume_scale.wrapping_add(x),
            ..q
        },
        AudioQueryEditCommandV::PrePhonemeLength(x) => AudioQueryV {
            pre_phoneme_length: q.pre_phoneme_length.wrapping_add(x),
            ..q
        },
        AudioQueryEditCommandV::PostPhonemeLength(x) => AudioQueryV {
            post_phoneme_length: q.post_phoneme_length.wrapping_add(x),
            ..q
        },
    }
}

/// The query with the same control shifted back.
pub open spec fn edit_query_undo(c: AudioQueryEditCommandV, q: AudioQueryV) -> AudioQueryV {
    match c {
        AudioQueryEditCommandV::SpeedScale(x) => AudioQueryV {
            speed_scale: q.speed_scale.wrapping_sub(x),
            ..q
        },
        AudioQueryEditCommandV::PitchScale(x) => AudioQueryV {
            pitch_scale: q.pitch_scale.wrapping_sub(x),
            ..q
        },
        AudioQueryEditCommandV::IntonationScale(x) => AudioQueryV {
            intonation_scale: q.intonation_scale.wrapping_sub(x),
            ..q
        },
        AudioQueryEditCommandV::VolumeScale(x) => AudioQueryV {
            volume_scale: q.volume_scale.wrapping_sub(x),
            ..q
        },
        AudioQueryEditCommandV::PrePhonemeLength(x) => AudioQueryV {
            pre_phoneme_length: q.pre_phoneme_length.wrapping_sub(x),
            ..q
        },
        AudioQueryEditCommandV::PostPhonemeLength(x) => AudioQueryV {
            post_phoneme_length: q.post_phoneme_length.wrapping_sub(x),
            ..q
        },
    }
}

/// What applying an [`AudioQueryEditCommand`] does: the line's scalar
/// control is shifted where the line exists and has parameters.
pub open spec fn edit_invoke(c: AudioQueryEditCommandV, p: ProjectV, u: Seq<char>) -> ProjectV {
    let i = p.idx_of(u);
    if i >= 0 {
        match p.lines[i].1.query {
            Some(q) => with_query(p, i, edit_query_invoke(c, q)),
            None => p,
        }
    } else {
        p
    }
}

/// What undoing an [`AudioQueryEditCommand`] does.
pub open spec fn edit_undo(c: AudioQueryEditCommandV, p: ProjectV, u: Seq<char>) -> ProjectV {
    let i = p.idx_of(u);
    if i >= 0 {
        match p.lines[i].1.query {
            Some(q) => with_query(p, i, edit_query_undo(c, q)),
            None => p,
        }
    } else {
        p
    }
}

impl AudioQueryEditCommand {
    /// Shifts one scalar control of `q` by the delta.
    fn apply_invoke(&self, q: &mut crate::api_schema::AudioQuery)
        ensures
            final(q)@ == edit_query_invoke(self@, old(q)@),
    {
        match self {
            AudioQueryEditCommand::SpeedScale(x) => {
                q.speed_scale = q.speed_scale.wrapping_add(*x);
            },
            AudioQueryEditCommand::PitchScale(x) => {
                q.pitch_scale = q.pitch_scale.wrapping_add(*x);
            },
            AudioQueryEditCommand::IntonationScale(x) => {
                q.intonation_scale = q.intonation_scale.wrapping_add(*x);
            },
            AudioQueryEditCommand::VolumeScale(x) => {
                q.volume_scale = q.volume_scale.wrapping_add(*x);
            },
            AudioQueryEditCommand::PrePhonemeLength(x) => {
                q.pre_phoneme_length = q.pre_phoneme_length.wrapping_add(*x);
            },
            AudioQueryEditCommand::PostPhonemeLength(x) => {
                q.post_phoneme_length = q.post_phoneme_length.wrapping_add(*x);
            },
        }
        proof {
            assert(final(q)@ =~= edit_query_invoke(self@, old(q)@));
        }
    }

    /// Shifts the same control back.
    fn apply_undo(&self, q: &mut crate::api_schema::AudioQuery)
        ensures
            final(q)@ == edit_query_undo(self@, old(q)@),
    {
        match self {
            AudioQueryEditCommand::SpeedScale(x) => {
                q.speed_scale = q.speed_scale.wrapping_sub(*x);
            },
            AudioQueryEditCommand::PitchScale(x) => {
                q.pitch_scale = q.pitch_scale.wrapping_sub(*x);
            },
            AudioQueryEditCommand::IntonationScale(x) => {
                q.intonation_scale = q.intonation_scale.wrapping_sub(*x);
            },
            AudioQueryEditCommand::VolumeScale(x) => {
                q.volume_scale = q.volume_scale.wrapping_sub(*x);
            },
            AudioQueryEditCommand::PrePhonemeLength(x) => {
                q.pre_phoneme_length = q.pre_phoneme_length.wrapping_sub(*x);
            },
            AudioQueryEditCommand::PostPhonemeLength(x) => {
                q.post_phoneme_length = q.post_phoneme_length.wrapping_sub(*x);
            },
        }
        proof {
            assert(final(q)@ =~= edit_query_undo(self@, old(q)@));
        }
    }

    /// Applies the delta to the line bound to `uuid`; a no-op when the
    /// line is missing or has no parameters.
    pub fn invoke(&mut self, project: &mut VoiceVoxProject, uuid: &String)
        ensures
            final(self)@ == old(self)@,
            final(project)@ == edit_invoke(old(self)@, old(project)@, uuid@),
    {
        let ghost pre: ProjectV = project@;
        match project.find_index(uuid) {
            Some(i) => {
                let item = project.item_at_mut(i);
                match &mut item.query {
                    Some(q) => {
                        self.apply_invoke(q);
                    },
                    None => {},
                }
                proof {
                    assert(project@ =~~= edit_invoke(old(self)@, pre, uuid@));
                }
            },
            None => {},
        }
    }

    /// Applies the negated delta to the line bound to `uuid`.
    pub fn undo(&mut self, project: &mut VoiceVoxProject, uuid: &String)
        ensures
            final(self)@ == old(self)@,
            final(project)@ == edit_undo(old(self)@, old(project)@, uuid@),
    {
        let ghost pre: ProjectV = project@;
        match project.find_index(uuid) {
            Some(i) => {
                let item = project.item_at_mut(i);
                match &mut item.query {
                    Some(q) => {
                        self.apply_undo(q);
                    },
                    None => {},
                }
                proof {
                    assert(project@ =~~= edit_undo(old(self)@, pre, uuid@));
                }
            },
            None => {},
        }
    }

    /// The operation's display name.
    pub fn op_name(&self) -> (r: &'static str)
        ensures
            match self {
                AudioQueryEditCommand::SpeedScale(_) => r@ == "話速"@,
                AudioQueryEditCommand::PitchScale(_) => r@ == "音高"@,
                AudioQueryEditCommand::IntonationScale(_) => r@ == "抑揚"@,
                AudioQueryEditCommand::VolumeScale(_) => r@ == "音量"@,
                AudioQueryEditCommand::PrePhonemeLength(_) => r@ == "開始無音"@,
                AudioQueryEditCommand::PostPhonemeLength(_) => r@ == "終了無音"@,
            },
    {
        match self {
            AudioQueryEditCommand::SpeedScale(_) => "話速",
            AudioQueryEditCommand::PitchScale(_) => "音高",
            AudioQueryEditCommand::IntonationScale(_) => "抑揚",
            AudioQueryEditCommand::VolumeScale(_) => "音量",
            AudioQueryEditCommand::PrePhonemeLength(_) => "開始無音",
            AudioQueryEditCommand::PostPhonemeLength(_) => "終了無音",
        }
    }
}

/// One reversible edit: the closed union of all command kinds the editor
/// issues.
pub enum Command {
    AudioQuery(AudioQueryCommands),
    BottomPane(BottomPaneCommand),
    AudioQueryEdit(AudioQueryEditCommand),
    CharaChange(CharaChangeCommand),
}

/// Mathematical image of a [`Command`].
#[verifier::ext_equal]
pub ghost enum CommandV {
    AudioQuery(AudioQueryCommandsV),
    BottomPane(BottomPaneCommandV),
    AudioQueryEdit(AudioQueryEditCommandV),
    CharaChange(CharaChangeCommandV),
}

impl View for Command {
    type V = CommandV;

    open spec fn view(&self) -> CommandV {
        match self {
            Command::AudioQuery(c) => CommandV::AudioQuery(c@),
            Command::BottomPane(c) => CommandV::BottomPane(c@),
            Command::AudioQueryEdit(c) => CommandV::AudioQueryEdit(c@),
            Command::CharaChange(c) => CommandV::CharaChange(c@),
        }
    }
}

/// What applying a [`Command`] does: the command after capture, and the
/// project after the edit.
pub open spec fn cmd_invoke(c: CommandV, p: ProjectV, u: Seq<char>) -> (CommandV, ProjectV) {
    match c {
        CommandV::AudioQuery(a) => {
            let (a2, p2) = aqc_invoke(a, p, u);
            (CommandV::AudioQuery(a2), p2)
        },
        CommandV::BottomPane(b) => {
            let (b2, p2) = bpc_invoke(b, p, u);
            (CommandV::BottomPane(b2), p2)
        },
        CommandV::AudioQueryEdit(e) => (c, edit_invoke(e, p, u)),
        CommandV::CharaChange(cc) => (
            c,
            crate::chara_change_button::with_style(p, u, cc.new_chara),
        ),
    }
}

/// What undoing a [`Command`] does.
pub open spec fn cmd_undo(c: CommandV, p: ProjectV, u: Seq<char>) -> (CommandV, ProjectV) {
    match c {
        CommandV::AudioQuery(a) => {
            let (a2, p2) = aqc_undo(a, p, u);
            (CommandV::AudioQuery(a2), p2)
        },
        CommandV::BottomPane(b) => {
            let (b2, p2) = bpc_undo(b, p, u);
            (CommandV::BottomPane(b2), p2)
        },
        CommandV::AudioQueryEdit(e) => (c, edit_undo(e, p, u)),
        CommandV::CharaChange(cc) => (
            c,
            crate::chara_change_button::with_style(p, u, cc.prev_chara),
        ),
    }
}

impl Command {
    /// Applies the edit to the line bound to `uuid`.
    pub fn invoke(&mut self, project: &mut VoiceVoxProject, uuid: &String)
        ensures
            final(self)@ == cmd_invoke(old(self)@, old(project)@, uuid@).0,
            final(project)@ == cmd_invoke(old(self)@, old(project)@, uuid@).1,
    {
        match self {
            Command::AudioQuery(c) => c.invoke(project, uuid),
            Command::BottomPane(c) => c.invoke(project, uuid),
            Command::AudioQueryEdit(c) => c.invoke(project, uuid),
            Command::CharaChange(c) => c.invoke(project, uuid),
        }
    }

    /// Rolls the edit back.
    pub fn undo(&mut self, project: &mut VoiceVoxProject, uuid: &String)
        ensures
            final(self)@ == cmd_undo(old(self)@, old(project)@, uuid@).0,
            final(project)@ == cmd_undo(old(self)@, old(project)@, uuid@).1,
    {
        match self {
            Command::AudioQuery(c) => c.undo(project, uuid),
            Command::BottomPane(c) => c.undo(project, uuid),
            Command::AudioQueryEdit(c) => c.undo(project, uuid),
            Command::CharaChange(c) => c.undo(project, uuid),
        }
    }

    /// Applies the edit again; redoing is re-invoking.
    pub fn redo(&mut self, project: &mut VoiceVoxProject, uuid: &String)
        ensures
            final(self)@ == cmd_invoke(old(self)@, old(project)@, uuid@).0,
            final(project)@ == cmd_invoke(old(self)@, old(project)@, uuid@).1,
    {
        self.invoke(project, uuid)
    }

    /// The operation's display name.
    pub fn op_name(&self) -> (r: &'static str)
        ensures
            match self {
                Command::AudioQuery(c) => match c {
                    AudioQueryCommands::Remove(..) => r@ == "行削除"@,
                    AudioQueryCommands::Insert(..) => r@ == "行挿入"@,
                    AudioQueryCommands::UpdateAccentPhrases { .. } => r@ == "テキスト/波形変更"@,
                },
                Command::BottomPane(c) => match c {
                    BottomPaneCommand::Concat { .. } => r@ == "アクセントフレーズ連結"@,
                    BottomPaneCommand::Split { .. } => r@ == "アクセントフレーズ分割"@,
                    BottomPaneCommand::AccentPhrase { .. } => r@ == "アクセント位置変更"@,
                    BottomPaneCommand::Pitch { .. } => r@ == "ピッチ変更"@,
                    BottomPaneCommand::VowelAndConsonant { .. } => r@ == "母音子音長さ変更"@,
                },
                Command::AudioQueryEdit(c) => match c {
                    AudioQueryEditCommand::SpeedScale(_) => r@ == "話速"@,
                    AudioQueryEditCommand::PitchScale(_) => r@ == "音高"@,
                    AudioQueryEditCommand::IntonationScale(_) => r@ == "抑揚"@,
                    AudioQueryEditCommand::VolumeScale(_) => r@ == "音量"@,
                    AudioQueryEditCommand::PrePhonemeLength(_) => r@ == "開始無音"@,
                    AudioQueryEditCommand::PostPhonemeLength(_) => r@ == "終了無音"@,
                },
                Command::CharaChange(_) => r@ == "キャラクター変更"@,
            },
    {
        match self {
            Command::AudioQuery(c) => c.op_name(),
            Command::BottomPane(c) => c.op_name(),
            Command::AudioQueryEdit(c) => c.op_name(),
            Command::CharaChange(c) => c.op_name(),
        }
    }
}

/// Applying any command preserves the store's well-formedness.
pub proof fn lemma_cmd_invoke_wf(c: CommandV, p: ProjectV, u: Seq<char>)
    requires
        p.wf(),
    ensures
        cmd_invoke(c, p, u).1.wf(),
{
    let p2 = cmd_invoke(c, p, u).1;
    crate::project::lemma_idx_of_lines(p.lines, u);
    match c {
        CommandV::AudioQuery(a) => {
            match a {
                AudioQueryCommandsV::Remove { .. } => {
                    let i = p.idx_of(u);
                    if i >= 0 {
                        lemma_wf_remove(p, i);
                    }
                },
                AudioQueryCommandsV::Insert { item } => {
                    let i = p.idx_of(u);
                    if i >= 0 {
                        lemma_wf_same_keys(p, p2);
                    } else {
                        lemma_wf_push_new(p, u, item);
                    }
                },
                AudioQueryCommandsV::UpdateAccentPhrases { .. } => {
                    lemma_wf_same_keys(p, p2);
                },
            }
        },
        CommandV::BottomPane(_) => {
            lemma_wf_same_keys(p, p2);
        },
        CommandV::AudioQueryEdit(_) => {
            lemma_wf_same_keys(p, p2);
        },
        CommandV::CharaChange(_) => {
            lemma_wf_same_keys(p, p2);
        },
    }
}

/// Undoing any command preserves the store's well-formedness.
pub proof fn lemma_cmd_undo_wf(c: CommandV, p: ProjectV, u: Seq<char>)
    requires
        p.wf(),
    ensures
        cmd_undo(c, p, u).1.wf(),
{
    let p2 = cmd_undo(c, p, u).1;
    crate::project::lemma_idx_of_lines(p.lines, u);
    match c {
        CommandV::AudioQuery(a) => {
            match a {
                AudioQueryCommandsV::Remove { pos, saved } => {
                    match saved {
                        Some(item) => {
                            if 0 <= pos <= p.lines.len() && p.idx_of(u) < 0 {
                                lemma_wf_insert_new(p, pos, u, item);
                            }
                        },
                        None => {},
                    }
                },
                AudioQueryCommandsV::Insert { .. } => {
                    if p.lines.len() > 0 && p.lines.last().0 == u {
                        assert forall|a1: int, b1: int|
                            0 <= a1 < b1 < p2.lines.len() implies p2.lines[a1].0
                            != p2.lines[b1].0 by {
                            assert(p2.lines[a1] == p.lines[a1]);
                            assert(p2.lines[b1] == p.lines[b1]);
                        }
                    }
                },
                AudioQueryCommandsV::UpdateAccentPhrases { .. } => {
                    lemma_wf_same_keys(p, p2);
                },
            }
        },
        CommandV::BottomPane(_) => {
            lemma_wf_same_keys(p, p2);
        },
        CommandV::AudioQueryEdit(_) => {
            lemma_wf_same_keys(p, p2);
        },
        CommandV::CharaChange(_) => {
            lemma_wf_same_keys(p, p2);
        },
    }
}

/// Well-formedness carries over to any project with the same keys.
proof fn lemma_wf_same_keys(p: ProjectV, p2: ProjectV)
    requires
        p.wf(),
        p2.lines.len() == p.lines.len(),
        forall|k: int| 0 <= k < p.lines.len() ==> p2.lines[k].0 == p.lines[k].0,
    ensures
        p2.wf(),
{
}

/// Removing a line keeps the keys unique.
proof fn lemma_wf_remove(p: ProjectV, i: int)
    requires
        p.wf(),
        0 <= i < p.lines.len(),
    ensures
        (ProjectV { app_version: p.app_version, lines: p.lines.remove(i) }).wf(),
{
    let l2 = p.lines.remove(i);
    assert forall|a: int, b: int| 0 <= a < b < l2.len() implies l2[a].0 != l2[b].0 by {
        let ia: int = if a < i { a } else { a + 1 };
        let ib: int = if b < i { b } else { b + 1 };
        assert(l2[a] == p.lines[ia]);
        assert(l2[b] == p.lines[ib]);
    }
}

/// Appending a line under a fresh identifier keeps the keys unique.
proof fn lemma_wf_push_new(p: ProjectV, u: Seq<char>, item: AudioItemV)
    requires
        p.wf(),
        p.idx_of(u) < 0,
    ensures
        (ProjectV { app_version: p.app_version, lines: p.lines.push((u, item)) }).wf(),
{
    crate::project::lemma_idx_of_lines(p.lines, u);
    let l2 = p.lines.push((u, item));
    assert forall|a: int, b: int| 0 <= a < b < l2.len() implies l2[a].0 != l2[b].0 by {
        if b == l2.len() - 1 {
            assert(l2[a] == p.lines[a]);
        } else {
            assert(l2[a] == p.lines[a]);
            assert(l2[b] == p.lines[b]);
        }
    }
}

/// Inserting a line under a fresh identifier keeps the keys unique.
proof fn lemma_wf_insert_new(p: ProjectV, pos: int, u: Seq<char>, item: AudioItemV)
    requires
        p.wf(),
        0 <= pos <= p.lines.len(),
        p.idx_of(u) < 0,
    ensures
        (ProjectV { app_version: p.app_version, lines: p.lines.insert(pos, (u, item)) }).wf(),
{
    crate::project::lemma_idx_of_lines(p.lines, u);
    let l2 = p.lines.insert(pos, (u, item));
    assert forall|a: int, b: int| 0 <= a < b < l2.len() implies l2[a].0 != l2[b].0 by {
        let ia: int = if a < pos { a } else { a - 1 };
        let ib: int = if b < pos { b } else { b - 1 };
        if a == pos {
            assert(l2[b] == p.lines[ib]);
        } else if b == pos {
            assert(l2[a] == p.lines[ia]);
        } else {
            assert(l2[a] == p.lines[ia]);
            assert(l2[b] == p.lines[ib]);
        }
    }
}

/// Two line sequences with the same keys index identically.
pub proof fn lemma_idx_of_same_keys(
    l1: Seq<(Seq<char>, AudioItemV)>,
    l2: Seq<(Seq<char>, AudioItemV)>,
    u: Seq<char>,
)
    requires
        l1.len() == l2.len(),
        forall|k: int| 0 <= k < l1.len() ==> l1[k].0 == l2[k].0,
    ensures
        idx_of_lines(l1, u) == idx_of_lines(l2, u),
    decreases l1.len(),
{
    if l1.len() == 0 {
    } else {
        assert(l1[0].0 == l2[0].0);
        assert forall|k: int| 0 <= k < l1.skip(1).len() implies l1.skip(1)[k].0 == l2.skip(
            1,
        )[k].0 by {
            assert(l1.skip(1)[k] == l1[k + 1]);
            assert(l2.skip(1)[k] == l2[k + 1]);
        }
        lemma_idx_of_same_keys(l1.skip(1), l2.skip(1), u);
    }
}

/// Removing the line bound to `u` from a well-formed store leaves `u`
/// unbound.
pub proof fn lemma_idx_of_remove(p: ProjectV, u: Seq<char>)
    requires
        p.wf(),
        p.idx_of(u) >= 0,
    ensures
        idx_of_lines(p.lines.remove(p.idx_of(u)), u) == -1,
{
    let i = p.idx_of(u);
    let l2 = p.lines.remove(i);
    crate::project::lemma_idx_of_lines(p.lines, u);
    crate::project::lemma_idx_of_lines(l2, u);
    let j = idx_of_lines(l2, u);
    if j != -1 {
        let ij: int = if j < i {
            j
        } else {
            j + 1
        };
        assert(l2[j] == p.lines[ij]);
        assert(p.lines[ij].0 == u);
        assert(p.lines[i].0 == u);
        assert(false);
    }
}

/// Whether a command's captured previous state agrees with the state it
/// is about to be applied to: it has captured nothing yet, any previous
/// value it records is the one in place, and the parameters it targets
/// carry the data-model accent invariant. Freshly constructed commands
/// applied to the reachable states they were built from always satisfy
/// this.
pub open spec fn cmd_coherent(c: CommandV, p: ProjectV, u: Seq<char>) -> bool {
    let i = p.idx_of(u);
    match c {
        CommandV::AudioQuery(a) => match a {
            AudioQueryCommandsV::Remove { pos, saved } => saved is None,
            AudioQueryCommandsV::Insert { item } => i < 0,
            AudioQueryCommandsV::UpdateAccentPhrases { new_text, prev_text, accent_phrases } => {
                i >= 0 ==> p.lines[i].1.text == prev_text
            },
        },
        CommandV::BottomPane(b) => i >= 0 ==> match p.lines[i].1.query {
            Some(q) => phrases_accents_wf(q.accent_phrases) && bpc_phrases_coherent(
                b,
                q.accent_phrases,
            ),
            None => true,
        },
        CommandV::AudioQueryEdit(e) => true,
        CommandV::CharaChange(cc) => i >= 0 ==> p.lines[i].1.style_id == cc.prev_chara,
    }
}

/// Coherence of a structural edit with the phrase sequence it targets: a
/// merge or split has captured nothing yet, and an accent move records
/// the accent currently in place.
pub open spec fn bpc_phrases_coherent(c: BottomPaneCommandV, aps: Seq<AccentPhraseV>) -> bool {
    match c {
        BottomPaneCommandV::Concat { accent_phrase, length, saved } => saved is None,
        BottomPaneCommandV::Split { accent_phrase, mora, saved_accent } => saved_accent is None,
        BottomPaneCommandV::AccentPhrase { accent_phrase, new_accent, prev_accent } => {
            0 <= accent_phrase < aps.len() ==> aps[accent_phrase].accent == prev_accent
        },
        BottomPaneCommandV::Pitch { .. } => true,
        BottomPaneCommandV::VowelAndConsonant { .. } => true,
    }
}

/// Splitting an accent phrase at a mora index and concatenating the two
/// halves back yields the original mora sequence; the phrase itself is
/// restored exactly whenever its accent lay in the left half, since the
/// merge keeps the left half's accent.
pub proof fn lemma_split_concat_round_trip(aps: Seq<AccentPhraseV>, i: int, m: int)
    requires
        0 <= i < aps.len(),
        0 < m < aps[i].moras.len(),
    ensures
        ({
            let back = concat_phrases(split_phrase(aps, i, m), i);
            &&& back.len() == aps.len()
            &&& forall|k: int| 0 <= k < aps.len() && k != i ==> back[k] == aps[k]
            &&& back[i].moras == aps[i].moras
            &&& back[i].pause_mora == aps[i].pause_mora
            &&& back[i].is_interrogative == aps[i].is_interrogative
            &&& back[i].accent == split_left_accent(aps[i].accent, m)
            &&& 1 <= aps[i].accent <= m ==> back == aps
        }),
{
    let sp = split_phrase(aps, i, m);
    let back = concat_phrases(sp, i);
    assert(sp[i].moras + sp[i + 1].moras =~= aps[i].moras);
    assert forall|k: int| 0 <= k < aps.len() && k != i implies back[k] == aps[k] by {
        if k < i {
            assert(back[k] == sp[k]);
        } else {
            assert(back[k] == sp[k + 1]);
        }
    }
    assert(back[i] =~= (AccentPhraseV { accent: split_left_accent(aps[i].accent, m), ..aps[i] }));
    if 1 <= aps[i].accent <= m {
        assert(back[i] =~= aps[i]);
        assert(back =~= aps);
    }
}

/// Undoing a structural edit right after applying it restores the phrase
/// sequence exactly, on every well-formed sequence.
pub proof fn lemma_bpc_phrases_involution(c: BottomPaneCommandV, aps: Seq<AccentPhraseV>)
    requires
        phrases_accents_wf(aps),
        bpc_phrases_coherent(c, aps),
    ensures
        ({
            let (c2, r) = bpc_invoke_phrases(c, aps);
            let aps2 = applied_or_kept(r, aps);
            applied_or_kept(bpc_undo_phrases(c2, aps2).1, aps2) == aps
        }),
{
    let (c2, r) = bpc_invoke_phrases(c, aps);
    let aps2 = applied_or_kept(r, aps);
    match c {
        BottomPaneCommandV::Concat { accent_phrase: ap, length, saved } => {
            if 0 <= ap && ap + 1 < aps.len() {
                let l = aps[ap];
                let rph = aps[ap + 1];
                let at = attrs_of(rph);
                let llen = l.moras.len() as int;
                let merged = AccentPhraseV { moras: l.moras + rph.moras, ..l };
                assert(aps2 =~= aps.update(ap, merged).remove(ap + 1));
                assert(aps2[ap] == merged);
                assert(accent_wf(l));
                assert(accent_wf(rph));
                assert(1 <= llen && aps2[ap].accent <= llen);
                assert(1 <= at.accent && llen + at.accent <= aps2[ap].moras.len());
                let back = split_phrase_with(aps2, ap, llen, at);
                assert(merged.moras.take(llen) =~= l.moras);
                assert(merged.moras.skip(llen) =~= rph.moras);
                assert(split_left_accent(merged.accent, llen) == l.accent);
                assert(AccentPhraseV {
                    moras: merged.moras.take(llen),
                    accent: split_left_accent(merged.accent, llen),
                    ..merged
                } =~= l);
                assert(AccentPhraseV {
                    moras: merged.moras.skip(llen),
                    accent: at.accent,
                    pause_mora: at.pause_mora,
                    is_interrogative: at.is_interrogative,
                } =~= rph);
                assert forall|k: int| 0 <= k < aps.len() implies back[k] == aps[k] by {
                    if k < ap {
                        assert(back[k] == aps2[k]);
                    } else if k == ap {
                    } else if k == ap + 1 {
                    } else {
                        assert(back[k] == aps2[k - 1]);
                    }
                }
                assert(back =~= aps);
            } else {
                assert(c2 == c);
                assert(aps2 == aps);
            }
        },
        BottomPaneCommandV::Split { accent_phrase: ap, mora: m, saved_accent } => {
            if 0 <= ap < aps.len() && 0 < m < aps[ap].moras.len() {
                let orig = aps[ap];
                assert(accent_wf(orig));
                assert(aps2 == split_phrase(aps, ap, m));
                assert(0 <= ap && ap + 1 < aps2.len());
                let a = orig.accent;
                assert(aps2[ap].moras =~= orig.moras.take(m));
                assert(aps2[ap + 1].moras =~= orig.moras.skip(m));
                assert(1 <= a && a <= aps2[ap].moras.len() + aps2[ap + 1].moras.len());
                let back = concat_phrases_with_accent(aps2, ap, a);
                assert(aps2[ap].moras + aps2[ap + 1].moras =~= orig.moras);
                assert(AccentPhraseV {
                    moras: aps2[ap].moras + aps2[ap + 1].moras,
                    accent: a,
                    ..aps2[ap]
                } =~= orig);
                assert forall|k: int| 0 <= k < aps.len() implies back[k] == aps[k] by {
                    if k < ap {
                        assert(back[k] == aps2[k]);
                    } else if k == ap {
                    } else {
                        assert(back[k] == aps2[k + 1]);
                    }
                }
                assert(back =~= aps);
            } else {
                assert(c2 == c);
                assert(aps2 == aps);
            }
        },
        BottomPaneCommandV::AccentPhrase { accent_phrase: ap, new_accent, prev_accent } => {
            if 0 <= ap < aps.len() {
                assert(accent_wf(aps[ap]));
                let back = applied_or_kept(bpc_undo_phrases(c2, aps2).1, aps2);
                if 1 <= new_accent && new_accent <= aps[ap].moras.len() {
                    assert(AccentPhraseV { accent: prev_accent, ..aps2[ap] } =~= aps[ap]);
                    assert(back =~= aps);
                } else {
                    assert(aps2 == aps);
                    assert(AccentPhraseV { accent: prev_accent, ..aps[ap] } =~= aps[ap]);
                    assert(back =~= aps);
                }
            }
        },
        BottomPaneCommandV::Pitch { accent_phrase: ap, mora: m, pitch_diff: d } => {
            if 0 <= ap < aps.len() && 0 <= m < aps[ap].moras.len() {
                let mo = aps[ap].moras[m];
                let mo2 = MoraV { pitch: mo.pitch.wrapping_add(d), ..mo };
                assert(aps2[ap].moras[m] == mo2);
                assert(mo2.pitch.wrapping_sub(d) == mo.pitch);
                let back = applied_or_kept(bpc_undo_phrases(c2, aps2).1, aps2);
                assert(MoraV { pitch: mo2.pitch.wrapping_sub(d), ..mo2 } =~= mo);
                assert(aps2[ap].moras.update(m, mo) =~= aps[ap].moras);
                assert(AccentPhraseV { moras: aps2[ap].moras.update(m, mo), ..aps2[ap] }
                    =~= aps[ap]);
                assert(back =~= aps);
            }
        },
        BottomPaneCommandV::VowelAndConsonant { accent_phrase: ap, mora: m, vowel_diff: vd, consonant_diff: cd } => {
            if 0 <= ap < aps.len() && 0 <= m < aps[ap].moras.len() {
                let mo = aps[ap].moras[m];
                let mo2 = aps2[ap].moras[m];
                let back = applied_or_kept(bpc_undo_phrases(c2, aps2).1, aps2);
                let mo3 = MoraV {
                    vowel_length: match vd {
                        Some(dv) => mo2.vowel_length.wrapping_sub(dv),
                        None => mo2.vowel_length,
                    },
                    consonant_length: match (mo2.consonant_length, cd) {
                        (Some(cl), Some(dc)) => Some(cl.wrapping_sub(dc)),
                        _ => mo2.consonant_length,
                    },
                    ..mo2
                };
                assert(mo3 =~= mo);
                assert(aps2[ap].moras.update(m, mo3) =~= aps[ap].moras);
                assert(AccentPhraseV { moras: aps2[ap].moras.update(m, mo3), ..aps2[ap] }
                    =~= aps[ap]);
                assert(back =~= aps);
            }
        },
    }
}

/// Involution: undoing what a command just did restores the project
/// exactly, for every command coherent with the state it is applied to.
pub proof fn lemma_command_involution(c: CommandV, p: ProjectV, u: Seq<char>)
    requires
        p.wf(),
        cmd_coherent(c, p, u),
    ensures
        ({
            let (c2, p2) = cmd_invoke(c, p, u);
            cmd_undo(c2, p2, u).1 == p
        }),
{
    let (c2, p2) = cmd_invoke(c, p, u);
    let p3 = cmd_undo(c2, p2, u).1;
    let i = p.idx_of(u);
    crate::project::lemma_idx_of_lines(p.lines, u);
    match c {
        CommandV::AudioQuery(a) => {
            match a {
                AudioQueryCommandsV::Remove { pos, saved } => {
                    if i >= 0 {
                        lemma_idx_of_remove(p, u);
                        assert(p2.lines.len() == p.lines.len() - 1);
                        assert(p3.lines =~= p2.lines.insert(i, (u, p.lines[i].1)));
                        assert(p.lines[i] == (p.lines[i].0, p.lines[i].1));
                        assert forall|k: int| 0 <= k < p.lines.len() implies p3.lines[k]
                            == p.lines[k] by {
                            if k < i {
                                assert(p3.lines[k] == p2.lines[k]);
                            } else if k == i {
                            } else {
                                assert(p3.lines[k] == p2.lines[k - 1]);
                            }
                        }
                        assert(p3 =~= p);
                    }
                },
                AudioQueryCommandsV::Insert { item } => {
                    assert(p2.lines == p.lines.push((u, item)));
                    assert(p2.lines.last().0 == u);
                    assert(p3.lines =~= p.lines);
                    assert(p3 =~= p);
                },
                AudioQueryCommandsV::UpdateAccentPhrases { new_text, prev_text, accent_phrases } => {
                    if i >= 0 {
                        let item = p.lines[i].1;
                        lemma_idx_of_same_keys(p.lines, p2.lines, u);
                        match item.query {
                            Some(q) => {
                                let q2 = AudioQueryV { accent_phrases, ..q };
                                let item2 = AudioItemV {
                                    text: new_text,
                                    query: Some(q2),
                                    ..item
                                };
                                assert(p2.lines[i].1 == item2);
                                let q3 = AudioQueryV { accent_phrases: q.accent_phrases, ..q2 };
                                let item3 = AudioItemV {
                                    text: prev_text,
                                    query: Some(q3),
                                    ..item2
                                };
                                assert(q3 =~= q);
                                assert(item3 =~= item);
                                assert(p3.lines =~= p2.lines.update(i, (p2.lines[i].0, item3)));
                                assert forall|k: int| 0 <= k < p.lines.len() implies p3.lines[k]
                                    == p.lines[k] by {}
                                assert(p3 =~= p);
                            },
                            None => {
                                let item2 = AudioItemV { text: new_text, ..item };
                                assert(p2.lines[i].1 == item2);
                                let item3 = AudioItemV { text: prev_text, ..item2 };
                                assert(item3 =~= item);
                                assert forall|k: int| 0 <= k < p.lines.len() implies p3.lines[k]
                                    == p.lines[k] by {}
                                assert(p3 =~= p);
                            },
                        }
                    }
                },
            }
        },
        CommandV::BottomPane(b) => {
            if i >= 0 {
                let item = p.lines[i].1;
                match item.query {
                    Some(q) => {
                        lemma_bpc_phrases_involution(b, q.accent_phrases);
                        let (b2, r) = bpc_invoke_phrases(b, q.accent_phrases);
                        let aps2 = applied_or_kept(r, q.accent_phrases);
                        match r {
                            Some(s) => {
                                lemma_idx_of_same_keys(p.lines, p2.lines, u);
                                let q2 = AudioQueryV { accent_phrases: s, ..q };
                                assert(p2.lines[i].1 == AudioItemV { query: Some(q2), ..item });
                                match bpc_undo_phrases(b2, s).1 {
                                    Some(s2) => {
                                        assert(s2 == q.accent_phrases);
                                        let q3 = AudioQueryV { accent_phrases: s2, ..q2 };
                                        assert(q3 =~= q);
                                        assert(AudioItemV { query: Some(q3), ..p2.lines[i].1 }
                                            =~= item);
                                        assert forall|k: int|
                                            0 <= k < p.lines.len() implies p3.lines[k]
                                            == p.lines[k] by {}
                                        assert(p3 =~= p);
                                    },
                                    None => {
                                        assert(s == q.accent_phrases);
                                        let q2b = AudioQueryV { accent_phrases: s, ..q };
                                        assert(q2b =~= q);
                                        assert(p2.lines[i].1 =~= item);
                                        assert forall|k: int|
                                            0 <= k < p.lines.len() implies p2.lines[k]
                                            == p.lines[k] by {}
                                        assert(p2 =~= p);
                                        assert(p3 == p2);
                                    },
                                }
                            },
                            None => {
                                assert(b2 == b);
                                assert(p2 == p);
                                assert(aps2 == q.accent_phrases);
                                match bpc_undo_phrases(b, q.accent_phrases).1 {
                                    Some(s2) => {
                                        assert(s2 == q.accent_phrases);
                                        let q3 = AudioQueryV { accent_phrases: s2, ..q };
                                        assert(q3 =~= q);
                                        assert(AudioItemV { query: Some(q3), ..item } =~= item);
                                        assert forall|k: int|
                                            0 <= k < p.lines.len() implies p3.lines[k]
                                            == p.lines[k] by {}
                                        assert(p3 =~= p);
                                    },
                                    None => {},
                                }
                            },
                        }
                    },
                    None => {
                        assert(p2 == p);
                        assert(p3 == p);
                    },
                }
            } else {
                assert(p2 == p);
                assert(p3 == p);
            }
        },
        CommandV::AudioQueryEdit(e) => {
            if i >= 0 {
                let item = p.lines[i].1;
                match item.query {
                    Some(q) => {
                        lemma_idx_of_same_keys(p.lines, p2.lines, u);
                        let q2 = edit_query_invoke(e, q);
                        assert(p2.lines[i].1 == AudioItemV { query: Some(q2), ..item });
                        let q3 = edit_query_undo(e, q2);
                        assert(q3 =~= q);
                        assert(AudioItemV { query: Some(q3), ..p2.lines[i].1 } =~= item);
                        assert forall|k: int| 0 <= k < p.lines.len() implies p3.lines[k]
                            == p.lines[k] by {}
                        assert(p3 =~= p);
                    },
                    None => {
                        assert(p2 == p);
                        assert(p3 == p);
                    },
                }
            } else {
                assert(p2 == p);
                assert(p3 == p);
            }
        },
        CommandV::CharaChange(cc) => {
            if i >= 0 {
                let item = p.lines[i].1;
                lemma_idx_of_same_keys(p.lines, p2.lines, u);
                let item2 = AudioItemV { style_id: cc.new_chara, ..item };
                assert(p2.lines[i].1 == item2);
                let item3 = AudioItemV { style_id: cc.prev_chara, ..item2 };
                assert(item3 =~= item);
                assert forall|k: int| 0 <= k < p.lines.len() implies p3.lines[k] == p.lines[k]
                    by {}
                assert(p3 =~= p);
            } else {
                assert(p2 == p);
                assert(p3 == p);
            }
        },
    }
}

/// A removal captures the removed line and its exact position, and its
/// undo re-inserts precisely that captured line at that position,
/// restoring the project byte for byte.
pub proof fn lemma_remove_insert_symmetry(p: ProjectV, u: Seq<char>)
    requires
        p.wf(),
        p.contains_id(u),
    ensures
        ({
            let c = AudioQueryCommandsV::Remove { pos: 0, saved: None };
            let (c2, p2) = aqc_invoke(c, p, u);
            &&& c2 == (AudioQueryCommandsV::Remove {
                pos: p.idx_of(u),
                saved: Some(p.item_of(u)),
            })
            &&& p2.lines == p.lines.remove(p.idx_of(u))
            &&& aqc_undo(c2, p2, u).1 == p
        }),
{
    let c = AudioQueryCommandsV::Remove { pos: 0, saved: None };
    lemma_command_involution(CommandV::AudioQuery(c), p, u);
}

/// An insertion under a fresh identifier appends the line, and its undo
/// removes exactly that line, restoring the project byte for byte.
pub proof fn lemma_insert_undo_symmetry(p: ProjectV, u: Seq<char>, item: AudioItemV)
    requires
        p.wf(),
        !p.contains_id(u),
    ensures
        ({
            let c = AudioQueryCommandsV::Insert { item };
            let (c2, p2) = aqc_invoke(c, p, u);
            &&& p2.lines == p.lines.push((u, item))
            &&& aqc_undo(c2, p2, u).1 == p
        }),
{
    let c = AudioQueryCommandsV::Insert { item };
    lemma_command_involution(CommandV::AudioQuery(c), p, u);
}

/// The payloads a command may install are themselves well formed: any
/// line or phrase sequence it carries has valid accent positions. The
/// payloads a command captures from a well-formed state satisfy this,
/// as the preservation lemmas state.
pub open spec fn cmd_accents_wf(c: CommandV) -> bool {
    match c {
        CommandV::AudioQuery(a) => match a {
            AudioQueryCommandsV::Remove { pos, saved } => match saved {
                Some(item) => item.accents_wf(),
                None => true,
            },
            AudioQueryCommandsV::Insert { item } => item.accents_wf(),
            AudioQueryCommandsV::UpdateAccentPhrases { new_text, prev_text, accent_phrases } => {
                phrases_accents_wf(accent_phrases)
            },
        },
        CommandV::BottomPane(b) => true,
        CommandV::AudioQueryEdit(e) => true,
        CommandV::CharaChange(cc) => true,
    }
}

/// A line replacement with a well-formed item keeps the store's accent
/// invariant.
proof fn lemma_accents_with_item(p: ProjectV, i: int, item: AudioItemV)
    requires
        p.accents_wf(),
        item.accents_wf(),
        0 <= i < p.lines.len(),
    ensures
        with_item(p, i, item).accents_wf(),
{
    let p2 = with_item(p, i, item);
    assert forall|k: int| 0 <= k < p2.lines.len() implies (#[trigger] p2.lines[k].1).accents_wf()
        by {
        if k != i {
            assert(p2.lines[k] == p.lines[k]);
        }
    }
}

/// Applying a structural edit keeps every accent position pointing at
/// one of its phrase's moras — including on the phrases a split or
/// merge creates.
pub proof fn lemma_bpc_invoke_phrases_accents(c: BottomPaneCommandV, aps: Seq<AccentPhraseV>)
    requires
        phrases_accents_wf(aps),
    ensures
        phrases_accents_wf(applied_or_kept(bpc_invoke_phrases(c, aps).1, aps)),
{
    let (c2, r) = bpc_invoke_phrases(c, aps);
    let aps2 = applied_or_kept(r, aps);
    match c {
        BottomPaneCommandV::Concat { accent_phrase: ap, length, saved } => {
            if 0 <= ap && ap + 1 < aps.len() {
                assert forall|k: int| 0 <= k < aps2.len() implies accent_wf(#[trigger] aps2[k])
                    by {
                    if k < ap {
                        assert(aps2[k] == aps[k]);
                    } else if k == ap {
                        assert(accent_wf(aps[ap]));
                    } else {
                        assert(aps2[k] == aps[k + 1]);
                    }
                }
            }
        },
        BottomPaneCommandV::Split { accent_phrase: ap, mora: m, saved_accent } => {
            if 0 <= ap < aps.len() && 0 < m < aps[ap].moras.len() {
                assert forall|k: int| 0 <= k < aps2.len() implies accent_wf(#[trigger] aps2[k])
                    by {
                    if k < ap {
                        assert(aps2[k] == aps[k]);
                    } else if k == ap {
                        assert(aps2[ap].moras == aps[ap].moras.take(m));
                    } else if k == ap + 1 {
                        assert(aps2[ap + 1].moras == aps[ap].moras.skip(m));
                    } else {
                        assert(aps2[k] == aps[k - 1]);
                    }
                }
            }
        },
        BottomPaneCommandV::AccentPhrase { accent_phrase: ap, new_accent, prev_accent } => {
            if 0 <= ap < aps.len() && 1 <= new_accent && new_accent <= aps[ap].moras.len() {
                assert forall|k: int| 0 <= k < aps2.len() implies accent_wf(#[trigger] aps2[k])
                    by {
                    if k != ap {
                        assert(aps2[k] == aps[k]);
                    }
                }
            }
        },
        BottomPaneCommandV::Pitch { accent_phrase: ap, mora: m, pitch_diff } => {
            if 0 <= ap < aps.len() && 0 <= m < aps[ap].moras.len() {
                assert forall|k: int| 0 <= k < aps2.len() implies accent_wf(#[trigger] aps2[k])
                    by {
                    if k != ap {
                        assert(aps2[k] == aps[k]);
                    } else {
                        assert(accent_wf(aps[ap]));
                        assert(aps2[ap].moras.len() == aps[ap].moras.len());
                    }
                }
            }
        },
        BottomPaneCommandV::VowelAndConsonant { accent_phrase: ap, mora: m, vowel_diff, consonant_diff } => {
            if 0 <= ap < aps.len() && 0 <= m < aps[ap].moras.len() {
                assert forall|k: int| 0 <= k < aps2.len() implies accent_wf(#[trigger] aps2[k])
                    by {
                    if k != ap {
                        assert(aps2[k] == aps[k]);
                    } else {
                        assert(accent_wf(aps[ap]));
                        assert(aps2[ap].moras.len() == aps[ap].moras.len());
                    }
                }
            }
        },
    }
}

/// Undoing a structural edit keeps every accent position well formed:
/// the undo guards accept only captured values that still fit the
/// phrases they rebuild.
pub proof fn lemma_bpc_undo_phrases_accents(c: BottomPaneCommandV, aps: Seq<AccentPhraseV>)
    requires
        phrases_accents_wf(aps),
    ensures
        phrases_accents_wf(applied_or_kept(bpc_undo_phrases(c, aps).1, aps)),
{
    let (c2, r) = bpc_undo_phrases(c, aps);
    let aps2 = applied_or_kept(r, aps);
    match c {
        BottomPaneCommandV::Concat { accent_phrase: ap, length, saved } => {
            match saved {
                Some(at) => {
                    if 0 <= ap < aps.len() && 1 <= length && aps[ap].accent <= length && 1
                        <= at.accent && length + at.accent <= aps[ap].moras.len() {
                        assert forall|k: int|
                            0 <= k < aps2.len() implies accent_wf(#[trigger] aps2[k]) by {
                            if k < ap {
                                assert(aps2[k] == aps[k]);
                            } else if k == ap {
                                assert(aps2[ap].moras == aps[ap].moras.take(length));
                            } else if k == ap + 1 {
                                assert(aps2[ap + 1].moras == aps[ap].moras.skip(length));
                            } else {
                                assert(aps2[k] == aps[k - 1]);
                            }
                        }
                    }
                },
                None => {},
            }
        },
        BottomPaneCommandV::Split { accent_phrase: ap, mora, saved_accent } => {
            match saved_accent {
                Some(a) => {
                    if 0 <= ap && ap + 1 < aps.len() && 1 <= a && a <= aps[ap].moras.len()
                        + aps[ap + 1].moras.len() {
                        assert forall|k: int|
                            0 <= k < aps2.len() implies accent_wf(#[trigger] aps2[k]) by {
                            if k < ap {
                                assert(aps2[k] == aps[k]);
                            } else if k == ap {
                                assert(aps2[ap].moras == aps[ap].moras + aps[ap + 1].moras);
                            } else {
                                assert(aps2[k] == aps[k + 1]);
                            }
                        }
                    }
                },
                None => {},
            }
        },
        BottomPaneCommandV::AccentPhrase { accent_phrase: ap, new_accent, prev_accent } => {
            if 0 <= ap < aps.len() && 1 <= prev_accent && prev_accent <= aps[ap].moras.len() {
                assert forall|k: int| 0 <= k < aps2.len() implies accent_wf(#[trigger] aps2[k])
                    by {
                    if k != ap {
                        assert(aps2[k] == aps[k]);
                    }
                }
            }
        },
        BottomPaneCommandV::Pitch { accent_phrase: ap, mora: m, pitch_diff } => {
            if 0 <= ap < aps.len() && 0 <= m < aps[ap].moras.len() {
                assert forall|k: int| 0 <= k < aps2.len() implies accent_wf(#[trigger] aps2[k])
                    by {
                    if k != ap {
                        assert(aps2[k] == aps[k]);
                    } else {
                        assert(accent_wf(aps[ap]));
                        assert(aps2[ap].moras.len() == aps[ap].moras.len());
                    }
                }
            }
        },
        BottomPaneCommandV::VowelAndConsonant { accent_phrase: ap, mora: m, vowel_diff, consonant_diff } => {
            if 0 <= ap < aps.len() && 0 <= m < aps[ap].moras.len() {
                assert forall|k: int| 0 <= k < aps2.len() implies accent_wf(#[trigger] aps2[k])
                    by {
                    if k != ap {
                        assert(aps2[k] == aps[k]);
                    } else {
                        assert(accent_wf(aps[ap]));
                        assert(aps2[ap].moras.len() == aps[ap].moras.len());
                    }
                }
            }
        },
    }
}

/// Every command preserves the data-model invariant on accent positions:
/// applied to a project whose parameters are well formed, with a
/// well-formed payload, it leaves every accent position pointing at one
/// of its phrase's moras, and whatever it captures is well formed in
/// turn.
pub proof fn lemma_cmd_invoke_preserves_accents(c: CommandV, p: ProjectV, u: Seq<char>)
    requires
        p.accents_wf(),
        cmd_accents_wf(c),
    ensures
        cmd_invoke(c, p, u).1.accents_wf(),
        cmd_accents_wf(cmd_invoke(c, p, u).0),
{
    let (c2, p2) = cmd_invoke(c, p, u);
    let i = p.idx_of(u);
    crate::project::lemma_idx_of_lines(p.lines, u);
    match c {
        CommandV::AudioQuery(a) => {
            match a {
                AudioQueryCommandsV::Remove { .. } => {
                    if i >= 0 {
                        assert forall|k: int|
                            0 <= k < p2.lines.len() implies (
                        #[trigger] p2.lines[k].1).accents_wf() by {
                            let ik: int = if k < i {
                                k
                            } else {
                                k + 1
                            };
                            assert(p2.lines[k] == p.lines[ik]);
                        }
                        assert(p.lines[i].1.accents_wf());
                    }
                },
                AudioQueryCommandsV::Insert { item } => {
                    if i >= 0 {
                        lemma_accents_with_item(p, i, item);
                    } else {
                        assert forall|k: int|
                            0 <= k < p2.lines.len() implies (
                        #[trigger] p2.lines[k].1).accents_wf() by {
                            if k < p.lines.len() {
                                assert(p2.lines[k] == p.lines[k]);
                            }
                        }
                    }
                },
                AudioQueryCommandsV::UpdateAccentPhrases { new_text, prev_text, accent_phrases } => {
                    if i >= 0 {
                        let item = p.lines[i].1;
                        assert(item.accents_wf());
                        match item.query {
                            Some(q) => {
                                let q2 = AudioQueryV { accent_phrases, ..q };
                                let item2 = AudioItemV { text: new_text, query: Some(q2), ..item };
                                lemma_accents_with_item(p, i, item2);
                            },
                            None => {
                                let item2 = AudioItemV { text: new_text, ..item };
                                lemma_accents_with_item(p, i, item2);
                            },
                        }
                    }
                },
            }
        },
        CommandV::BottomPane(b) => {
            if i >= 0 {
                let item = p.lines[i].1;
                assert(item.accents_wf());
                match item.query {
                    Some(q) => {
                        lemma_bpc_invoke_phrases_accents(b, q.accent_phrases);
                        let (b2, r) = bpc_invoke_phrases(b, q.accent_phrases);
                        match r {
                            Some(s) => {
                                let q2 = AudioQueryV { accent_phrases: s, ..q };
                                lemma_accents_with_item(p, i, AudioItemV { query: Some(q2), ..item });
                            },
                            None => {},
                        }
                    },
                    None => {},
                }
            }
        },
        CommandV::AudioQueryEdit(e) => {
            if i >= 0 {
                let item = p.lines[i].1;
                assert(item.accents_wf());
                match item.query {
                    Some(q) => {
                        let q2 = edit_query_invoke(e, q);
                        lemma_accents_with_item(p, i, AudioItemV { query: Some(q2), ..item });
                    },
                    None => {},
                }
            }
        },
        CommandV::CharaChange(cc) => {
            if i >= 0 {
                let item = p.lines[i].1;
                assert(item.accents_wf());
                lemma_accents_with_item(
                    p,
                    i,
                    AudioItemV { style_id: cc.new_chara, ..item },
                );
            }
        },
    }
}

/// Undoing any command preserves the accent invariant in the same way.
pub proof fn lemma_cmd_undo_preserves_accents(c: CommandV, p: ProjectV, u: Seq<char>)
    requires
        p.accents_wf(),
        cmd_accents_wf(c),
    ensures
        cmd_undo(c, p, u).1.accents_wf(),
        cmd_accents_wf(cmd_undo(c, p, u).0),
{
    let (c2, p2) = cmd_undo(c, p, u);
    let i = p.idx_of(u);
    crate::project::lemma_idx_of_lines(p.lines, u);
    match c {
        CommandV::AudioQuery(a) => {
            match a {
                AudioQueryCommandsV::Remove { pos, saved } => {
                    match saved {
                        Some(item) => {
                            if 0 <= pos <= p.lines.len() && i < 0 {
                                assert forall|k: int|
                                    0 <= k < p2.lines.len() implies (
                                #[trigger] p2.lines[k].1).accents_wf() by {
                                    if k == pos {
                                        assert(p2.lines[k].1 == item);
                                    } else {
                                        let ik: int = if k < pos {
                                            k
                                        } else {
                                            k - 1
                                        };
                                        assert(p2.lines[k] == p.lines[ik]);
                                    }
                                }
                            }
                        },
                        None => {},
                    }
                },
                AudioQueryCommandsV::Insert { .. } => {
                    if p.lines.len() > 0 && p.lines.last().0 == u {
                        assert forall|k: int|
                            0 <= k < p2.lines.len() implies (
                        #[trigger] p2.lines[k].1).accents_wf() by {
                            assert(p2.lines[k] == p.lines[k]);
                        }
                    }
                },
                AudioQueryCommandsV::UpdateAccentPhrases { new_text, prev_text, accent_phrases } => {
                    if i >= 0 {
                        let item = p.lines[i].1;
                        assert(item.accents_wf());
                        match item.query {
                            Some(q) => {
                                let q2 = AudioQueryV { accent_phrases, ..q };
                                let item2 = AudioItemV { text: prev_text, query: Some(q2), ..item };
                                lemma_accents_with_item(p, i, item2);
                            },
                            None => {
                                let item2 = AudioItemV { text: prev_text, ..item };
                                lemma_accents_with_item(p, i, item2);
                            },
                        }
                    }
                },
            }
        },
        CommandV::BottomPane(b) => {
            if i >= 0 {
                let item = p.lines[i].1;
                assert(item.accents_wf());
                match item.query {
                    Some(q) => {
                        lemma_bpc_undo_phrases_accents(b, q.accent_phrases);
                        let (b2, r) = bpc_undo_phrases(b, q.accent_phrases);
                        match r {
                            Some(s) => {
                                let q2 = AudioQueryV { accent_phrases: s, ..q };
                                lemma_accents_with_item(p, i, AudioItemV { query: Some(q2), ..item });
                            },
                            None => {},
                        }
                    },
                    None => {},
                }
            }
        },
        CommandV::AudioQueryEdit(e) => {
            if i >= 0 {
                let item = p.lines[i].1;
                assert(item.accents_wf());
                match item.query {
                    Some(q) => {
                        let q2 = edit_query_undo(e, q);
                        lemma_accents_with_item(p, i, AudioItemV { query: Some(q2), ..item });
                    },
                    None => {},
                }
            }
        },
        CommandV::CharaChange(cc) => {
            if i >= 0 {
                let item = p.lines[i].1;
                assert(item.accents_wf());
                lemma_accents_with_item(
                    p,
                    i,
                    AudioItemV { style_id: cc.prev_chara, ..item },
                );
            }
        },
    }
}

} // verus!
