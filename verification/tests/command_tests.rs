use voice_vox::api_schema::{AccentPhrase, AudioQuery, Mora};
use voice_vox::chara_change_button::CharaChangeCommand;
use voice_vox::commands::{AudioQueryCommands, AudioQueryEditCommand, BottomPaneCommand};
use voice_vox::project::{AudioItem, VoiceVoxProject};

fn mora(text: &str, vowel: &str, pitch: i64) -> Mora {
    Mora {
        text: text.to_string(),
        consonant: None,
        consonant_length: Some(40),
        vowel: vowel.to_string(),
        vowel_length: 100,
        pitch,
    }
}

fn phrase(moras: Vec<Mora>, accent: i32) -> AccentPhrase {
    AccentPhrase { moras, accent, pause_mora: None, is_interrogative: None }
}

fn query_with(phrases: Vec<AccentPhrase>) -> AudioQuery {
    AudioQuery {
        accent_phrases: phrases,
        speed_scale: 1000,
        pitch_scale: 0,
        intonation_scale: 1000,
        volume_scale: 1000,
        pre_phoneme_length: 100,
        post_phoneme_length: 100,
        output_sampling_rate: voice_vox::DEFAULT_SAMPLING_RATE as i32,
        output_stereo: false,
        kana: None,
    }
}

fn item_with(text: &str, style: i32, phrases: Vec<AccentPhrase>) -> AudioItem {
    AudioItem {
        text: text.to_string(),
        style_id: style,
        query: Some(query_with(phrases)),
        preset_key: None,
    }
}

fn one_line_project(id: &str, item: AudioItem) -> VoiceVoxProject {
    VoiceVoxProject {
        app_version: "0.11.4".to_string(),
        audio_items: vec![(id.to_string(), item)],
    }
}

fn sample_phrases() -> Vec<AccentPhrase> {
    vec![
        phrase(vec![mora("ニ", "i", 100), mora("ホ", "o", 200), mora("ン", "N", 300)], 1),
        phrase(vec![mora("シ", "i", 400), mora("マ", "a", 500)], 2),
    ]
}

#[test]
fn remove_captures_index_and_line_and_undo_restores_them() {
    let id_a = "a".to_string();
    let id_b = "b".to_string();
    let id_c = "c".to_string();
    let mut project = VoiceVoxProject {
        app_version: "0.11.4".to_string(),
        audio_items: vec![
            (id_a.clone(), item_with("first", 1, vec![])),
            (id_b.clone(), item_with("second", 2, sample_phrases())),
            (id_c.clone(), item_with("third", 3, vec![])),
        ],
    };
    let reference = project.clone();

    let mut cmd = AudioQueryCommands::Remove(0, None);
    cmd.invoke(&mut project, &id_b);
    assert_eq!(project.len(), 2);
    assert!(project.get(&id_b).is_none());
    match &cmd {
        AudioQueryCommands::Remove(pos, saved) => {
            assert_eq!(*pos, 1);
            let saved = saved.as_ref().unwrap();
            assert_eq!(saved.text, "second");
            assert_eq!(saved.style_id, 2);
        }
        _ => unreachable!(),
    }

    cmd.undo(&mut project, &id_b);
    assert!(project.content_eq(&reference));
    // the captured line was handed back
    match &cmd {
        AudioQueryCommands::Remove(_, saved) => assert!(saved.is_none()),
        _ => unreachable!(),
    }
}

#[test]
fn insert_undone_removes_exactly_the_inserted_line() {
    let id_a = "a".to_string();
    let id_new = "fresh".to_string();
    let mut project = one_line_project("a", item_with("first", 1, vec![]));
    let reference = project.clone();

    let mut cmd = AudioQueryCommands::Insert(item_with("added", 7, vec![]));
    cmd.invoke(&mut project, &id_new);
    assert_eq!(project.len(), 2);
    assert_eq!(project.get(&id_new).unwrap().text, "added");
    assert_eq!(project.get(&id_a).unwrap().text, "first");

    cmd.undo(&mut project, &id_new);
    assert!(project.content_eq(&reference));
}

#[test]
fn update_accent_phrases_swaps_symmetrically() {
    let id = "line".to_string();
    let mut project = one_line_project("line", item_with("old text", 2, sample_phrases()));
    let reference = project.clone();

    let replacement = vec![phrase(vec![mora("ア", "a", 999)], 1)];
    let mut cmd = AudioQueryCommands::UpdateAccentPhrases {
        new_text: "new text".to_string(),
        prev_text: "old text".to_string(),
        accent_phrases: replacement,
    };
    cmd.invoke(&mut project, &id);
    {
        let item = project.get(&id).unwrap();
        assert_eq!(item.text, "new text");
        let q = item.query.as_ref().unwrap();
        assert_eq!(q.accent_phrases.len(), 1);
        assert_eq!(q.accent_phrases[0].moras[0].text, "ア");
    }
    // the command now holds the previous phrases, swapped in place
    match &cmd {
        AudioQueryCommands::UpdateAccentPhrases { accent_phrases, .. } => {
            assert_eq!(accent_phrases.len(), 2)
        }
        _ => unreachable!(),
    }

    cmd.undo(&mut project, &id);
    assert!(project.content_eq(&reference));
}

#[test]
fn commands_degrade_to_noops_on_a_missing_line() {
    let missing = "missing".to_string();
    let mut project = one_line_project("line", item_with("text", 2, sample_phrases()));
    let reference = project.clone();

    AudioQueryCommands::Remove(0, None).invoke(&mut project, &missing);
    assert!(project.content_eq(&reference));
    BottomPaneCommand::Pitch { accent_phrase: 0, mora: 0, pitch_diff: 5 }
        .invoke(&mut project, &missing);
    assert!(project.content_eq(&reference));
    AudioQueryEditCommand::SpeedScale(5).invoke(&mut project, &missing);
    assert!(project.content_eq(&reference));
    CharaChangeCommand { prev_chara: 2, new_chara: 9 }.invoke(&mut project, &missing);
    assert!(project.content_eq(&reference));
}

#[test]
fn split_then_concat_restores_the_mora_sequence() {
    let id = "line".to_string();
    let mut project = one_line_project("line", item_with("text", 2, sample_phrases()));
    let reference = project.clone();

    let mut split = BottomPaneCommand::Split { accent_phrase: 0, mora: 2, saved_accent: None };
    split.invoke(&mut project, &id);
    {
        let q = project.get(&id).unwrap().query.as_ref().unwrap();
        assert_eq!(q.accent_phrases.len(), 3);
        assert_eq!(q.accent_phrases[0].moras.len(), 2);
        assert_eq!(q.accent_phrases[0].accent, 1);
        assert_eq!(q.accent_phrases[1].moras.len(), 1);
        assert_eq!(q.accent_phrases[1].moras[0].text, "ン");
        // the created half starts accented on its first mora
        assert_eq!(q.accent_phrases[1].accent, 1);
    }

    let mut concat = BottomPaneCommand::Concat { accent_phrase: 0, length: 2, saved: None };
    concat.invoke(&mut project, &id);
    assert!(project.content_eq(&reference));
}

#[test]
fn concat_captures_and_restores_the_right_phrase_exactly() {
    let id = "line".to_string();
    let phrases = vec![
        phrase(vec![mora("ニ", "i", 100), mora("ホ", "o", 200)], 1),
        // a right phrase with a real accent, pause mora and flag
        AccentPhrase {
            moras: vec![mora("シ", "i", 300), mora("マ", "a", 400)],
            accent: 2,
            pause_mora: Some(mora("、", "pau", 0)),
            is_interrogative: Some(true),
        },
    ];
    let mut project = one_line_project("line", item_with("text", 2, phrases));
    let reference = project.clone();

    let mut cmd = BottomPaneCommand::Concat { accent_phrase: 0, length: 0, saved: None };
    cmd.invoke(&mut project, &id);
    {
        let q = project.get(&id).unwrap().query.as_ref().unwrap();
        assert_eq!(q.accent_phrases.len(), 1);
        assert_eq!(q.accent_phrases[0].moras.len(), 4);
        assert_eq!(q.accent_phrases[0].accent, 1);
    }
    // the command captured the left length and the discarded attributes
    match &cmd {
        BottomPaneCommand::Concat { length, saved, .. } => {
            assert_eq!(*length, 2);
            let at = saved.as_ref().unwrap();
            assert_eq!(at.accent, 2);
            assert!(at.pause_mora.is_some());
            assert_eq!(at.is_interrogative, Some(true));
        }
        _ => unreachable!(),
    }

    cmd.undo(&mut project, &id);
    assert!(project.content_eq(&reference));
}

#[test]
fn split_keeps_accents_well_formed_and_undo_restores_them() {
    let id = "line".to_string();
    let phrases = vec![phrase(
        vec![mora("ニ", "i", 100), mora("ホ", "o", 200), mora("ン", "N", 300)],
        3,
    )];
    let mut project = one_line_project("line", item_with("text", 2, phrases));
    let reference = project.clone();

    let mut cmd = BottomPaneCommand::Split { accent_phrase: 0, mora: 1, saved_accent: None };
    cmd.invoke(&mut project, &id);
    {
        let q = project.get(&id).unwrap().query.as_ref().unwrap();
        // the left half's accent pointed past its single mora: it falls
        // back to the first mora instead of going out of range
        assert_eq!(q.accent_phrases[0].moras.len(), 1);
        assert_eq!(q.accent_phrases[0].accent, 1);
        assert_eq!(q.accent_phrases[1].moras.len(), 2);
        assert_eq!(q.accent_phrases[1].accent, 1);
    }
    match &cmd {
        BottomPaneCommand::Split { saved_accent, .. } => assert_eq!(*saved_accent, Some(3)),
        _ => unreachable!(),
    }

    cmd.undo(&mut project, &id);
    assert!(project.content_eq(&reference));
}

#[test]
fn accent_move_outside_the_phrase_is_refused() {
    let id = "line".to_string();
    let mut project = one_line_project("line", item_with("text", 2, sample_phrases()));
    let reference = project.clone();

    // the second phrase has two moras; position 7 points at none of them
    let mut cmd =
        BottomPaneCommand::AccentPhrase { accent_phrase: 1, new_accent: 7, prev_accent: 2 };
    cmd.invoke(&mut project, &id);
    assert!(project.content_eq(&reference));
    cmd.undo(&mut project, &id);
    assert!(project.content_eq(&reference));
}

#[test]
fn pitch_and_length_deltas_invert_exactly() {
    let id = "line".to_string();
    let mut project = one_line_project("line", item_with("text", 2, sample_phrases()));
    let reference = project.clone();

    let mut pitch = BottomPaneCommand::Pitch { accent_phrase: 1, mora: 0, pitch_diff: -123 };
    pitch.invoke(&mut project, &id);
    assert_eq!(
        project.get(&id).unwrap().query.as_ref().unwrap().accent_phrases[1].moras[0].pitch,
        277
    );
    pitch.undo(&mut project, &id);
    assert!(project.content_eq(&reference));

    let mut vc = BottomPaneCommand::VowelAndConsonant {
        accent_phrase: 0,
        mora: 1,
        vowel_diff: Some(10),
        consonant_diff: Some(-5),
    };
    vc.invoke(&mut project, &id);
    {
        let m = &project.get(&id).unwrap().query.as_ref().unwrap().accent_phrases[0].moras[1];
        assert_eq!(m.vowel_length, 110);
        assert_eq!(m.consonant_length, Some(35));
    }
    vc.undo(&mut project, &id);
    assert!(project.content_eq(&reference));
}

#[test]
fn accent_position_change_restores_previous_on_undo() {
    let id = "line".to_string();
    let mut project = one_line_project("line", item_with("text", 2, sample_phrases()));
    let reference = project.clone();

    let mut cmd =
        BottomPaneCommand::AccentPhrase { accent_phrase: 1, new_accent: 1, prev_accent: 2 };
    cmd.invoke(&mut project, &id);
    assert_eq!(project.get(&id).unwrap().query.as_ref().unwrap().accent_phrases[1].accent, 1);
    cmd.undo(&mut project, &id);
    assert!(project.content_eq(&reference));
}

#[test]
fn scalar_edit_commands_invert_exactly() {
    let id = "line".to_string();
    let mut project = one_line_project("line", item_with("text", 2, sample_phrases()));
    let reference = project.clone();

    let mut cmd = AudioQueryEditCommand::IntonationScale(250);
    cmd.invoke(&mut project, &id);
    assert_eq!(project.get(&id).unwrap().query.as_ref().unwrap().intonation_scale, 1250);
    cmd.undo(&mut project, &id);
    assert!(project.content_eq(&reference));

    let mut cmd = AudioQueryEditCommand::PostPhonemeLength(-40);
    cmd.invoke(&mut project, &id);
    assert_eq!(project.get(&id).unwrap().query.as_ref().unwrap().post_phoneme_length, 60);
    cmd.undo(&mut project, &id);
    assert!(project.content_eq(&reference));
}

#[test]
fn chara_change_restores_previous_style_on_undo() {
    let id = "line".to_string();
    let mut project = one_line_project("line", item_with("text", 2, sample_phrases()));
    let reference = project.clone();

    let mut cmd = CharaChangeCommand { prev_chara: 2, new_chara: 14 };
    cmd.invoke(&mut project, &id);
    assert_eq!(project.get(&id).unwrap().style_id, 14);
    cmd.undo(&mut project, &id);
    assert!(project.content_eq(&reference));
}

#[test]
fn command_names_match_their_operations() {
    assert_eq!(AudioQueryCommands::Remove(0, None).op_name(), "行削除");
    assert_eq!(
        BottomPaneCommand::Split { accent_phrase: 0, mora: 1, saved_accent: None }.op_name(),
        "アクセントフレーズ分割"
    );
    assert_eq!(AudioQueryEditCommand::SpeedScale(1).op_name(), "話速");
    assert_eq!(CharaChangeCommand { prev_chara: 0, new_chara: 1 }.op_name(), "キャラクター変更");
}
