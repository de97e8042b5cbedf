use voice_vox::api_schema::{AccentPhrase, AudioQuery, Mora};
use voice_vox::commands::{AudioQueryCommands, BottomPaneCommand, Command};
use voice_vox::chara_change_button::CharaChangeCommand;
use voice_vox::history::HistoryManager;
use voice_vox::project::{AudioItem, VoiceVoxProject};

fn mora(text: &str, vowel: &str, pitch: i64) -> Mora {
    Mora {
        text: text.to_string(),
        consonant: None,
        consonant_length: None,
        vowel: vowel.to_string(),
        vowel_length: 100,
        pitch,
    }
}

fn phrase(moras: Vec<Mora>) -> AccentPhrase {
    AccentPhrase { moras, accent: 1, pause_mora: None, is_interrogative: None }
}

fn blank_query() -> AudioQuery {
    AudioQuery {
        accent_phrases: Vec::new(),
        speed_scale: 1000,
        pitch_scale: 0,
        intonation_scale: 1000,
        volume_scale: 1000,
        pre_phoneme_length: 100,
        post_phoneme_length: 100,
        output_sampling_rate: voice_vox::DEFAULT_SAMPLING_RATE as i32,
        output_stereo: false,
        kana: None,
    }
}

fn blank_item() -> AudioItem {
    AudioItem {
        text: String::new(),
        style_id: 2,
        query: Some(blank_query()),
        preset_key: None,
    }
}

fn empty_manager() -> HistoryManager {
    HistoryManager::from_project(VoiceVoxProject::empty("0.11.4".to_string()))
}

#[test]
fn new_manager_holds_one_blank_line() {
    let hm = HistoryManager::new("first-line".to_string(), Some(blank_query()));
    assert_eq!(hm.project.len(), 1);
    let item = hm.project.get(&"first-line".to_string()).unwrap();
    assert_eq!(item.text, "");
    assert_eq!(item.style_id, 2);
    assert!(hm.is_empty());
    assert!(!hm.undoable());
    assert!(!hm.redoable());
}

#[test]
fn undo_on_empty_history_is_a_noop() {
    let mut hm = empty_manager();
    hm.undo();
    assert!(hm.is_empty());
    assert_eq!(hm.project.len(), 0);
}

#[test]
fn redo_on_empty_history_is_a_noop() {
    let mut hm = empty_manager();
    hm.redo();
    assert!(hm.is_empty());
    assert_eq!(hm.project.len(), 0);
}

#[test]
fn revision_advances_on_invoke_and_steps_back_on_undo() {
    let mut hm = empty_manager();
    let id = "line".to_string();
    hm.invoke(
        Command::AudioQuery(AudioQueryCommands::Insert(blank_item())),
        id.clone(),
    );
    let r0 = hm.get_current_time_stamp(&id).unwrap();
    hm.invoke(
        Command::CharaChange(CharaChangeCommand { prev_chara: 2, new_chara: 8 }),
        id.clone(),
    );
    let r1 = hm.get_current_time_stamp(&id).unwrap();
    assert!(r0 < r1);
    hm.undo();
    let r_back = hm.get_current_time_stamp(&id).unwrap();
    assert_eq!(r_back, r0);
    hm.redo();
    let r_again = hm.get_current_time_stamp(&id).unwrap();
    assert_eq!(r_again, r1);
}

#[test]
fn undo_at_oldest_revision_is_floored() {
    let mut hm = empty_manager();
    let id = "line".to_string();
    hm.invoke(
        Command::AudioQuery(AudioQueryCommands::Insert(blank_item())),
        id.clone(),
    );
    let r0 = hm.get_current_time_stamp(&id).unwrap();
    hm.undo();
    assert_eq!(hm.get_current_time_stamp(&id), Some(r0));
    hm.undo();
    assert_eq!(hm.get_current_time_stamp(&id), Some(r0));
}

#[test]
fn redo_is_noop_after_a_new_edit() {
    let mut hm = empty_manager();
    let id = "line".to_string();
    hm.invoke(
        Command::AudioQuery(AudioQueryCommands::Insert(blank_item())),
        id.clone(),
    );
    hm.invoke(
        Command::CharaChange(CharaChangeCommand { prev_chara: 2, new_chara: 8 }),
        id.clone(),
    );
    hm.undo();
    assert!(hm.redoable());
    assert_eq!(hm.project.get(&id).unwrap().style_id, 2);
    // a different edit invalidates the undone style change
    hm.invoke(
        Command::CharaChange(CharaChangeCommand { prev_chara: 2, new_chara: 5 }),
        id.clone(),
    );
    assert!(!hm.redoable());
    hm.redo();
    assert_eq!(hm.project.get(&id).unwrap().style_id, 5);
}

#[test]
fn saved_tracks_snapshot_and_empty_history() {
    let mut hm = empty_manager();
    assert!(hm.saved());
    let id = "line".to_string();
    hm.invoke(
        Command::AudioQuery(AudioQueryCommands::Insert(blank_item())),
        id.clone(),
    );
    assert!(!hm.saved());
    hm.save();
    assert!(hm.saved());
    hm.invoke(
        Command::CharaChange(CharaChangeCommand { prev_chara: 2, new_chara: 8 }),
        id.clone(),
    );
    assert!(!hm.saved());
    hm.undo();
    assert!(hm.saved());
}

#[test]
fn update_text_undo_redo_round_trip() {
    let mut hm = empty_manager();
    let id = "L1".to_string();
    hm.invoke(
        Command::AudioQuery(AudioQueryCommands::Insert(blank_item())),
        id.clone(),
    );
    assert_eq!(hm.project.get(&id).unwrap().style_id, 2);

    // a returned three-accent-phrase result for the new text
    let computed = vec![
        phrase(vec![mora("コ", "o", 5800), mora("ン", "N", 5800)]),
        phrase(vec![mora("ニ", "i", 5900)]),
        phrase(vec![mora("チ", "i", 5700), mora("ハ", "a", 5600)]),
    ];
    hm.invoke(
        Command::AudioQuery(AudioQueryCommands::UpdateAccentPhrases {
            new_text: "こんにちは".to_string(),
            prev_text: String::new(),
            accent_phrases: computed,
        }),
        id.clone(),
    );
    {
        let item = hm.project.get(&id).unwrap();
        assert_eq!(item.text, "こんにちは");
        let q = item.query.as_ref().unwrap();
        assert_eq!(q.accent_phrases.len(), 3);
        assert_eq!(q.accent_phrases[0].moras.len(), 2);
        assert_eq!(q.accent_phrases[2].moras[1].text, "ハ");
    }

    hm.undo();
    {
        let item = hm.project.get(&id).unwrap();
        assert_eq!(item.text, "");
        assert_eq!(item.query.as_ref().unwrap().accent_phrases.len(), 0);
    }

    hm.redo();
    {
        let item = hm.project.get(&id).unwrap();
        assert_eq!(item.text, "こんにちは");
        let q = item.query.as_ref().unwrap();
        assert_eq!(q.accent_phrases.len(), 3);
        assert_eq!(q.accent_phrases[0].moras[0].text, "コ");
        assert_eq!(q.accent_phrases[2].moras[1].text, "ハ");
    }
}

#[test]
fn histories_of_different_lines_interleave_on_one_timeline() {
    let mut hm = empty_manager();
    let a = "line-a".to_string();
    let b = "line-b".to_string();
    hm.invoke(Command::AudioQuery(AudioQueryCommands::Insert(blank_item())), a.clone());
    hm.invoke(Command::AudioQuery(AudioQueryCommands::Insert(blank_item())), b.clone());
    hm.invoke(
        Command::CharaChange(CharaChangeCommand { prev_chara: 2, new_chara: 3 }),
        a.clone(),
    );
    hm.invoke(
        Command::CharaChange(CharaChangeCommand { prev_chara: 2, new_chara: 4 }),
        b.clone(),
    );
    // one global timeline: the first undo reverts b's change, not a's
    hm.undo();
    assert_eq!(hm.project.get(&a).unwrap().style_id, 3);
    assert_eq!(hm.project.get(&b).unwrap().style_id, 2);
    hm.undo();
    assert_eq!(hm.project.get(&a).unwrap().style_id, 2);
}

#[test]
fn bottom_pane_commands_through_history_are_reversible() {
    let mut hm = empty_manager();
    let id = "line".to_string();
    let mut item = blank_item();
    item.query.as_mut().unwrap().accent_phrases = vec![phrase(vec![
        mora("ニ", "i", 100),
        mora("ホ", "o", 200),
        mora("ン", "N", 300),
    ])];
    hm.invoke(Command::AudioQuery(AudioQueryCommands::Insert(item)), id.clone());
    hm.invoke(
        Command::BottomPane(BottomPaneCommand::Pitch {
            accent_phrase: 0,
            mora: 1,
            pitch_diff: 55,
        }),
        id.clone(),
    );
    {
        let q = hm.project.get(&id).unwrap().query.as_ref().unwrap();
        assert_eq!(q.accent_phrases[0].moras[1].pitch, 255);
    }
    hm.undo();
    {
        let q = hm.project.get(&id).unwrap().query.as_ref().unwrap();
        assert_eq!(q.accent_phrases[0].moras[1].pitch, 200);
    }
}
