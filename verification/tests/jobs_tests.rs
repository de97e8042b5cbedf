use voice_vox::api_schema::{AccentPhrase, AudioQuery, Mora};
use voice_vox::chara_change_button::CharaChangeCommand;
use voice_vox::commands::{AudioQueryCommands, Command};
use voice_vox::history::HistoryManager;
use voice_vox::jobs::{
    apply_finished_query, is_stale, reconcile_finished_query, AudioQueryState, QueryPoll,
    SynthesisCache, SynthesisPoll, SynthesisState,
};
use voice_vox::project::{AudioItem, VoiceVoxProject};

fn blank_query() -> AudioQuery {
    AudioQuery {
        accent_phrases: Vec::new(),
        speed_scale: 1000,
        pitch_scale: 0,
        intonation_scale: 1000,
        volume_scale: 1000,
        pre_phoneme_length: 100,
        post_phoneme_length: 100,
        output_sampling_rate: voice_vox::DEFAULT_SAMPLING_RATE as i32,
        output_stereo: false,
        kana: None,
    }
}

fn query_with_one_phrase() -> AudioQuery {
    let mut q = blank_query();
    q.accent_phrases = vec![AccentPhrase {
        moras: vec![Mora {
            text: "ア".to_string(),
            consonant: None,
            consonant_length: None,
            vowel: "a".to_string(),
            vowel_length: 100,
            pitch: 5000,
        }],
        accent: 1,
        pause_mora: None,
        is_interrogative: None,
    }];
    q
}

fn blank_item() -> AudioItem {
    AudioItem { text: String::new(), style_id: 2, query: Some(blank_query()), preset_key: None }
}

fn empty_manager() -> HistoryManager {
    HistoryManager::from_project(VoiceVoxProject::empty("0.11.4".to_string()))
}

#[test]
fn pending_query_stays_pending_until_an_answer_arrives() {
    let mut job = AudioQueryState::WaitingForQuery("text".to_string());
    job.poll(QueryPoll::NotReady);
    assert!(matches!(job, AudioQueryState::WaitingForQuery(_)));
    job.poll(QueryPoll::Delivered(query_with_one_phrase()));
    assert!(matches!(job, AudioQueryState::Finished(_, _)));
    // finished is terminal until drained
    job.poll(QueryPoll::Failed);
    assert!(matches!(job, AudioQueryState::Finished(_, _)));
}

#[test]
fn failed_query_is_terminal_and_never_retried_by_polling() {
    let mut job = AudioQueryState::WaitingForQuery("text".to_string());
    job.poll(QueryPoll::Failed);
    assert!(matches!(job, AudioQueryState::Failed));
    job.poll(QueryPoll::Delivered(blank_query()));
    assert!(matches!(job, AudioQueryState::Failed));
}

#[test]
fn take_finished_drains_exactly_once() {
    let mut job = AudioQueryState::WaitingForQuery("こんにちは".to_string());
    job.poll(QueryPoll::Delivered(query_with_one_phrase()));
    let (text, aq) = job.take_finished().unwrap();
    assert_eq!(text, "こんにちは");
    assert_eq!(aq.accent_phrases.len(), 1);
    assert!(matches!(job, AudioQueryState::NoJob));
    assert!(job.take_finished().is_none());
}

#[test]
fn finished_query_feeds_history_and_is_undoable() {
    let mut hm = empty_manager();
    let id = "line".to_string();
    hm.invoke(Command::AudioQuery(AudioQueryCommands::Insert(blank_item())), id.clone());

    let aq = query_with_one_phrase();
    apply_finished_query(
        &mut hm,
        id.clone(),
        "ア".to_string(),
        String::new(),
        &aq,
    );
    {
        let item = hm.project.get(&id).unwrap();
        assert_eq!(item.text, "ア");
        assert_eq!(item.query.as_ref().unwrap().accent_phrases.len(), 1);
    }
    // a remote-derived change goes through the history, so it undoes
    hm.undo();
    {
        let item = hm.project.get(&id).unwrap();
        assert_eq!(item.text, "");
        assert_eq!(item.query.as_ref().unwrap().accent_phrases.len(), 0);
    }
}

#[test]
fn stale_job_result_is_detected_and_discarded() {
    let mut hm = empty_manager();
    let id = "line".to_string();
    hm.invoke(Command::AudioQuery(AudioQueryCommands::Insert(blank_item())), id.clone());
    let captured = hm.get_current_time_stamp(&id).unwrap();
    assert!(!is_stale(captured, &hm, &id));

    let mut cache = SynthesisCache::new();
    assert!(cache.dispatch(id.clone(), captured));
    // the same key is never dispatched twice
    assert!(!cache.dispatch(id.clone(), captured));

    // the user edits again while the render is in flight
    hm.invoke(
        Command::CharaChange(CharaChangeCommand { prev_chara: 2, new_chara: 8 }),
        id.clone(),
    );
    assert!(is_stale(captured, &hm, &id));

    // the late result arrives and completes the stale entry
    cache.poll_at(&id, captured, SynthesisPoll::Delivered(vec![1, 2, 3]));
    // but it is never surfaced for the line's current revision
    assert!(cache.fresh_audio(&hm, &id).is_none());
    // and the newer edit's state is untouched
    assert_eq!(hm.project.get(&id).unwrap().style_id, 8);

    // a render at the current revision is surfaced
    let now = hm.get_current_time_stamp(&id).unwrap();
    assert!(cache.dispatch(id.clone(), now));
    cache.poll_at(&id, now, SynthesisPoll::Delivered(vec![9, 9]));
    assert_eq!(cache.fresh_audio(&hm, &id).unwrap(), &vec![9u8, 9u8]);
}

#[test]
fn pending_render_is_not_surfaced() {
    let mut hm = empty_manager();
    let id = "line".to_string();
    hm.invoke(Command::AudioQuery(AudioQueryCommands::Insert(blank_item())), id.clone());
    let now = hm.get_current_time_stamp(&id).unwrap();

    let mut cache = SynthesisCache::new();
    cache.dispatch(id.clone(), now);
    assert!(cache.fresh_audio(&hm, &id).is_none());
    cache.poll_at(&id, now, SynthesisPoll::NotReady);
    assert!(cache.fresh_audio(&hm, &id).is_none());
    cache.poll_at(&id, now, SynthesisPoll::Failed);
    assert!(cache.fresh_audio(&hm, &id).is_none());
}

#[test]
fn failed_render_is_terminal() {
    let mut s = SynthesisState::WaitingForSynthesis;
    s.poll(SynthesisPoll::Failed);
    assert!(matches!(s, SynthesisState::Failed));
    s.poll(SynthesisPoll::Delivered(vec![1]));
    assert!(matches!(s, SynthesisState::Failed));
}

#[test]
fn result_for_a_deleted_line_is_discarded_without_touching_history() {
    let mut hm = empty_manager();
    let id = "line".to_string();
    hm.invoke(Command::AudioQuery(AudioQueryCommands::Insert(blank_item())), id.clone());
    // the user deletes the line while a parameter job is in flight
    hm.invoke(Command::AudioQuery(AudioQueryCommands::Remove(0, None)), id.clone());
    let stamp_before = hm.get_current_time_stamp(&id);

    let applied = reconcile_finished_query(
        &mut hm,
        id.clone(),
        "ア".to_string(),
        String::new(),
        &query_with_one_phrase(),
    );
    assert!(!applied);
    assert!(hm.project.get(&id).is_none());
    // no revision advanced and no command was recorded
    assert_eq!(hm.get_current_time_stamp(&id), stamp_before);
    hm.undo();
    // the one undo reverts the removal, not a phantom update
    assert_eq!(hm.project.get(&id).unwrap().text, "");
}

#[test]
fn result_for_a_living_line_is_applied_through_history() {
    let mut hm = empty_manager();
    let id = "line".to_string();
    hm.invoke(Command::AudioQuery(AudioQueryCommands::Insert(blank_item())), id.clone());
    let applied = reconcile_finished_query(
        &mut hm,
        id.clone(),
        "ア".to_string(),
        String::new(),
        &query_with_one_phrase(),
    );
    assert!(applied);
    assert_eq!(hm.project.get(&id).unwrap().text, "ア");
}
