use voice_vox::api::ConnectWaves;
use voice_vox::api_schema::{
    AccentPhrase, AudioQuery, Mora, SpeakerInfo, SpeakerInfoRaw, StyleInfo, StyleInfoRaw,
    TryFromRawError,
};

fn raw_style(id: i32, icon: &str, samples: Vec<&str>) -> StyleInfoRaw {
    StyleInfoRaw {
        id,
        icon: icon.to_string(),
        voice_samples: samples.into_iter().map(|s| s.to_string()).collect(),
    }
}

#[test]
fn style_info_decodes_base64_graphics() {
    // "YWJj" is the standard base64 encoding of b"abc"
    let raw = raw_style(3, "YWJj", vec!["AA==", "/w=="]);
    let si = StyleInfo::try_from(raw).unwrap();
    assert_eq!(si.id, 3);
    assert_eq!(si.icon, b"abc".to_vec());
    assert_eq!(si.voice_samples, vec![vec![0u8], vec![255u8]]);
}

#[test]
fn style_info_fails_exactly_on_a_bad_icon() {
    let raw = raw_style(3, "not base64 !!!", vec!["AA=="]);
    match StyleInfo::try_from(raw) {
        Err(TryFromRawError::Base64Decode) => {}
        _ => panic!("expected a base64 failure"),
    }
}

#[test]
fn style_info_drops_samples_that_do_not_decode() {
    let raw = raw_style(1, "YWJj", vec!["AA==", "breaks!", "/w=="]);
    let si = StyleInfo::try_from(raw).unwrap();
    assert_eq!(si.voice_samples, vec![vec![0u8], vec![255u8]]);
}

#[test]
fn style_info_raw_encodes_graphics_back() {
    let si = StyleInfo { id: 5, icon: b"abc".to_vec(), voice_samples: vec![vec![0u8]] };
    let raw = StyleInfoRaw::from(si);
    assert_eq!(raw.id, 5);
    assert_eq!(raw.icon, "YWJj");
    assert_eq!(raw.voice_samples, vec!["AA==".to_string()]);
}

#[test]
fn speaker_info_decodes_portrait_and_drops_broken_styles() {
    let raw = SpeakerInfoRaw {
        policy: "free to use".to_string(),
        portrait: "YWJj".to_string(),
        style_infos: vec![
            raw_style(1, "AA==", vec![]),
            raw_style(2, "broken!", vec![]),
            raw_style(3, "/w==", vec![]),
        ],
    };
    let si = SpeakerInfo::try_from(raw).unwrap();
    assert_eq!(si.policy, "free to use");
    assert_eq!(si.portrait, b"abc".to_vec());
    assert_eq!(si.style_infos.len(), 2);
    assert_eq!(si.style_infos[0].id, 1);
    assert_eq!(si.style_infos[1].id, 3);
}

#[test]
fn speaker_info_fails_exactly_on_a_bad_portrait() {
    let raw = SpeakerInfoRaw {
        policy: String::new(),
        portrait: "***".to_string(),
        style_infos: vec![raw_style(1, "AA==", vec![])],
    };
    match SpeakerInfo::try_from(raw) {
        Err(TryFromRawError::Base64Decode) => {}
        _ => panic!("expected a base64 failure"),
    }
}

#[test]
fn connect_waves_encodes_each_wave() {
    let req = ConnectWaves { waves: vec![b"abc".to_vec(), vec![0u8], Vec::new()] };
    let body = req.encoded_waves();
    assert_eq!(body, vec!["YWJj".to_string(), "AA==".to_string(), String::new()]);
}

fn mora(text: &str) -> Mora {
    Mora {
        text: text.to_string(),
        consonant: Some("k".to_string()),
        consonant_length: Some(40),
        vowel: "a".to_string(),
        vowel_length: 100,
        pitch: 5500,
    }
}

#[test]
fn content_eq_distinguishes_every_field() {
    let a = mora("カ");
    let mut b = a.clone();
    assert!(a.content_eq(&b));
    b.pitch += 1;
    assert!(!a.content_eq(&b));

    let pa = AccentPhrase {
        moras: vec![mora("カ"), mora("キ")],
        accent: 1,
        pause_mora: None,
        is_interrogative: None,
    };
    let mut pb = pa.clone();
    assert!(pa.content_eq(&pb));
    pb.moras[1].vowel = "i".to_string();
    assert!(!pa.content_eq(&pb));

    let qa = AudioQuery {
        accent_phrases: vec![pa],
        speed_scale: 1000,
        pitch_scale: 0,
        intonation_scale: 1000,
        volume_scale: 1000,
        pre_phoneme_length: 100,
        post_phoneme_length: 100,
        output_sampling_rate: 24000,
        output_stereo: false,
        kana: Some("カキ".to_string()),
    };
    let mut qb = qa.clone();
    assert!(qa.content_eq(&qb));
    qb.kana = None;
    assert!(!qa.content_eq(&qb));
}

#[test]
fn connect_waves_response_decodes_through_the_library() {
    assert_eq!(
        ConnectWaves::decoded_response(&"YWJj".to_string()),
        Some(b"abc".to_vec())
    );
    assert_eq!(ConnectWaves::decoded_response(&"not base64 !!!".to_string()), None);
}
