//! Data model of the synthesis-parameter structures: moras, accent phrases
//! and the audio query that bundles them with scalar controls.
//!
//! The engine's scalar controls (pitch, lengths, speed and so on) are held
//! as fixed-point integers rather than floating-point numbers, so that the
//! signed deltas stored by the edit commands compose and invert exactly.

use vstd::prelude::*;

verus! {

/// One mora: a syllable-like unit with its consonant/vowel phonemes,
/// their lengths and its pitch.
#[derive(Debug)]
pub struct Mora {
    pub text: String,
    pub consonant: Option<String>,
    pub consonant_length: Option<i64>,
    pub vowel: String,
    pub vowel_length: i64,
    pub pitch: i64,
}

/// Mathematical image of a [`Mora`].
#[verifier::ext_equal]
pub ghost struct MoraV {
    pub text: Seq<char>,
    pub consonant: Option<Seq<char>>,
    pub consonant_length: Option<i64>,
    pub vowel: Seq<char>,
    pub vowel_length: i64,
    pub pitch: i64,
}

impl View for Mora {
    type V = MoraV;

    open spec fn view(&self) -> MoraV {
        MoraV {
            text: self.text@,
            consonant: match self.consonant {
                Some(ref c) => Some(c@),
                None => None,
            },
            consonant_length: self.consonant_length,
            vowel: self.vowel@,
            vowel_length: self.vowel_length,
            pitch: self.pitch,
        }
    }
}

impl Clone for Mora {
    fn clone(&self) -> (r: Mora)
        ensures
            r@ == self@,
    {
        Mora {
            text: self.text.clone(),
            consonant: match self.consonant {
                Some(ref c) => Some(c.clone()),
                None => None,
            },
            consonant_length: self.consonant_length,
            vowel: self.vowel.clone(),
            vowel_length: self.vowel_length,
            pitch: self.pitch,
        }
    }
}

impl Mora {
    /// Deep equality: two moras are equal exactly when their images are.
    pub fn content_eq(&self, other: &Mora) -> (r: bool)
        ensures
            r == (self@ == other@),
    {
        let text_eq = self.text == other.text;
        let consonant_eq = match (&self.consonant, &other.consonant) {
            (Some(a), Some(b)) => a.eq(b),
            (None, None) => true,
            _ => false,
        };
        let consonant_length_eq = match (self.consonant_length, other.consonant_length) {
            (Some(a), Some(b)) => a == b,
            (None, None) => true,
            _ => false,
        };
        let r = text_eq && consonant_eq && consonant_length_eq && self.vowel == other.vowel
            && self.vowel_length == other.vowel_length && self.pitch == other.pitch;
        proof {
            if r {
                assert(self@ =~= other@);
            }
        }
        r
    }
}

/// An accent phrase: an ordered run of moras with one accent position,
/// an optional trailing pause mora and an optional interrogative flag.
#[derive(Debug)]
pub struct AccentPhrase {
    pub moras: Vec<Mora>,
    pub accent: i32,
    pub pause_mora: Option<Mora>,
    pub is_interrogative: Option<bool>,
}

/// Mathematical image of an [`AccentPhrase`].
#[verifier::ext_equal]
pub ghost struct AccentPhraseV {
    pub moras: Seq<MoraV>,
    pub accent: i32,
    pub pause_mora: Option<MoraV>,
    pub is_interrogative: Option<bool>,
}

impl View for AccentPhrase {
    type V = AccentPhraseV;

    open spec fn view(&self) -> AccentPhraseV {
        AccentPhraseV {
            moras: self.moras@.map_values(|m: Mora| m@),
            accent: self.accent,
            pause_mora: match self.pause_mora {
                Some(ref m) => Some(m@),
                None => None,
            },
            is_interrogative: self.is_interrogative,
        }
    }
}

impl Clone for AccentPhrase {
    fn clone(&self) -> (r: AccentPhrase)
        ensures
            r@ == self@,
    {
        let moras = clone_moras(&self.moras);
        let r = AccentPhrase {
            moras,
            accent: self.accent,
            pause_mora: match self.pause_mora {
                Some(ref m) => Some(m.clone()),
                None => None,
            },
            is_interrogative: self.is_interrogative,
        };
        proof {
            assert(r@ =~= self@);
        }
        r
    }
}

/// Clones a mora sequence element by element.
pub fn clone_moras(moras: &Vec<Mora>) -> (r: Vec<Mora>)
    ensures
        r@.map_values(|m: Mora| m@) == moras@.map_values(|m: Mora| m@),
        r@.len() == moras@.len(),
{
    let mut out: Vec<Mora> = Vec::new();
    let mut i: usize = 0;
    while i < moras.len()
        invariant
            i <= moras@.len(),
            out@.len() == i,
            forall|j: int| 0 <= j < i ==> out@[j]@ == moras@[j]@,
        decreases moras@.len() - i,
    {
        out.push(moras[i].clone());
        i += 1;
    }
    proof {
        assert(out@.map_values(|m: Mora| m@) =~= moras@.map_values(|m: Mora| m@));
    }
    out
}

impl AccentPhrase {
    /// Deep equality on accent phrases.
    pub fn content_eq(&self, other: &AccentPhrase) -> (r: bool)
        ensures
            r == (self@ == other@),
    {
        if self.accent != other.accent {
            proof {
                assert(self@ != other@);
            }
            return false;
        }
        let pause_eq = match (&self.pause_mora, &other.pause_mora) {
            (Some(a), Some(b)) => a.content_eq(b),
            (None, None) => true,
            _ => false,
        };
        if !pause_eq {
            proof {
                assert(self@ != other@);
            }
            return false;
        }
        let interrogative_eq = match (self.is_interrogative, other.is_interrogative) {
            (Some(a), Some(b)) => a == b,
            (None, None) => true,
            _ => false,
        };
        if !interrogative_eq {
            proof {
                assert(self@ != other@);
            }
            return false;
        }
        if self.moras.len() != other.moras.len() {
            proof {
                assert(self@.moras.len() != other@.moras.len());
            }
            return false;
        }
        let mut i: usize = 0;
        while i < self.moras.len()
            invariant
                i <= self.moras@.len(),
                self.moras@.len() == other.moras@.len(),
                forall|j: int| 0 <= j < i ==> self.moras@[j]@ == other.moras@[j]@,
            decreases self.moras@.len() - i,
        {
            if !self.moras[i].content_eq(&other.moras[i]) {
                proof {
                    assert(self@.moras[i as int] != other@.moras[i as int]);
                }
                return false;
            }
            i += 1;
        }
        proof {
            assert(self@ =~= other@);
        }
        true
    }
}

/// An accent position is well formed when it points at one of the
/// phrase's moras.
pub open spec fn accent_wf(p: AccentPhraseV) -> bool {
    1 <= p.accent <= p.moras.len()
}

/// Every phrase of the sequence carries a well-formed accent position.
pub open spec fn phrases_accents_wf(aps: Seq<AccentPhraseV>) -> bool {
    forall|k: int| 0 <= k < aps.len() ==> accent_wf(#[trigger] aps[k])
}

/// Clones an accent-phrase sequence element by element.
pub fn clone_accent_phrases(phrases: &Vec<AccentPhrase>) -> (r: Vec<AccentPhrase>)
    ensures
        r@.map_values(|p: AccentPhrase| p@) == phrases@.map_values(|p: AccentPhrase| p@),
        r@.len() == phrases@.len(),
{
    let mut out: Vec<AccentPhrase> = Vec::new();
    let mut i: usize = 0;
    while i < phrases.len()
        invariant
            i <= phrases@.len(),
            out@.len() == i,
            forall|j: int| 0 <= j < i ==> out@[j]@ == phrases@[j]@,
        decreases phrases@.len() - i,
    {
        out.push(phrases[i].clone());
        i += 1;
    }
    proof {
        assert(out@.map_values(|p: AccentPhrase| p@) =~= phrases@.map_values(
            |p: AccentPhrase| p@,
        ));
    }
    out
}

/// Deep equality on accent-phrase sequences.
pub fn accent_phrases_eq(a: &Vec<AccentPhrase>, b: &Vec<AccentPhrase>) -> (r: bool)
    ensures
        r == (a@.map_values(|p: AccentPhrase| p@) == b@.map_values(|p: AccentPhrase| p@)),
{
    if a.len() != b.len() {
        proof {
            assert(a@.map_values(|p: AccentPhrase| p@).len() != b@.map_values(
                |p: AccentPhrase| p@,
            ).len());
        }
        return false;
    }
    let mut i: usize = 0;
    while i < a.len()
        invariant
            i <= a@.len(),
            a@.len() == b@.len(),
            forall|j: int| 0 <= j < i ==> a@[j]@ == b@[j]@,
        decreases a@.len() - i,
    {
        if !a[i].content_eq(&b[i]) {
            proof {
                assert(a@.map_values(|p: AccentPhrase| p@)[i as int] != b@.map_values(
                    |p: AccentPhrase| p@,
                )[i as int]);
            }
            return false;
        }
        i += 1;
    }
    proof {
        assert(a@.map_values(|p: AccentPhrase| p@) =~= b@.map_values(|p: AccentPhrase| p@));
    }
    true
}

/// The full audio query: the accent phrases plus the scalar controls the
/// engine applies when rendering.
pub struct AudioQuery {
    pub accent_phrases: Vec<AccentPhrase>,
    pub speed_scale: i64,
    pub pitch_scale: i64,
    pub intonation_scale: i64,
    pub volume_scale: i64,
    pub pre_phoneme_length: i64,
    pub post_phoneme_length: i64,
    pub output_sampling_rate: i32,
    pub output_stereo: bool,
    pub kana: Option<String>,
}

/// Mathematical image of an [`AudioQuery`].
#[verifier::ext_equal]
pub ghost struct AudioQueryV {
    pub accent_phrases: Seq<AccentPhraseV>,
    pub speed_scale: i64,
    pub pitch_scale: i64,
    pub intonation_scale: i64,
    pub volume_scale: i64,
    pub pre_phoneme_length: i64,
    pub post_phoneme_length: i64,
    pub output_sampling_rate: i32,
    pub output_stereo: bool,
    pub kana: Option<Seq<char>>,
}

impl View for AudioQuery {
    type V = AudioQueryV;

    open spec fn view(&self) -> AudioQueryV {
        AudioQueryV {
            accent_phrases: self.accent_phrases@.map_values(|p: AccentPhrase| p@),
            speed_scale: self.speed_scale,
            pitch_scale: self.pitch_scale,
            intonation_scale: self.intonation_scale,
            volume_scale: self.volume_scale,
            pre_phoneme_length: self.pre_phoneme_length,
            post_phoneme_length: self.post_phoneme_length,
            output_sampling_rate: self.output_sampling_rate,
            output_stereo: self.output_stereo,
            kana: match self.kana {
                Some(ref k) => Some(k@),
                None => None,
            },
        }
    }
}

impl Clone for AudioQuery {
    fn clone(&self) -> (r: AudioQuery)
        ensures
            r@ == self@,
    {
        let r = AudioQuery {
            accent_phrases: clone_accent_phrases(&self.accent_phrases),
            speed_scale: self.speed_scale,
            pitch_scale: self.pitch_scale,
            intonation_scale: self.intonation_scale,
            volume_scale: self.volume_scale,
            pre_phoneme_length: self.pre_phoneme_length,
            post_phoneme_length: self.post_phoneme_length,
            output_sampling_rate: self.output_sampling_rate,
            output_stereo: self.output_stereo,
            kana: match self.kana {
                Some(ref k) => Some(k.clone()),
                None => None,
            },
        };
        proof {
            assert(r@ =~= self@);
        }
        r
    }
}

impl AudioQuery {
    /// Deep equality on audio queries.
    pub fn content_eq(&self, other: &AudioQuery) -> (r: bool)
        ensures
            r == (self@ == other@),
    {
        let kana_eq = match (&self.kana, &other.kana) {
            (Some(a), Some(b)) => a.eq(b),
            (None, None) => true,
            _ => false,
        };
        if !(kana_eq && self.speed_scale == other.speed_scale && self.pitch_scale
            == other.pitch_scale && self.intonation_scale == other.intonation_scale
            && self.volume_scale == other.volume_scale && self.pre_phoneme_length
            == other.pre_phoneme_length && self.post_phoneme_length == other.post_phoneme_length
            && self.output_sampling_rate == other.output_sampling_rate && self.output_stereo
            == other.output_stereo) {
            proof {
                assert(self@ != other@);
            }
            return false;
        }
        let phrases_eq = accent_phrases_eq(&self.accent_phrases, &other.accent_phrases);
        proof {
            if phrases_eq {
                assert(self@ =~= other@);
            }
        }
        phrases_eq
    }
}

/// One entry of a validation failure reported by the engine.
#[derive(Debug)]
pub struct ValidationError {
    pub loc: Vec<String>,
    pub msg: String,
    pub error_type: String,
}

/// A validation failure reported by the engine for a malformed request.
#[derive(Debug)]
pub struct HttpValidationError {
    pub detail: Vec<ValidationError>,
}

/// Response carrying freshly computed accent phrases.
#[derive(Debug)]
pub struct AccentPhrasesResponse {
    pub accent_phrases: Vec<AccentPhrase>,
}

/// Failure to parse an AquesTalk-like kana notation.
#[derive(Debug)]
pub struct KanaParseError {
    pub text: String,
    pub error_name: String,
    pub error_args: String,
}

/// A stored preset of scalar controls for one speaker style.
#[derive(Debug)]
pub struct Preset {
    pub id: i32,
    pub name: String,
    pub speaker_uuid: String,
    pub style_id: i32,
    pub speed_scale: i64,
    pub pitch_scale: i64,
    pub intonation_scale: i64,
    pub volume_scale: i64,
    pub pre_phoneme_length: i64,
    pub post_phoneme_length: i64,
}

/// One emotion style of a speaker.
#[derive(Debug)]
pub struct SpeakerStyle {
    pub name: String,
    pub id: i32,
}

/// A speaker: a character with a set of styles.
#[derive(Debug)]
pub struct Speaker {
    pub name: String,
    pub speaker_uuid: String,
    pub styles: Vec<SpeakerStyle>,
    pub version: Option<String>,
}

/// Which devices the engine can render on.
#[derive(Debug)]
pub struct SupportedDevices {
    pub cpu: bool,
    pub cuda: bool,
    pub dml: Option<bool>,
}

/// The base64 text that `base64::encode` produces for the given bytes
/// (standard alphabet, padded).
pub uninterp spec fn b64_encode_of(bytes: Seq<u8>) -> Seq<char>;

/// What `base64::decode` yields for the given text: the decoded bytes, or
/// nothing when the text is not valid base64.
pub uninterp spec fn b64_decode_of(text: Seq<char>) -> Option<Seq<u8>>;

/// Inputs small enough that encoding cannot overflow its output-size
/// computation.
pub open spec fn fits_b64_encode(bytes: Seq<u8>) -> bool {
    4 * bytes.len() + 4 <= usize::MAX
}

/// Inputs small enough that decoding cannot overflow its length estimate.
pub open spec fn fits_b64_decode(text: Seq<char>) -> bool {
    4 * text.len() + 8 <= usize::MAX
}

/// Relies on base64::encode (standard alphabet, with padding): the output
/// is a pure function of the input bytes, and encoding nothing yields the
/// empty string.
#[verifier::external_body]
pub(crate) fn b64_encode(bytes: &Vec<u8>) -> (r: String)
    requires
        fits_b64_encode(bytes@),
    ensures
        r@ == b64_encode_of(bytes@),
        bytes@.len() == 0 ==> r@.len() == 0,
{
    base64::encode(bytes)
}

/// Relies on base64::decode (standard alphabet, with padding): whether the
/// text decodes, and to which bytes, is a pure function of the text.
#[verifier::external_body]
pub(crate) fn b64_decode(text: &String) -> (r: Option<Vec<u8>>)
    requires
        fits_b64_decode(text@),
    ensures
        match r {
            Some(v) => b64_decode_of(text@) == Some(v@),
            None => b64_decode_of(text@) is None,
        },
{
    base64::decode(text.as_str()).ok()
}

/// A style description as it arrives from the engine, graphics still
/// base64-encoded.
pub struct StyleInfoRaw {
    pub id: i32,
    pub icon: String,
    pub voice_samples: Vec<String>,
}

/// Mathematical image of a [`StyleInfoRaw`].
#[verifier::ext_equal]
pub ghost struct StyleInfoRawV {
    pub id: i32,
    pub icon: Seq<char>,
    pub voice_samples: Seq<Seq<char>>,
}

impl View for StyleInfoRaw {
    type V = StyleInfoRawV;

    open spec fn view(&self) -> StyleInfoRawV {
        StyleInfoRawV {
            id: self.id,
            icon: self.icon@,
            voice_samples: self.voice_samples@.map_values(|s: String| s@),
        }
    }
}

/// A style description with its graphics decoded: the icon as a png file
/// and the voice samples as wav files.
pub struct StyleInfo {
    pub id: i32,
    pub icon: Vec<u8>,
    pub voice_samples: Vec<Vec<u8>>,
}

/// Mathematical image of a [`StyleInfo`].
#[verifier::ext_equal]
pub ghost struct StyleInfoV {
    pub id: i32,
    pub icon: Seq<u8>,
    pub voice_samples: Seq<Seq<u8>>,
}

impl View for StyleInfo {
    type V = StyleInfoV;

    open spec fn view(&self) -> StyleInfoV {
        StyleInfoV {
            id: self.id,
            icon: self.icon@,
            voice_samples: self.voice_samples@.map_values(|v: Vec<u8>| v@),
        }
    }
}

/// Why a raw speaker or style description could not be converted.
#[derive(PartialEq, Eq, Structural, Debug)]
pub enum TryFromRawError {
    Base64Decode,
}

/// The voice samples that survive decoding, in order: entries that are not
/// valid base64 are dropped.
pub open spec fn decoded_samples(samples: Seq<Seq<char>>) -> Seq<Seq<u8>>
    decreases samples.len(),
{
    if samples.len() == 0 {
        Seq::empty()
    } else {
        let rest = decoded_samples(samples.drop_last());
        match b64_decode_of(samples.last()) {
            Some(b) => rest.push(b),
            None => rest,
        }
    }
}

/// Every sample encoded, in order.
pub open spec fn encoded_samples(samples: Seq<Seq<u8>>) -> Seq<Seq<char>> {
    samples.map_values(|b: Seq<u8>| b64_encode_of(b))
}

/// The decoded image of one raw style: defined exactly when its icon
/// decodes.
pub open spec fn style_info_of(raw: StyleInfoRawV) -> Option<StyleInfoV> {
    match b64_decode_of(raw.icon) {
        Some(icon) => Some(
            StyleInfoV { id: raw.id, icon, voice_samples: decoded_samples(raw.voice_samples) },
        ),
        None => None,
    }
}

/// The styles that survive conversion, in order: raw styles whose icon does
/// not decode are dropped.
pub open spec fn decoded_styles(raws: Seq<StyleInfoRawV>) -> Seq<StyleInfoV>
    decreases raws.len(),
{
    if raws.len() == 0 {
        Seq::empty()
    } else {
        let rest = decoded_styles(raws.drop_last());
        match style_info_of(raws.last()) {
            Some(si) => rest.push(si),
            None => rest,
        }
    }
}

/// All base64 fields of one raw style are small enough to decode.
pub open spec fn style_raw_fits(raw: StyleInfoRawV) -> bool {
    &&& fits_b64_decode(raw.icon)
    &&& forall|j: int| 0 <= j < raw.voice_samples.len() ==> fits_b64_decode(raw.voice_samples[j])
}

impl StyleInfo {
    /// Decodes a raw style. Fails exactly when the icon is not valid
    /// base64; voice samples that do not decode are silently dropped.
    pub fn try_from(raw: StyleInfoRaw) -> (r: Result<StyleInfo, TryFromRawError>)
        requires
            style_raw_fits(raw@),
        ensures
            match r {
                Ok(si) => style_info_of(raw@) == Some(si@),
                Err(e) => style_info_of(raw@) is None && e == TryFromRawError::Base64Decode,
            },
    {
        let icon = match b64_decode(&raw.icon) {
            Some(v) => v,
            None => {
                return Err(TryFromRawError::Base64Decode);
            },
        };
        let ghost raw_samples: Seq<Seq<char>> = raw.voice_samples@.map_values(|s: String| s@);
        proof {
            assert forall|j: int| 0 <= j < raw.voice_samples@.len() implies fits_b64_decode(
                raw.voice_samples@[j]@,
            ) by {
                assert(raw@.voice_samples[j] == raw.voice_samples@[j]@);
            }
        }
        let mut voice_samples: Vec<Vec<u8>> = Vec::new();
        let mut i: usize = 0;
        while i < raw.voice_samples.len()
            invariant
                i <= raw.voice_samples@.len(),
                raw_samples == raw.voice_samples@.map_values(|s: String| s@),
                forall|j: int|
                    0 <= j < raw.voice_samples@.len() ==> fits_b64_decode(raw.voice_samples@[j]@),
                voice_samples@.map_values(|v: Vec<u8>| v@) == decoded_samples(
                    raw_samples.take(i as int),
                ),
            decreases raw.voice_samples@.len() - i,
        {
            proof {
                assert(raw_samples.take(i + 1).drop_last() =~= raw_samples.take(i as int));
                assert(raw_samples.take(i + 1).last() == raw.voice_samples@[i as int]@);
            }
            match b64_decode(&raw.voice_samples[i]) {
                Some(v) => {
                    voice_samples.push(v);
                    proof {
                        assert(voice_samples@.map_values(|v: Vec<u8>| v@) =~= decoded_samples(
                            raw_samples.take(i + 1),
                        ));
                    }
                },
                None => {
                    proof {
                        assert(voice_samples@.map_values(|v: Vec<u8>| v@) =~= decoded_samples(
                            raw_samples.take(i + 1),
                        ));
                    }
                },
            }
            i += 1;
        }
        proof {
            assert(raw_samples.take(raw.voice_samples@.len() as int) =~= raw_samples);
        }
        let r = StyleInfo { id: raw.id, icon, voice_samples };
        proof {
            assert(style_info_of(raw@) == Some(r@)) by {
                assert(r@ =~= style_info_of(raw@)->0);
            }
        }
        Ok(r)
    }
}

/// All byte fields of one style are small enough to encode.
pub open spec fn style_fits(si: StyleInfoV) -> bool {
    &&& fits_b64_encode(si.icon)
    &&& forall|j: int| 0 <= j < si.voice_samples.len() ==> fits_b64_encode(si.voice_samples[j])
}

impl StyleInfoRaw {
    /// Encodes a style's graphics back into base64 text.
    pub fn from(si: StyleInfo) -> (r: StyleInfoRaw)
        requires
            style_fits(si@),
        ensures
            r@.id == si@.id,
            r@.icon == b64_encode_of(si@.icon),
            r@.voice_samples == encoded_samples(si@.voice_samples),
    {
        let ghost si_samples: Seq<Seq<u8>> = si.voice_samples@.map_values(|v: Vec<u8>| v@);
        proof {
            assert forall|j: int| 0 <= j < si.voice_samples@.len() implies fits_b64_encode(
                si.voice_samples@[j]@,
            ) by {
                assert(si@.voice_samples[j] == si.voice_samples@[j]@);
            }
        }
        let icon = b64_encode(&si.icon);
        let mut voice_samples: Vec<String> = Vec::new();
        let mut i: usize = 0;
        while i < si.voice_samples.len()
            invariant
                i <= si.voice_samples@.len(),
                si_samples == si.voice_samples@.map_values(|v: Vec<u8>| v@),
                forall|j: int|
                    0 <= j < si.voice_samples@.len() ==> fits_b64_encode(si.voice_samples@[j]@),
                voice_samples@.len() == i,
                forall|j: int|
                    0 <= j < i ==> voice_samples@[j]@ == b64_encode_of(si.voice_samples@[j]@),
            decreases si.voice_samples@.len() - i,
        {
            voice_samples.push(b64_encode(&si.voice_samples[i]));
            i += 1;
        }
        let r = StyleInfoRaw { id: si.id, icon, voice_samples };
        proof {
            assert(r@.voice_samples =~= encoded_samples(si@.voice_samples));
        }
        r
    }
}

/// A speaker description as it arrives from the engine, portrait still
/// base64-encoded.
pub struct SpeakerInfoRaw {
    pub policy: String,
    pub portrait: String,
    pub style_infos: Vec<StyleInfoRaw>,
}

/// Mathematical image of a [`SpeakerInfoRaw`].
#[verifier::ext_equal]
pub ghost struct SpeakerInfoRawV {
    pub policy: Seq<char>,
    pub portrait: Seq<char>,
    pub style_infos: Seq<StyleInfoRawV>,
}

impl View for SpeakerInfoRaw {
    type V = SpeakerInfoRawV;

    open spec fn view(&self) -> SpeakerInfoRawV {
        SpeakerInfoRawV {
            policy: self.policy@,
            portrait: self.portrait@,
            style_infos: self.style_infos@.map_values(|s: StyleInfoRaw| s@),
        }
    }
}

/// A speaker description with its portrait decoded to a png file.
pub struct SpeakerInfo {
    pub policy: String,
    pub portrait: Vec<u8>,
    pub style_infos: Vec<StyleInfo>,
}

/// Mathematical image of a [`SpeakerInfo`].
#[verifier::ext_equal]
pub ghost struct SpeakerInfoV {
    pub policy: Seq<char>,
    pub portrait: Seq<u8>,
    pub style_infos: Seq<StyleInfoV>,
}

impl View for SpeakerInfo {
    type V = SpeakerInfoV;

    open spec fn view(&self) -> SpeakerInfoV {
        SpeakerInfoV {
            policy: self.policy@,
            portrait: self.portrait@,
            style_infos: self.style_infos@.map_values(|s: StyleInfo| s@),
        }
    }
}

/// The decoded image of one raw speaker: defined exactly when its portrait
/// decodes. Styles whose icon does not decode are dropped.
pub open spec fn speaker_info_of(raw: SpeakerInfoRawV) -> Option<SpeakerInfoV> {
    match b64_decode_of(raw.portrait) {
        Some(portrait) => Some(
            SpeakerInfoV {
                policy: raw.policy,
                portrait,
                style_infos: decoded_styles(raw.style_infos),
            },
        ),
        None => None,
    }
}

/// All base64 fields of one raw speaker are small enough to decode.
pub open spec fn speaker_raw_fits(raw: SpeakerInfoRawV) -> bool {
    &&& fits_b64_decode(raw.portrait)
    &&& forall|i: int| 0 <= i < raw.style_infos.len() ==> style_raw_fits(raw.style_infos[i])
}

impl SpeakerInfo {
    /// Decodes a raw speaker. Fails exactly when the portrait is not valid
    /// base64; styles whose icon does not decode are silently dropped.
    pub fn try_from(raw: SpeakerInfoRaw) -> (r: Result<SpeakerInfo, TryFromRawError>)
        requires
            speaker_raw_fits(raw@),
        ensures
            match r {
                Ok(si) => speaker_info_of(raw@) == Some(si@),
                Err(e) => speaker_info_of(raw@) is None && e == TryFromRawError::Base64Decode,
            },
    {
        let portrait = match b64_decode(&raw.portrait) {
            Some(v) => v,
            None => {
                return Err(TryFromRawError::Base64Decode);
            },
        };
        let ghost raw_styles: Seq<StyleInfoRawV> = raw.style_infos@.map_values(
            |s: StyleInfoRaw| s@,
        );
        let mut raws = raw.style_infos;
        proof {
            assert forall|i: int| 0 <= i < raws@.len() implies style_raw_fits(raws@[i]@) by {
                assert(raw_styles[i] == raws@[i]@);
            }
        }
        let ghost all: Seq<StyleInfoRaw> = raws@;
        let mut style_infos: Vec<StyleInfo> = Vec::new();
        while raws.len() > 0
            invariant
                raws@.len() <= all.len(),
                raws@ == all.skip(all.len() - raws@.len()),
                raw_styles == all.map_values(|s: StyleInfoRaw| s@),
                forall|j: int| 0 <= j < all.len() ==> style_raw_fits(all[j]@),
                style_infos@.map_values(|s: StyleInfo| s@) == decoded_styles(
                    raw_styles.take(all.len() - raws@.len()),
                ),
            decreases raws@.len(),
        {
            let ghost i: int = all.len() - raws@.len();
            let sr = raws.remove(0);
            proof {
                assert(sr == all[i]);
                assert(raws@ =~= all.skip(i + 1));
                assert(raw_styles.take(i + 1).drop_last() =~= raw_styles.take(i));
                assert(raw_styles.take(i + 1).last() == all[i]@);
            }
            match StyleInfo::try_from(sr) {
                Ok(si) => {
                    style_infos.push(si);
                    proof {
                        assert(style_infos@.map_values(|s: StyleInfo| s@) =~= decoded_styles(
                            raw_styles.take(i + 1),
                        ));
                    }
                },
                Err(_) => {
                    proof {
                        assert(style_infos@.map_values(|s: StyleInfo| s@) =~= decoded_styles(
                            raw_styles.take(i + 1),
                        ));
                    }
                },
            }
        }
        proof {
            assert(raw_styles.take(all.len() as int) =~= raw_styles);
        }
        let r = SpeakerInfo { policy: raw.policy, portrait, style_infos };
        proof {
            assert(speaker_info_of(raw@) == Some(r@)) by {
                assert(r@ =~= speaker_info_of(raw@)->0);
            }
        }
        Ok(r)
    }
}

/// All byte fields of one speaker are small enough to encode.
pub open spec fn speaker_fits(si: SpeakerInfoV) -> bool {
    &&& fits_b64_encode(si.portrait)
    &&& forall|i: int| 0 <= i < si.style_infos.len() ==> style_fits(si.style_infos[i])
}

impl SpeakerInfoRaw {
    /// Encodes a speaker's graphics back into base64 text.
    pub fn from(si: SpeakerInfo) -> (r: SpeakerInfoRaw)
        requires
            speaker_fits(si@),
        ensures
            r@.policy == si@.policy,
            r@.portrait == b64_encode_of(si@.portrait),
            r@.style_infos.len() == si@.style_infos.len(),
            forall|i: int|
                0 <= i < si@.style_infos.len() ==> {
                    &&& r@.style_infos[i].id == si@.style_infos[i].id
                    &&& r@.style_infos[i].icon == b64_encode_of(si@.style_infos[i].icon)
                    &&& r@.style_infos[i].voice_samples == encoded_samples(
                        si@.style_infos[i].voice_samples,
                    )
                },
    {
        let ghost si_styles: Seq<StyleInfoV> = si.style_infos@.map_values(|s: StyleInfo| s@);
        let portrait = b64_encode(&si.portrait);
        let mut styles = si.style_infos;
        proof {
            assert forall|i: int| 0 <= i < styles@.len() implies style_fits(styles@[i]@) by {
                assert(style_fits(si@.style_infos[i]));
                assert(si@.style_infos[i] == styles@[i]@);
            }
        }
        let ghost all: Seq<StyleInfo> = styles@;
        let mut style_infos: Vec<StyleInfoRaw> = Vec::new();
        while styles.len() > 0
            invariant
                styles@.len() <= all.len(),
                styles@ == all.skip(all.len() - styles@.len()),
                si_styles == all.map_values(|s: StyleInfo| s@),
                forall|j: int| 0 <= j < all.len() ==> style_fits(all[j]@),
                style_infos@.len() == all.len() - styles@.len(),
                forall|j: int|
                    0 <= j < all.len() - styles@.len() ==> {
                        &&& style_infos@[j]@.id == all[j]@.id
                        &&& style_infos@[j]@.icon == b64_encode_of(all[j]@.icon)
                        &&& style_infos@[j]@.voice_samples == encoded_samples(
                            all[j]@.voice_samples,
                        )
                    },
            decreases styles@.len(),
        {
            let ghost i: int = all.len() - styles@.len();
            let s = styles.remove(0);
            proof {
                assert(s == all[i]);
                assert(styles@ =~= all.skip(i + 1));
            }
            style_infos.push(StyleInfoRaw::from(s));
        }
        let r = SpeakerInfoRaw { policy: si.policy, portrait, style_infos };
        proof {
            assert forall|i: int| 0 <= i < si@.style_infos.len() implies {
                &&& r@.style_infos[i].id == si@.style_infos[i].id
                &&& r@.style_infos[i].icon == b64_encode_of(si@.style_infos[i].icon)
                &&& r@.style_infos[i].voice_samples == encoded_samples(
                    si@.style_infos[i].voice_samples,
                )
            } by {
                assert(si@.style_infos[i] == all[i]@);
                assert(r@.style_infos[i] == style_infos@[i]@);
            }
        }
        r
    }
}

} // verus!



