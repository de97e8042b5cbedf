//! The request payloads of the synthesis engine's interface. Each value
//! bundles the plain parameters of one call; performing the call itself
//! is the caller's business (it is network I/O), and any computation a
//! request needs on its payload is done here.

use crate::api_schema::{
    b64_decode_of, encoded_samples, fits_b64_decode, fits_b64_encode, AccentPhrase,
    AudioQuery as AudioQuerySchema,
};
use vstd::prelude::*;

verus! {

/// An optional engine-core version carried by most requests.
pub type CoreVersion = Option<String>;

/// Create the initial synthesis parameters for a text.
pub struct AudioQuery {
    pub text: String,
    pub speaker: i32,
    pub core_version: CoreVersion,
}

/// Create the initial synthesis parameters for a text using a stored
/// preset.
pub struct AudioQueryFromPreset {
    pub text: String,
    pub preset_id: i32,
    pub core_version: CoreVersion,
}

/// Compute accent phrases for a text, optionally parsing it as kana
/// notation.
pub struct AccentPhrases {
    pub text: String,
    pub speaker: i32,
    pub is_kana: Option<bool>,
    pub core_version: CoreVersion,
}

/// Recompute mora pitch and length for the given accent phrases.
pub struct MoraData {
    pub speaker: i32,
    pub core_version: CoreVersion,
    pub accent_phrases: Vec<AccentPhrase>,
}

/// Recompute mora lengths for the given accent phrases.
pub struct MoraLength {
    pub speaker: i32,
    pub core_version: CoreVersion,
    pub accent_phrases: Vec<AccentPhrase>,
}

/// Recompute mora pitch for the given accent phrases.
pub struct MoraPitch {
    pub speaker: i32,
    pub core_version: CoreVersion,
    pub accent_phrases: Vec<AccentPhrase>,
}

/// Render audio for one audio query.
pub struct Synthesis {
    pub speaker: i32,
    pub enable_interrogative_upspeak: Option<bool>,
    pub core_version: CoreVersion,
    pub audio_query: AudioQuerySchema,
}

/// Render audio for one audio query, cancellable on the engine side.
pub struct CancellableSynthesis {
    pub speaker: i32,
    pub core_version: CoreVersion,
    pub audio_query: AudioQuerySchema,
}

/// Render several audio queries at once; the engine answers with a zip of
/// wav files.
pub struct MultiSynthesis {
    pub speaker: i32,
    pub core_version: CoreVersion,
    pub audio_query: Vec<AudioQuerySchema>,
}

/// Join several wav files into one. The engine takes the waves
/// base64-encoded; [`ConnectWaves::encoded_waves`] builds that body.
pub struct ConnectWaves {
    pub waves: Vec<Vec<u8>>,
}

impl ConnectWaves {
    /// The request body: every wav encoded as base64 text, in order.
    pub fn encoded_waves(&self) -> (r: Vec<String>)
        requires
            forall|i: int| 0 <= i < self.waves@.len() ==> fits_b64_encode(self.waves@[i]@),
        ensures
            r@.map_values(|s: String| s@) == encoded_samples(
                self.waves@.map_values(|v: Vec<u8>| v@),
            ),
    {
        let ghost wv: Seq<Seq<u8>> = self.waves@.map_values(|v: Vec<u8>| v@);
        let mut out: Vec<String> = Vec::new();
        let mut i: usize = 0;
        while i < self.waves.len()
            invariant
                i <= self.waves@.len(),
                wv == self.waves@.map_values(|v: Vec<u8>| v@),
                forall|j: int| 0 <= j < self.waves@.len() ==> fits_b64_encode(self.waves@[j]@),
                out@.len() == i,
                forall|j: int|
                    0 <= j < i ==> out@[j]@ == crate::api_schema::b64_encode_of(
                        self.waves@[j]@,
                    ),
            decreases self.waves@.len() - i,
        {
            out.push(crate::api_schema::b64_encode(&self.waves[i]));
            i += 1;
        }
        proof {
            assert(out@.map_values(|s: String| s@) =~= encoded_samples(wv));
        }
        out
    }

    /// The response body decoded: the engine answers with one
    /// base64-encoded wav, and this yields its bytes, or `None` when the
    /// text is not valid base64.
    pub fn decoded_response(text: &String) -> (r: Option<Vec<u8>>)
        requires
            fits_b64_decode(text@),
        ensures
            match r {
                Some(v) => b64_decode_of(text@) == Some(v@),
                None => b64_decode_of(text@) is None,
            },
    {
        crate::api_schema::b64_decode(text)
    }
}

/// List the stored presets.
pub struct Presets;

/// Ask the engine for its version.
pub struct Version;

/// List the installed core versions.
pub struct CoreVersions;

/// List the available speakers.
pub struct Speakers {
    pub core_version: CoreVersion,
}

/// Fetch policy, portrait and style graphics of one speaker.
pub struct SpeakerInfo {
    pub speaker_uuid: String,
    pub core_version: CoreVersion,
}

/// Ask which devices the engine can render on.
pub struct SupportedDevices {
    pub core_version: CoreVersion,
}

} // verus!
