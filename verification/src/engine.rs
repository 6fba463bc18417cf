//! The fixed parameter set of a recognition call.
//!
//! The recogniser itself is outside this crate. What is decided here is how
//! it is asked: greedy decoding with a single candidate, a threshold that
//! suppresses segments without speech, deterministic decoding, a language
//! fixed at startup, and no diagnostic output. The two fractional parameters
//! are held in thousandths.

use vstd::prelude::*;

verus! {

/// Parameters handed to the recogniser with every batch.
pub struct RecognitionParams {
    /// Candidates kept by the greedy decoder.
    pub best_of: u32,
    /// Probability of "no speech" above which a segment is dropped, in
    /// thousandths.
    pub no_speech_threshold_thousandths: u32,
    /// Sampling temperature in thousandths; zero decodes deterministically.
    pub temperature_thousandths: u32,
    /// ISO code of the spoken language.
    pub language: String,
    pub print_special: bool,
    pub print_progress: bool,
    pub print_realtime: bool,
    pub print_timestamps: bool,
}

impl RecognitionParams {
    /// The parameter set of the live pipeline for `language`.
    pub fn for_language(language: String) -> (params: Self)
        ensures
            params.best_of == 1,
            params.no_speech_threshold_thousandths == 300,
            params.temperature_thousandths == 0,
            params.language@ == language@,
            !params.print_special,
            !params.print_progress,
            !params.print_realtime,
            !params.print_timestamps,
    {
        RecognitionParams {
            best_of: 1,
            no_speech_threshold_thousandths: 300,
            temperature_thousandths: 0,
            language,
            print_special: false,
            print_progress: false,
            print_realtime: false,
            print_timestamps: false,
        }
    }
}

} // verus!
