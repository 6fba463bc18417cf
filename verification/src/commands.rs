//! Names and command lines of the file tools that stand beside the pipeline.
//!
//! The tools themselves (an external transcoder, an external diarization
//! script) are run by the caller. What is decided here is how they are
//! called, where their output goes, and what their outcome means.

use vstd::prelude::*;
use vstd::string::*;
use crate::text::{replace_all, replaced, texts_of};

verus! {

/// Arguments of the transcoder that extract the audio of `input` as MP3 into
/// `output`, at the best variable bit rate.
pub open spec fn mp3_command_line(input: Seq<char>, output: Seq<char>) -> Seq<Seq<char>> {
    seq!["-i"@, input, "-q:a"@, "0"@, "-map"@, "a"@, output]
}

/// Arguments of the transcoder that extract the audio of `input` as WAV into
/// `output`: no video, 44100 Hz, two channels, an existing file overwritten.
pub open spec fn wav_command_line(input: Seq<char>, output: Seq<char>) -> Seq<Seq<char>> {
    seq![
        "-i"@,
        input,
        "-vn"@,
        "-ar"@,
        "44100"@,
        "-ac"@,
        "2"@,
        "-f"@,
        "wav"@,
        output,
        "-y"@,
    ]
}

/// Builds the arguments for an MP3 extraction.
pub fn mp3_arguments(input: &str, output: &str) -> (arguments: Vec<String>)
    ensures
        texts_of(arguments@) == mp3_command_line(input@, output@),
{
    let mut arguments: Vec<String> = Vec::new();
    arguments.push("-i".to_owned());
    arguments.push(input.to_owned());
    arguments.push("-q:a".to_owned());
    arguments.push("0".to_owned());
    arguments.push("-map".to_owned());
    arguments.push("a".to_owned());
    arguments.push(output.to_owned());
    assert(texts_of(arguments@) == mp3_command_line(input@, output@));
    arguments
}

/// Builds the arguments for a WAV extraction.
pub fn wav_arguments(input: &str, output: &str) -> (arguments: Vec<String>)
    ensures
        texts_of(arguments@) == wav_command_line(input@, output@),
{
    let mut arguments: Vec<String> = Vec::new();
    arguments.push("-i".to_owned());
    arguments.push(input.to_owned());
    arguments.push("-vn".to_owned());
    arguments.push("-ar".to_owned());
    arguments.push("44100".to_owned());
    arguments.push("-ac".to_owned());
    arguments.push("2".to_owned());
    arguments.push("-f".to_owned());
    arguments.push("wav".to_owned());
    arguments.push(output.to_owned());
    arguments.push("-y".to_owned());
    assert(texts_of(arguments@) == wav_command_line(input@, output@));
    arguments
}

/// Where the WAV form of an M4A file goes: the same name with every `.m4a`
/// in it turned into `.wav`.
pub fn wav_path_for(input: &str) -> (output: String)
    ensures
        output@ == replaced(input@, ".m4a"@, ".wav"@),
{
    replace_all(input, ".m4a", ".wav")
}

/// Where the diarization of a WAV file goes: the name with `.txt` behind it
/// and every `.wav` taken out.
pub fn diarization_path_for(input: &str) -> (output: String)
    ensures
        output@ == replaced(input@ + ".txt"@, ".wav"@, Seq::empty()),
{
    let mut named = input.to_owned();
    named.append(".txt");
    proof {
        reveal_strlit("");
        assert(""@ == Seq::<char>::empty());
    }
    replace_all(named.as_str(), ".wav", "")
}

/// What the transcoder tools say of an input file that is not there.
pub fn missing_input_message(input: &str) -> (message: String)
    ensures
        message@ == "not found: "@ + input@,
{
    let mut message = "not found: ".to_owned();
    message.append(input);
    message
}

/// What a run of the transcoder amounts to: success where it ended with
/// success, else the error `failed to convert`.
pub fn transcoder_outcome(succeeded: bool) -> (outcome: Result<(), String>)
    ensures
        outcome is Ok <==> succeeded,
        outcome matches Err(message) ==> message@ == "failed to convert"@,
{
    if succeeded {
        Ok(())
    } else {
        Err("failed to convert".to_owned())
    }
}

/// What the diarization tool says of an input file that is not there.
pub fn diarizer_missing_input_message(input: &str) -> (message: String)
    ensures
        message@ == "入力ファイルが見つかりません: "@ + input@,
{
    let mut message = "入力ファイルが見つかりません: ".to_owned();
    message.append(input);
    message
}

/// What a run of the diarization script amounts to.
///
/// A run that ended with success is a success; `Ok(true)` says that the
/// script printed something, which is then written to the output file, and
/// `Ok(false)` that it printed nothing and no file is written. A run that
/// failed gives an error that quotes what the script wrote as its errors.
pub fn diarizer_outcome(succeeded: bool, output_is_empty: bool, errors: &str) -> (outcome: Result<
    bool,
    String,
>)
    ensures
        outcome is Ok <==> succeeded,
        outcome matches Ok(write_output) ==> write_output == !output_is_empty,
        outcome matches Err(message) ==> message@ == "diarizer.pyの実行に失敗しました: "@ + errors@,
{
    if succeeded {
        Ok(!output_is_empty)
    } else {
        let mut message = "diarizer.pyの実行に失敗しました: ".to_owned();
        message.append(errors);
        Err(message)
    }
}

} // verus!
