//! Local speech recognition: the command line handed to the recognizer and the
//! reading of what it wrote.

use vstd::prelude::*;
use crate::text::{to_owned, trim, trim_spec};

verus! {

/// A stretch of recognized speech with its time span in milliseconds.
#[derive(Clone, Debug)]
pub struct AsrSegment {
    pub start_ms: u64,
    pub end_ms: u64,
    pub text: String,
}

/// A recognized transcript and its segments, when the recognizer gives them.
#[derive(Clone, Debug)]
pub struct AsrOutput {
    pub text: String,
    pub segments: Vec<AsrSegment>,
}

/// Why a local transcription failed.
#[derive(Clone, Debug)]
pub enum AsrError {
    /// The recognizer's path is empty or whitespace.
    SidecarPathEmpty,
    /// The model's path is empty or whitespace.
    ModelPathEmpty,
    /// The recognizer exited unsuccessfully, with its exit code and error output.
    SidecarFailed { code: Option<i32>, stderr: String },
    /// The recognizer wrote an empty transcript.
    EmptyTranscript,
}

/// Checks the two paths that a transcription needs: the recognizer's first.
pub fn check_transcribe_paths(sidecar_path: &str, model_path: &str) -> (r: Result<(), AsrError>)
    ensures
        trim_spec(sidecar_path@).len() == 0 ==> r matches Err(AsrError::SidecarPathEmpty),
        trim_spec(sidecar_path@).len() != 0 && trim_spec(model_path@).len() == 0 ==> r matches Err(
            AsrError::ModelPathEmpty,
        ),
        trim_spec(sidecar_path@).len() != 0 && trim_spec(model_path@).len() != 0 ==> r is Ok,
{
    if trim(sidecar_path).unicode_len() == 0 {
        return Err(AsrError::SidecarPathEmpty);
    }
    if trim(model_path).unicode_len() == 0 {
        return Err(AsrError::ModelPathEmpty);
    }
    Ok(())
}

/// The recognizer's arguments, in order, as a sequence of texts.
pub open spec fn whisper_args_spec(
    model_path: Seq<char>,
    input_wav: Seq<char>,
    language: Seq<char>,
    output_prefix: Seq<char>,
) -> Seq<Seq<char>> {
    seq![
        "-m"@,
        model_path,
        "-f"@,
        input_wav,
        "-l"@,
        language,
        "-nt"@,
        "-of"@,
        output_prefix,
        "-otxt"@,
    ]
}

/// The name of the recognizer's output file (without extension) for the run
/// identified by `id`: `transcript-` then the identifier.
pub fn transcript_output_name(id: &str) -> (r: String)
    ensures
        r@ == "transcript-"@ + id@,
{
    let mut r = to_owned("transcript-");
    crate::text::push_str(&mut r, id);
    r
}

/// The arguments for the recognizer: model, input, language, no timestamps, and a
/// plain-text output file at `output_prefix`.
pub fn whisper_args(model_path: &str, input_wav: &str, language: &str, output_prefix: &str) -> (r:
    Vec<String>)
    ensures
        r@.map_values(|a: String| a@) == whisper_args_spec(
            model_path@,
            input_wav@,
            language@,
            output_prefix@,
        ),
{
    let mut r: Vec<String> = Vec::new();
    r.push(to_owned("-m"));
    r.push(to_owned(model_path));
    r.push(to_owned("-f"));
    r.push(to_owned(input_wav));
    r.push(to_owned("-l"));
    r.push(to_owned(language));
    r.push(to_owned("-nt"));
    r.push(to_owned("-of"));
    r.push(to_owned(output_prefix));
    r.push(to_owned("-otxt"));
    assert(r@.map_values(|a: String| a@) =~= whisper_args_spec(
        model_path@,
        input_wav@,
        language@,
        output_prefix@,
    ));
    r
}

/// Judges how the recognizer exited.
pub fn check_sidecar_exit(success: bool, code: Option<i32>, stderr: String) -> (r: Result<
    (),
    AsrError,
>)
    ensures
        success ==> r is Ok,
        !success ==> (r matches Err(AsrError::SidecarFailed { code: c, stderr: e }) && c == code
            && e@ == stderr@),
{
    if success {
        Ok(())
    } else {
        Err(AsrError::SidecarFailed { code, stderr })
    }
}

/// The transcript that the recognizer wrote: its text trimmed, without segments,
/// and refused when nothing is left.
pub fn transcript_from_text(raw: &str) -> (r: Result<AsrOutput, AsrError>)
    ensures
        trim_spec(raw@).len() == 0 ==> r matches Err(AsrError::EmptyTranscript),
        trim_spec(raw@).len() != 0 ==> (r matches Ok(out) && out.text@ == trim_spec(raw@)
            && out.segments@.len() == 0),
{
    let text = trim(raw);
    if text.unicode_len() == 0 {
        return Err(AsrError::EmptyTranscript);
    }
    Ok(AsrOutput { text: to_owned(text), segments: Vec::new() })
}

} // verus!
