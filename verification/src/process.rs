//! What a finished command leaves behind.
use vstd::prelude::*;

use crate::text;

verus! {

/// The exit state and the output of a command that ran.
#[derive(Debug, Clone, PartialEq)]
pub struct CommandOutput {
    pub success: bool,
    pub stdout: Vec<u8>,
    pub stderr: Vec<u8>,
}

/// The text that `String::from_utf8_lossy` makes of `bytes`.
pub uninterp spec fn lossy_text(bytes: Seq<u8>) -> Seq<char>;

/// `String::from_utf8_lossy`: the result depends on the bytes alone, and valid UTF-8 is decoded as
/// it stands. Which replacement characters stand for bytes that are not valid is left to the name.
#[verifier::external_body]
pub(crate) fn lossy(bytes: &[u8]) -> (decoded: String)
    ensures
        decoded@ == lossy_text(bytes@),
        vstd::utf8::valid_utf8(bytes@) ==> decoded@ == vstd::utf8::decode_utf8(bytes@),
{
    String::from_utf8_lossy(bytes).into_owned()
}

/// The message on a command that reported failure: what it wrote to standard error, trimmed.
pub open spec fn failure_message(prefix: Seq<char>, stderr: Seq<char>) -> Seq<char> {
    prefix + text::trimmed(stderr)
}

/// `prefix` followed by `stderr` without the white space around it.
pub fn failure(prefix: &str, stderr: &str) -> (message: String)
    ensures
        message@ == failure_message(prefix@, stderr@),
{
    let chars = text::chars_of(stderr);
    let inner = text::text_of(text::trim(chars.as_slice()).as_slice());
    prefix.to_string().concat(inner.as_str())
}

/// The message of a command that either could not be run or reported failure.
pub open spec fn trouble(
    output: Result<CommandOutput, String>,
    not_run: Seq<char>,
    failed: Seq<char>,
) -> Option<Seq<char>> {
    match output {
        Err(error) => Some(not_run + error@),
        Ok(output) => if output.success {
            None
        } else {
            Some(failure_message(failed, lossy_text(output.stderr@)))
        },
    }
}

/// The standard output of a command that succeeded; otherwise what went wrong, behind the prefix
/// for a command that did not run or for one that failed.
pub fn stdout_of(output: Result<CommandOutput, String>, not_run: &str, failed: &str) -> (stdout:
    Result<Vec<u8>, String>)
    ensures
        match stdout {
            Ok(bytes) => trouble(output, not_run@, failed@) is None && (output matches Ok(o)
                && bytes == o.stdout),
            Err(message) => trouble(output, not_run@, failed@) == Some(message@),
        },
{
    match output {
        Err(error) => Err(not_run.to_string().concat(error.as_str())),
        Ok(output) => if output.success {
            Ok(output.stdout)
        } else {
            let stderr = lossy(output.stderr.as_slice());
            Err(failure(failed, stderr.as_str()))
        },
    }
}

/// Whether a command that prints nothing of interest succeeded; otherwise what went wrong.
pub fn completed(output: Result<CommandOutput, String>, not_run: &str, failed: &str) -> (result:
    Result<(), String>)
    ensures
        match result {
            Ok(()) => trouble(output, not_run@, failed@) is None,
            Err(message) => trouble(output, not_run@, failed@) == Some(message@),
        },
{
    match stdout_of(output, not_run, failed) {
        Ok(_) => Ok(()),
        Err(message) => Err(message),
    }
}

} // verus!
