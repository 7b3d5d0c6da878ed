//! What a finished run of the player-control program hands back, and how
//! it is told apart into a response text and a failure.

use vstd::prelude::*;
use vstd::utf8::decode_utf8;
use vstd::utf8::valid_utf8;

use crate::error::result_view;
use crate::error::PlayerctlError;
use crate::error::PlayerctlErrorView;
use crate::text::chars_of;
use crate::text::string_of;
use crate::text::trim;
use crate::text::trimmed;

verus! {

/// The text that `String::from_utf8_lossy` makes of a byte sequence.
pub uninterp spec fn lossy_text(bytes: Seq<u8>) -> Seq<char>;

/// `String::from_utf8_lossy`: the text of the bytes, in which the
/// replacement character stands for whatever is no UTF-8. Bytes that are
/// UTF-8 give the text that they encode.
#[verifier::external_body]
fn utf8_lossy(bytes: &[u8]) -> (r: String)
    ensures
        r@ == lossy_text(bytes@),
        valid_utf8(bytes@) ==> r@ == decode_utf8(bytes@),
{
    String::from_utf8_lossy(bytes).into_owned()
}

/// A finished run of the program: its exit code, where it has one, and the
/// text of its two output streams.
#[derive(Debug)]
pub struct CommandOutput {
    pub code: Option<i32>,
    pub stdout: String,
    pub stderr: String,
}

impl CommandOutput {
    /// The output of a run from the bytes that were captured.
    pub fn from_bytes(code: Option<i32>, stdout: &[u8], stderr: &[u8]) -> (r: Self)
        ensures
            r.code == code,
            r.stdout@ == lossy_text(stdout@),
            r.stderr@ == lossy_text(stderr@),
            valid_utf8(stdout@) ==> r.stdout@ == decode_utf8(stdout@),
            valid_utf8(stderr@) ==> r.stderr@ == decode_utf8(stderr@),
    {
        CommandOutput { code, stdout: utf8_lossy(stdout), stderr: utf8_lossy(stderr) }
    }

    /// Whether the run ended with success: with the exit code zero.
    pub open spec fn succeeded(&self) -> bool {
        self.code == Some(0i32)
    }

    /// Whether the run ended with success.
    pub fn success(&self) -> (r: bool)
        ensures
            r == self.succeeded(),
    {
        match self.code {
            Some(code) => code == 0,
            None => false,
        }
    }
}

/// The response of a run. A run that could not be made gives the error of
/// the operating system; one that ended without success gives its exit code
/// and its standard error text; a successful one gives its standard output,
/// trimmed.
pub open spec fn response_of(outcome: Result<CommandOutput, std::io::Error>) -> Result<
    Seq<char>,
    PlayerctlErrorView,
> {
    match outcome {
        Err(e) => Err(PlayerctlErrorView::IoError(e)),
        Ok(out) => if out.succeeded() {
            Ok(trimmed(out.stdout@))
        } else {
            Err(PlayerctlErrorView::CommandError { code: out.code, stderr: out.stderr@ })
        },
    }
}

/// Tells the response text of a run from its failure.
pub fn response_text(outcome: Result<CommandOutput, std::io::Error>) -> (r: Result<
    String,
    PlayerctlError,
>)
    ensures
        result_view(r) == response_of(outcome),
{
    match outcome {
        Err(e) => Err(PlayerctlError::IoError(e)),
        Ok(out) => {
            if out.success() {
                let chars = chars_of(out.stdout.as_str());
                Ok(string_of(trim(chars.as_slice())))
            } else {
                Err(PlayerctlError::CommandError { code: out.code, stderr: out.stderr })
            }
        },
    }
}

} // verus!
