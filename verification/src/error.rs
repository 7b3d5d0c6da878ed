//! The ways in which an operation on the player-control program fails.

use vstd::prelude::*;

verus! {

/// The error with which the operating system refuses to start or to talk to
/// a program.
#[verifier::external_type_specification]
#[verifier::external_body]
pub struct ExIoError(std::io::Error);

/// Playerctl errors.
#[derive(Debug)]
pub enum PlayerctlError {
    /// The program could not be started or spoken to.
    IoError(std::io::Error),
    /// The program ran and ended without success: its exit code, where it
    /// has one, and what it wrote to its standard error stream.
    CommandError { code: Option<i32>, stderr: String },
    /// A length or a position is no unsigned 64-bit decimal number; the
    /// variant holds the text that was found in its place.
    ParseLengthError(String),
    /// A percent-encoded value could not be decoded; the variant holds the
    /// value as it was printed.
    ParseUrlError(String),
    /// A failure of no other kind.
    Other(String),
}

/// A `PlayerctlError` with its texts as sequences of characters.
pub enum PlayerctlErrorView {
    IoError(std::io::Error),
    CommandError { code: Option<i32>, stderr: Seq<char> },
    ParseLengthError(Seq<char>),
    ParseUrlError(Seq<char>),
    Other(Seq<char>),
}

impl View for PlayerctlError {
    type V = PlayerctlErrorView;

    open spec fn view(&self) -> PlayerctlErrorView {
        match *self {
            PlayerctlError::IoError(e) => PlayerctlErrorView::IoError(e),
            PlayerctlError::CommandError { code, stderr } => PlayerctlErrorView::CommandError {
                code,
                stderr: stderr@,
            },
            PlayerctlError::ParseLengthError(t) => PlayerctlErrorView::ParseLengthError(t@),
            PlayerctlError::ParseUrlError(t) => PlayerctlErrorView::ParseUrlError(t@),
            PlayerctlError::Other(t) => PlayerctlErrorView::Other(t@),
        }
    }
}

/// A result with its value and its error seen through their views.
pub open spec fn result_view<T: View>(r: Result<T, PlayerctlError>) -> Result<
    T::V,
    PlayerctlErrorView,
> {
    match r {
        Ok(t) => Ok(t@),
        Err(e) => Err(e@),
    }
}

} // verus!
