//! The play status that the program reports.

use vstd::prelude::*;

use crate::text::chars_of;
use crate::text::spells;
use crate::text::trim;
use crate::text::trimmed;

verus! {

/// The current track status.
#[derive(Debug, Clone, Copy, PartialEq, Eq, Structural)]
pub enum TrackStatus {
    /// Track is playing.
    Playing,
    /// Track is paused.
    Paused,
    /// Track is stopped.
    Stopped,
}

/// The status that a text reports: its whitespace at both ends aside,
/// `Playing` and `Paused` mean what they say, in exactly this spelling, and
/// every other text means `Stopped`.
pub open spec fn status_of(text: Seq<char>) -> TrackStatus {
    let t = trimmed(text);
    if t == "Playing"@ {
        TrackStatus::Playing
    } else if t == "Paused"@ {
        TrackStatus::Paused
    } else {
        TrackStatus::Stopped
    }
}

/// Reads a play status.
pub fn parse_status(text: &str) -> (r: TrackStatus)
    ensures
        r == status_of(text@),
{
    let chars = chars_of(text);
    let word = trim(chars.as_slice());
    if spells(word, "Playing") {
        TrackStatus::Playing
    } else if spells(word, "Paused") {
        TrackStatus::Paused
    } else {
        TrackStatus::Stopped
    }
}

/// The status of a text is the status of the same text trimmed: reading a
/// text that was trimmed before changes nothing.
pub proof fn lemma_status_of_trimmed(text: Seq<char>)
    ensures
        status_of(trimmed(text)) == status_of(text),
{
    crate::text::lemma_trimmed_idempotent(text);
}

} // verus!
