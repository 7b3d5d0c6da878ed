//! The operations on the players. Each one reads the outcome of a run of
//! the program with the arguments of its command.

use vstd::prelude::*;

use crate::error::result_view;
use crate::error::PlayerctlError;
use crate::error::PlayerctlErrorView;
use crate::map::TextMap;
use crate::metadata::metadata_of;
use crate::metadata::parse_metadata;
use crate::metadata::PlayerMetadata;
use crate::metadata::PlayerMetadataView;
use crate::output::response_of;
use crate::output::response_text;
use crate::output::CommandOutput;
use crate::position::parse_positions;
use crate::position::positions_of;
use crate::position::POSITION_DELIMITER;
use crate::status::parse_status;
use crate::status::status_of;
use crate::status::TrackStatus;
use crate::text::lemma_trimmed_idempotent;

verus! {

/// The result of a command that asks for nothing: success if the run
/// succeeded, and the run's failure otherwise.
pub open spec fn done(outcome: Result<CommandOutput, std::io::Error>) -> Result<
    (),
    PlayerctlErrorView,
> {
    match response_of(outcome) {
        Ok(_) => Ok(()),
        Err(e) => Err(e),
    }
}

/// The result of a status query: the status that the response reports.
pub open spec fn status_reported(outcome: Result<CommandOutput, std::io::Error>) -> Result<
    TrackStatus,
    PlayerctlErrorView,
> {
    match outcome {
        Err(e) => Err(PlayerctlErrorView::IoError(e)),
        Ok(out) => if out.succeeded() {
            Ok(status_of(out.stdout@))
        } else {
            Err(PlayerctlErrorView::CommandError { code: out.code, stderr: out.stderr@ })
        },
    }
}

/// The result of a position query: the positions that the response reports.
pub open spec fn positions_reported(outcome: Result<CommandOutput, std::io::Error>) -> Result<
    Map<Seq<char>, u64>,
    PlayerctlErrorView,
> {
    match response_of(outcome) {
        Ok(text) => positions_of(text, POSITION_DELIMITER@),
        Err(e) => Err(e),
    }
}

/// The result of a metadata query: the metadata that the response reports.
pub open spec fn metadata_reported(outcome: Result<CommandOutput, std::io::Error>) -> Result<
    Map<Seq<char>, PlayerMetadataView>,
    PlayerctlErrorView,
> {
    match response_of(outcome) {
        Ok(text) => metadata_of(text),
        Err(e) => Err(e),
    }
}

/// A run that ended without success fails every operation alike: with a
/// command error that holds the exit code and the standard error text of the
/// run, whatever the run printed.
pub proof fn lemma_failed_run_is_command_error(out: CommandOutput)
    requires
        !out.succeeded(),
    ensures
        done(Ok(out)) == Err::<(), PlayerctlErrorView>(
            PlayerctlErrorView::CommandError { code: out.code, stderr: out.stderr@ },
        ),
        status_reported(Ok(out)) == Err::<TrackStatus, PlayerctlErrorView>(
            PlayerctlErrorView::CommandError { code: out.code, stderr: out.stderr@ },
        ),
        positions_reported(Ok(out)) == Err::<Map<Seq<char>, u64>, PlayerctlErrorView>(
            PlayerctlErrorView::CommandError { code: out.code, stderr: out.stderr@ },
        ),
        metadata_reported(Ok(out)) == Err::<Map<Seq<char>, PlayerMetadataView>, PlayerctlErrorView>(
            PlayerctlErrorView::CommandError { code: out.code, stderr: out.stderr@ },
        ),
{
}

/// A run that could not be made fails every operation alike: with the
/// error of the operating system, unchanged.
pub proof fn lemma_refused_run_is_io_error(e: std::io::Error)
    ensures
        done(Err(e)) == Err::<(), PlayerctlErrorView>(PlayerctlErrorView::IoError(e)),
        status_reported(Err(e)) == Err::<TrackStatus, PlayerctlErrorView>(
            PlayerctlErrorView::IoError(e),
        ),
        positions_reported(Err(e)) == Err::<Map<Seq<char>, u64>, PlayerctlErrorView>(
            PlayerctlErrorView::IoError(e),
        ),
        metadata_reported(Err(e)) == Err::<Map<Seq<char>, PlayerMetadataView>, PlayerctlErrorView>(
            PlayerctlErrorView::IoError(e),
        ),
{
}

/// A command that asks for nothing succeeds exactly if its run does.
pub proof fn lemma_done_iff_succeeded(out: CommandOutput)
    ensures
        done(Ok(out)) is Ok <==> out.succeeded(),
{
}

/// Reads the outcome of a command that asks for nothing.
fn finish(outcome: Result<CommandOutput, std::io::Error>) -> (r: Result<(), PlayerctlError>)
    ensures
        result_view(r) == done(outcome),
{
    match response_text(outcome) {
        Ok(_) => Ok(()),
        Err(e) => Err(e),
    }
}

/// # Playerctl
///
/// The operations on the players: each function takes the outcome of a run
/// of the program with the arguments of the command of the same name, and
/// gives the result of the operation.
pub struct Playerctl;

impl Playerctl {
    /// Command the player to play.
    pub fn play(outcome: Result<CommandOutput, std::io::Error>) -> (r: Result<(), PlayerctlError>)
        ensures
            result_view(r) == done(outcome),
    {
        finish(outcome)
    }

    /// Command the player to pause.
    pub fn pause(outcome: Result<CommandOutput, std::io::Error>) -> (r: Result<(), PlayerctlError>)
        ensures
            result_view(r) == done(outcome),
    {
        finish(outcome)
    }

    /// Command the player to toggle between play/pause.
    pub fn play_pause(outcome: Result<CommandOutput, std::io::Error>) -> (r: Result<
        (),
        PlayerctlError,
    >)
        ensures
            result_view(r) == done(outcome),
    {
        finish(outcome)
    }

    /// Command the player to stop.
    pub fn stop(outcome: Result<CommandOutput, std::io::Error>) -> (r: Result<(), PlayerctlError>)
        ensures
            result_view(r) == done(outcome),
    {
        finish(outcome)
    }

    /// Command the player to skip to the next track.
    pub fn next(outcome: Result<CommandOutput, std::io::Error>) -> (r: Result<(), PlayerctlError>)
        ensures
            result_view(r) == done(outcome),
    {
        finish(outcome)
    }

    /// Command the player to skip to the previous track.
    pub fn previous(outcome: Result<CommandOutput, std::io::Error>) -> (r: Result<
        (),
        PlayerctlError,
    >)
        ensures
            result_view(r) == done(outcome),
    {
        finish(outcome)
    }

    /// Command the player to seek forward/backward OFFSET in seconds.
    pub fn position(outcome: Result<CommandOutput, std::io::Error>) -> (r: Result<
        (),
        PlayerctlError,
    >)
        ensures
            result_view(r) == done(outcome),
    {
        finish(outcome)
    }

    /// Get current player positions, in microseconds.
    pub fn get_position(outcome: Result<CommandOutput, std::io::Error>) -> (r: Result<
        TextMap<u64>,
        PlayerctlError,
    >)
        ensures
            result_view(r) == positions_reported(outcome),
    {
        match response_text(outcome) {
            Ok(text) => parse_positions(text.as_str(), POSITION_DELIMITER),
            Err(e) => Err(e),
        }
    }

    /// Raise or lower the volume by an offset in percent.
    pub fn volume(outcome: Result<CommandOutput, std::io::Error>) -> (r: Result<
        (),
        PlayerctlError,
    >)
        ensures
            result_view(r) == done(outcome),
    {
        finish(outcome)
    }

    /// Get the play status of the player.
    pub fn status(outcome: Result<CommandOutput, std::io::Error>) -> (r: Result<
        TrackStatus,
        PlayerctlError,
    >)
        ensures
            match status_reported(outcome) {
                Ok(status) => r == Ok::<TrackStatus, PlayerctlError>(status),
                Err(e) => r matches Err(x) && x@ == e,
            },
    {
        match response_text(outcome) {
            Ok(text) => {
                proof {
                    lemma_trimmed_idempotent(outcome->Ok_0.stdout@);
                }
                Ok(parse_status(text.as_str()))
            },
            Err(e) => Err(e),
        }
    }

    /// Get metadata information for all active players.
    pub fn metadata(outcome: Result<CommandOutput, std::io::Error>) -> (r: Result<
        TextMap<PlayerMetadata>,
        PlayerctlError,
    >)
        ensures
            result_view(r) == metadata_reported(outcome),
    {
        match response_text(outcome) {
            Ok(text) => parse_metadata(text.as_str()),
            Err(e) => Err(e),
        }
    }
}

} // verus!
