//! The commands that the player-control program understands, and the
//! arguments that each of them is given as.

use vstd::prelude::*;

use crate::position::POSITION_DELIMITER;

verus! {

/// A change of the position or of the volume: its direction and its size.
/// The size is the absolute value in plain decimal writing, in seconds for
/// a position and in percent for a volume.
#[derive(Debug)]
pub struct Offset {
    /// Whether the change goes backwards or down.
    pub negative: bool,
    /// The absolute value of the change.
    pub magnitude: String,
}

/// The sign that the program expects behind the size of a change.
pub open spec fn sign_suffix(negative: bool) -> char {
    if negative {
        '-'
    } else {
        '+'
    }
}

impl Offset {
    /// The argument that the program expects for this change: the size, and
    /// the sign behind it.
    pub open spec fn token_view(&self) -> Seq<char> {
        self.magnitude@.push(sign_suffix(self.negative))
    }

    /// The argument that the program expects for this change. It ends in
    /// `+` if the change is not negative and in `-` if it is, and what stands
    /// before the sign is the size.
    pub fn token(&self) -> (r: String)
        ensures
            r@ == self.token_view(),
            r@.len() == self.magnitude@.len() + 1,
            r@.drop_last() == self.magnitude@,
            !self.negative ==> r@.last() == '+',
            self.negative ==> r@.last() == '-',
    {
        let mut token = self.magnitude.clone();
        token.push(if self.negative {
            '-'
        } else {
            '+'
        });
        token
    }
}

/// An operation on the players.
#[derive(Debug)]
pub enum Command {
    /// Command the player to play.
    Play,
    /// Command the player to pause.
    Pause,
    /// Command the player to toggle between play and pause.
    PlayPause,
    /// Command the player to stop.
    Stop,
    /// Command the player to skip to the next track.
    Next,
    /// Command the player to skip to the previous track.
    Previous,
    /// Command the player to seek forwards or backwards, in seconds.
    Position(Offset),
    /// Command the player to raise or lower the volume, in percent.
    Volume(Offset),
    /// Ask for the play status.
    Status,
    /// Ask for the position of every player, in microseconds.
    GetPosition,
    /// Ask for the metadata of every player.
    Metadata,
}

/// The template of the position query: for each player a line with its
/// name, the delimiter and its position.
pub open spec fn position_template() -> Seq<char> {
    "{{playerName}}"@ + POSITION_DELIMITER@ + "{{position}}"@
}

impl Command {
    /// The arguments of the command, in order.
    pub open spec fn args_view(&self) -> Seq<Seq<char>> {
        match *self {
            Command::Play => seq!["play"@],
            Command::Pause => seq!["pause"@],
            Command::PlayPause => seq!["play-pause"@],
            Command::Stop => seq!["stop"@],
            Command::Next => seq!["next"@],
            Command::Previous => seq!["previous"@],
            Command::Position(offset) => seq!["position"@, offset.token_view()],
            Command::Volume(offset) => seq!["volume"@, offset.token_view()],
            Command::Status => seq!["status"@],
            Command::GetPosition => seq!["status"@, "-a"@, "-f"@, position_template()],
            Command::Metadata => seq!["metadata"@, "-a"@],
        }
    }

    /// The arguments with which the program is to be run for this command.
    pub fn args(&self) -> (r: Vec<String>)
        ensures
            r.deep_view() == self.args_view(),
    {
        let mut args: Vec<String> = Vec::new();
        match self {
            Command::Play => {
                args.push("play".to_string());
            },
            Command::Pause => {
                args.push("pause".to_string());
            },
            Command::PlayPause => {
                args.push("play-pause".to_string());
            },
            Command::Stop => {
                args.push("stop".to_string());
            },
            Command::Next => {
                args.push("next".to_string());
            },
            Command::Previous => {
                args.push("previous".to_string());
            },
            Command::Position(offset) => {
                args.push("position".to_string());
                args.push(offset.token());
            },
            Command::Volume(offset) => {
                args.push("volume".to_string());
                args.push(offset.token());
            },
            Command::Status => {
                args.push("status".to_string());
            },
            Command::GetPosition => {
                let mut template = "{{playerName}}".to_string();
                template.append(POSITION_DELIMITER);
                template.append("{{position}}");
                args.push("status".to_string());
                args.push("-a".to_string());
                args.push("-f".to_string());
                args.push(template);
            },
            Command::Metadata => {
                args.push("metadata".to_string());
                args.push("-a".to_string());
            },
        }
        args
    }
}

} // verus!
