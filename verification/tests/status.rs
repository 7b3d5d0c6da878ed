use playerctl_rust_wrapper::status::parse_status;
use playerctl_rust_wrapper::CommandOutput;
use playerctl_rust_wrapper::Playerctl;
use playerctl_rust_wrapper::PlayerctlError;
use playerctl_rust_wrapper::TrackStatus;

fn finished(code: Option<i32>, stdout: &str, stderr: &str) -> Result<CommandOutput, std::io::Error> {
    Ok(CommandOutput { code, stdout: stdout.to_string(), stderr: stderr.to_string() })
}

#[test]
fn playing_with_a_line_feed_is_playing() {
    assert_eq!(parse_status("Playing\n"), TrackStatus::Playing);
}

#[test]
fn paused_is_paused() {
    assert_eq!(parse_status("Paused"), TrackStatus::Paused);
}

#[test]
fn any_other_text_is_stopped() {
    for text in ["", "Foo", "Stopped", "playing", "PLAYING", "paused", "Playing Paused", "Playin",
        "Playing!", "Play ing", "\n", "No players found"]
    {
        assert_eq!(parse_status(text), TrackStatus::Stopped);
    }
}

#[test]
fn whitespace_around_the_status_is_ignored() {
    assert_eq!(parse_status("  Playing\r\n"), TrackStatus::Playing);
    assert_eq!(parse_status("\t\u{A0}Paused\u{3000}"), TrackStatus::Paused);
    assert_eq!(parse_status("\u{200B}Paused"), TrackStatus::Stopped);
}

#[test]
fn reading_a_status_again_gives_the_same() {
    for text in ["Playing\n", "Paused", "", "Foo", " Playing "] {
        let first = parse_status(text);
        assert_eq!(parse_status(text), first);
        assert_eq!(parse_status(text.trim()), first);
    }
}

#[test]
fn status_of_a_successful_run() {
    assert_eq!(Playerctl::status(finished(Some(0), "Playing\n", "")).unwrap(), TrackStatus::Playing);
    assert_eq!(Playerctl::status(finished(Some(0), "Paused\n", "")).unwrap(), TrackStatus::Paused);
    assert_eq!(Playerctl::status(finished(Some(0), "Stopped\n", "")).unwrap(), TrackStatus::Stopped);
    assert_eq!(Playerctl::status(finished(Some(0), "", "")).unwrap(), TrackStatus::Stopped);
}

#[test]
fn status_of_a_failed_run_is_a_command_error() {
    match Playerctl::status(finished(Some(1), "Playing\n", "No players found")) {
        Err(PlayerctlError::CommandError { code, stderr }) => {
            assert_eq!(code, Some(1));
            assert_eq!(stderr, "No players found");
        }
        other => panic!("{:?}", other),
    }
}

#[test]
fn status_of_a_run_that_could_not_start_is_an_io_error() {
    let refused = std::io::Error::new(std::io::ErrorKind::NotFound, "playerctl");
    match Playerctl::status(Err(refused)) {
        Err(PlayerctlError::IoError(e)) => {
            assert_eq!(e.kind(), std::io::ErrorKind::NotFound);
            assert_eq!(e.to_string(), "playerctl");
        }
        other => panic!("{:?}", other),
    }
}
