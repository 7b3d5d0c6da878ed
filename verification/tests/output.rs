use playerctl_rust_wrapper::output::response_text;
use playerctl_rust_wrapper::CommandOutput;
use playerctl_rust_wrapper::Playerctl;
use playerctl_rust_wrapper::PlayerctlError;

fn finished(code: Option<i32>, stdout: &str, stderr: &str) -> Result<CommandOutput, std::io::Error> {
    Ok(CommandOutput { code, stdout: stdout.to_string(), stderr: stderr.to_string() })
}

fn refused() -> Result<CommandOutput, std::io::Error> {
    Err(std::io::Error::new(std::io::ErrorKind::PermissionDenied, "not allowed"))
}

#[test]
fn bytes_that_are_utf8_give_their_text() {
    let out = CommandOutput::from_bytes(Some(0), "Playing\n".as_bytes(), "Björk 👾".as_bytes());
    assert_eq!(out.code, Some(0));
    assert_eq!(out.stdout, "Playing\n");
    assert_eq!(out.stderr, "Björk 👾");
}

#[test]
fn bytes_that_are_no_utf8_give_the_replacement_character() {
    let out = CommandOutput::from_bytes(None, b"mpv \xFF title", b"\xC3");
    assert_eq!(out.code, None);
    assert_eq!(out.stdout, "mpv \u{FFFD} title");
    assert_eq!(out.stderr, "\u{FFFD}");
}

#[test]
fn only_the_exit_code_zero_is_success() {
    assert!(CommandOutput::from_bytes(Some(0), b"", b"").success());
    assert!(!CommandOutput::from_bytes(Some(1), b"", b"").success());
    assert!(!CommandOutput::from_bytes(Some(-1), b"", b"").success());
    assert!(!CommandOutput::from_bytes(Some(i32::MIN), b"", b"").success());
    assert!(!CommandOutput::from_bytes(None, b"", b"").success());
}

#[test]
fn the_response_of_a_successful_run_is_its_trimmed_output() {
    assert_eq!(response_text(finished(Some(0), "  a b \n c\r\n\n", "warning")).unwrap(), "a b \n c");
    assert_eq!(response_text(finished(Some(0), "", "")).unwrap(), "");
    assert_eq!(response_text(finished(Some(0), " \n ", "")).unwrap(), "");
}

#[test]
fn the_response_of_a_failed_run_is_a_command_error() {
    match response_text(finished(Some(1), "ignored", "No players found")) {
        Err(PlayerctlError::CommandError { code, stderr }) => {
            assert_eq!(code, Some(1));
            assert_eq!(stderr, "No players found");
        }
        other => panic!("{:?}", other),
    }
    match response_text(finished(None, "", " killed \n")) {
        Err(PlayerctlError::CommandError { code, stderr }) => {
            assert_eq!(code, None);
            assert_eq!(stderr, " killed \n");
        }
        other => panic!("{:?}", other),
    }
}

#[test]
fn the_response_of_a_run_that_could_not_start_is_an_io_error() {
    match response_text(refused()) {
        Err(PlayerctlError::IoError(e)) => assert_eq!(e.kind(), std::io::ErrorKind::PermissionDenied),
        other => panic!("{:?}", other),
    }
}

#[test]
fn a_successful_run_of_a_command_is_ok() {
    assert!(Playerctl::play(finished(Some(0), "", "")).is_ok());
    assert!(Playerctl::pause(finished(Some(0), "", "")).is_ok());
    assert!(Playerctl::play_pause(finished(Some(0), "", "")).is_ok());
    assert!(Playerctl::stop(finished(Some(0), "", "")).is_ok());
    assert!(Playerctl::next(finished(Some(0), "", "")).is_ok());
    assert!(Playerctl::previous(finished(Some(0), "", "")).is_ok());
    assert!(Playerctl::position(finished(Some(0), "", "")).is_ok());
    assert!(Playerctl::volume(finished(Some(0), "anything", "and a warning")).is_ok());
}

fn assert_no_players(result: Result<(), PlayerctlError>) {
    match result {
        Err(PlayerctlError::CommandError { code, stderr }) => {
            assert_eq!(code, Some(1));
            assert_eq!(stderr, "No players found");
        }
        other => panic!("{:?}", other),
    }
}

#[test]
fn a_failed_run_of_a_command_is_a_command_error_with_the_error_text() {
    assert_no_players(Playerctl::play(finished(Some(1), "", "No players found")));
    assert_no_players(Playerctl::pause(finished(Some(1), "", "No players found")));
    assert_no_players(Playerctl::play_pause(finished(Some(1), "", "No players found")));
    assert_no_players(Playerctl::stop(finished(Some(1), "", "No players found")));
    assert_no_players(Playerctl::next(finished(Some(1), "", "No players found")));
    assert_no_players(Playerctl::previous(finished(Some(1), "", "No players found")));
    assert_no_players(Playerctl::position(finished(Some(1), "", "No players found")));
    assert_no_players(Playerctl::volume(finished(Some(1), "", "No players found")));
}

#[test]
fn a_command_that_could_not_run_is_an_io_error() {
    assert!(matches!(Playerctl::play(refused()), Err(PlayerctlError::IoError(_))));
    assert!(matches!(Playerctl::pause(refused()), Err(PlayerctlError::IoError(_))));
    assert!(matches!(Playerctl::play_pause(refused()), Err(PlayerctlError::IoError(_))));
    assert!(matches!(Playerctl::stop(refused()), Err(PlayerctlError::IoError(_))));
    assert!(matches!(Playerctl::next(refused()), Err(PlayerctlError::IoError(_))));
    assert!(matches!(Playerctl::previous(refused()), Err(PlayerctlError::IoError(_))));
    assert!(matches!(Playerctl::position(refused()), Err(PlayerctlError::IoError(_))));
    assert!(matches!(Playerctl::volume(refused()), Err(PlayerctlError::IoError(_))));
    assert!(matches!(Playerctl::get_position(refused()), Err(PlayerctlError::IoError(_))));
    assert!(matches!(Playerctl::metadata(refused()), Err(PlayerctlError::IoError(_))));
}

#[test]
fn the_other_error_holds_a_message() {
    let error = PlayerctlError::Other("unclassified".to_string());
    assert!(matches!(error, PlayerctlError::Other(message) if message == "unclassified"));
}
