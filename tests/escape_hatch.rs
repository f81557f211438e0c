use escape_hatch::cli::{builder_exe, client_request, runtime_directory, EnvValue, Subcommand};
use escape_hatch::error::Error;
use escape_hatch::outcome::{result_entries, ExecutionOutcome, ResultEntry, ResultFile};
use escape_hatch::protocol::{decode_request, encode_request};
use escape_hatch::status::{exit_status, parse_status, status_text};
use escape_hatch::summary::{artifact_copy, summarize, ArtifactCopy, EntryKind, Notice, ResultReport};
use escape_hatch::transport::{select_transport, single_socket, Transport};
use std::str::FromStr;

fn strings(words: &[&str]) -> Vec<String> {
    words.iter().map(|w| w.to_string()).collect()
}

fn report(
    error: Option<&str>,
    stdout: Option<&str>,
    stderr: Option<&str>,
    status_code: Option<&[u8]>,
) -> ResultReport {
    ResultReport {
        error: error.map(|s| s.to_string()),
        stdout: stdout.map(|s| s.to_string()),
        stderr: stderr.map(|s| s.to_string()),
        status_code: status_code.map(|b| b.to_vec()),
    }
}

#[test]
fn request_encodes_joined_with_terminator() {
    let bytes = encode_request(&strings(&["build", "--fast", "x"]));
    assert_eq!(bytes, b"build --fast x\0".to_vec());
}

#[test]
fn request_round_trips_without_spaces() {
    let args = strings(&["build", "", "ünïcode", "--flag=1"]);
    let bytes = encode_request(&args);
    assert_eq!(decode_request(&bytes), Ok(args));
}

#[test]
fn request_with_space_is_lossy() {
    let args = strings(&["two words", "x"]);
    let bytes = encode_request(&args);
    assert_eq!(decode_request(&bytes), Ok(strings(&["two", "words", "x"])));
}

#[test]
fn request_decoding_stops_at_terminator() {
    assert_eq!(decode_request(b"a b\0c d"), Ok(strings(&["a", "b"])));
    assert_eq!(decode_request(b"\0"), Ok(strings(&[""])));
}

#[test]
fn request_without_terminator_is_rejected() {
    assert_eq!(decode_request(b"a b"), Err(Error::UnterminatedRequest));
    assert_eq!(decode_request(b""), Err(Error::UnterminatedRequest));
    assert_eq!(decode_request(b"\xff"), Err(Error::UnterminatedRequest));
}

#[test]
fn request_invalid_utf8_is_rejected() {
    assert_eq!(decode_request(b"ok \xff\xfe\0"), Err(Error::InvalidArgs));
}

#[test]
fn client_needs_arguments() {
    assert_eq!(client_request(&Vec::new()), Err(Error::NoArgs));
    assert_eq!(client_request(&strings(&["a", "b"])), Ok(b"a b\0".to_vec()));
}

#[test]
fn subcommand_words() {
    assert_eq!(Subcommand::from_str("client"), Ok(Subcommand::Client));
    assert_eq!(Subcommand::from_str("server"), Ok(Subcommand::Server));
    assert_eq!(Subcommand::from_str("serve"), Err(Error::UnknownSubcommand));
    assert_eq!(Subcommand::from_str("Client"), Err(Error::UnknownSubcommand));
    assert_eq!(Subcommand::from_first(None), Err(Error::MissingSubcommand));
    let word = "client".to_string();
    assert_eq!(Subcommand::from_first(Some(&word)), Ok(Subcommand::Client));
}

#[test]
fn builder_exe_needs_exactly_one() {
    assert_eq!(builder_exe(Vec::new()), Err(Error::MissingBuilderExe));
    assert_eq!(builder_exe(strings(&["a", "b"])), Err(Error::InvalidBuilderExe));
    assert_eq!(builder_exe(strings(&["/bin/builder"])), Ok("/bin/builder".to_string()));
}

#[test]
fn runtime_directory_values() {
    assert_eq!(runtime_directory(EnvValue::Absent), Err(Error::MissingRuntimeDirectory));
    assert_eq!(runtime_directory(EnvValue::NotUnicode), Err(Error::BadRuntimeDirectory));
    assert_eq!(runtime_directory(EnvValue::Present("/run/x".to_string())), Ok("/run/x".to_string()));
}

#[test]
fn transport_prefers_socket_path() {
    let r = select_transport(Some("/run/hatch.sock".to_string()), Some("127.0.0.1:9000".to_string()));
    assert_eq!(r, Ok(Transport::UnixSocket("/run/hatch.sock".to_string())));
}

#[test]
fn transport_choices() {
    assert_eq!(
        select_transport(Some("/s".to_string()), None),
        Ok(Transport::UnixSocket("/s".to_string()))
    );
    assert_eq!(
        select_transport(None, Some("127.0.0.1:9000".to_string())),
        Ok(Transport::Network("127.0.0.1:9000".to_string()))
    );
    assert_eq!(select_transport(None, None), Err(Error::UnknownServerLocation));
}

#[test]
fn socket_acquisition_counts() {
    assert_eq!(single_socket(&Vec::new()), Err(Error::MissingSocket));
    assert_eq!(single_socket(&vec![3]), Ok(3));
    assert_eq!(single_socket(&vec![3, 4]), Err(Error::TooManySockets));
    assert_eq!(single_socket(&vec![3, 4, 5]), Err(Error::TooManySockets));
}

#[test]
fn exit_status_clamps() {
    assert_eq!(exit_status(None), 0);
    assert_eq!(exit_status(Some(3)), 3);
    assert_eq!(exit_status(Some(-1)), 0);
    assert_eq!(exit_status(Some(300)), 255);
}

#[test]
fn status_text_is_decimal() {
    assert_eq!(status_text(0), b"0".to_vec());
    assert_eq!(status_text(7), b"7".to_vec());
    assert_eq!(status_text(42), b"42".to_vec());
    assert_eq!(status_text(255), b"255".to_vec());
}

#[test]
fn status_parsing() {
    assert_eq!(parse_status(b"0"), Some(0));
    assert_eq!(parse_status(b"255"), Some(255));
    assert_eq!(parse_status(b"+12"), Some(12));
    assert_eq!(parse_status(b"007"), Some(7));
    assert_eq!(parse_status(b"256"), None);
    assert_eq!(parse_status(b""), None);
    assert_eq!(parse_status(b"+"), None);
    assert_eq!(parse_status(b"-1"), None);
    assert_eq!(parse_status(b"3\n"), None);
    for n in 0..=255u8 {
        assert_eq!(parse_status(&status_text(n)), Some(n));
    }
}

#[test]
fn result_file_names() {
    assert_eq!(ResultFile::Stdout.name(), "stdout");
    assert_eq!(ResultFile::Stderr.name(), "stderr");
    assert_eq!(ResultFile::StatusCode.name(), "status_code");
    assert_eq!(ResultFile::Error.name(), "error");
}

#[test]
fn completed_outcome_stages_status_not_error() {
    let entries = result_entries(ExecutionOutcome::Completed {
        exit_status: 0,
        stdout: b"hi".to_vec(),
        stderr: Vec::new(),
    });
    assert_eq!(
        entries,
        vec![
            ResultEntry { file: ResultFile::Stdout, contents: b"hi".to_vec() },
            ResultEntry { file: ResultFile::Stderr, contents: Vec::new() },
            ResultEntry { file: ResultFile::StatusCode, contents: b"0".to_vec() },
        ]
    );
}

#[test]
fn launch_failure_stages_error_only() {
    let entries = result_entries(ExecutionOutcome::LaunchFailed {
        message: "No such file or directory (os error 2)".to_string(),
    });
    assert_eq!(
        entries,
        vec![ResultEntry {
            file: ResultFile::Error,
            contents: b"No such file or directory (os error 2)".to_vec(),
        }]
    );
}

#[test]
fn builder_success_propagates_artifact() {
    let entries = result_entries(ExecutionOutcome::Completed {
        exit_status: exit_status(Some(0)),
        stdout: Vec::new(),
        stderr: Vec::new(),
    });
    assert_eq!(entries[2].file, ResultFile::StatusCode);
    assert_eq!(entries[2].contents, b"0".to_vec());
    let summary = summarize(report(None, Some(""), Some(""), Some(&entries[2].contents)));
    assert_eq!(summary.notices, Vec::new());
    assert_eq!(summary.verdict, Ok(()));
    assert_eq!(artifact_copy(true, Some(EntryKind::File)), ArtifactCopy::File);
    assert_eq!(artifact_copy(true, Some(EntryKind::Directory)), ArtifactCopy::Directory);
}

#[test]
fn builder_status_three_fails() {
    let summary = summarize(report(None, Some(""), Some(""), Some(b"3")));
    assert_eq!(summary.notices, vec![Notice::ExitStatus(3)]);
    assert_eq!(summary.verdict, Err(Error::CommandFailedStatusCode(3)));
    assert_eq!(artifact_copy(true, None), ArtifactCopy::Nothing);
}

#[test]
fn missing_builder_reports_launch_failure() {
    let entries = result_entries(ExecutionOutcome::LaunchFailed { message: "not found".to_string() });
    assert_eq!(entries.len(), 1);
    assert_eq!(entries[0].file, ResultFile::Error);
    let summary = summarize(report(Some("not found"), None, None, None));
    assert_eq!(summary.notices, vec![Notice::LaunchFailure("not found".to_string())]);
    assert_eq!(summary.verdict, Err(Error::CommandRunFailed));
}

#[test]
fn summary_prints_streams_in_order() {
    let summary = summarize(report(None, Some("out"), Some("err"), Some(b"0")));
    assert_eq!(
        summary.notices,
        vec![Notice::Stdout("out".to_string()), Notice::Stderr("err".to_string())]
    );
    assert_eq!(summary.verdict, Ok(()));
}

#[test]
fn summary_error_short_circuits() {
    let summary = summarize(report(Some("boom"), Some("out"), None, Some(b"4")));
    assert_eq!(summary.notices, vec![Notice::LaunchFailure("boom".to_string())]);
    assert_eq!(summary.verdict, Err(Error::CommandRunFailed));
}

#[test]
fn summary_malformed_status_passes() {
    let summary = summarize(report(None, None, None, Some(b"oops")));
    assert_eq!(summary.notices, Vec::new());
    assert_eq!(summary.verdict, Ok(()));
    let none = summarize(report(None, None, None, None));
    assert_eq!(none.verdict, Ok(()));
}

#[test]
fn artifact_needs_out_configured() {
    assert_eq!(artifact_copy(false, Some(EntryKind::File)), ArtifactCopy::Nothing);
    assert_eq!(artifact_copy(true, Some(EntryKind::Other)), ArtifactCopy::Nothing);
}
