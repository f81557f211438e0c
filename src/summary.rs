//! How a client judges the results it unpacked, and where their artifact goes.
use vstd::prelude::*;

use crate::error::Error;
use crate::status::{parse_status, parse_status_spec};

verus! {

/// The files found under `result/`, as far as the client reads them; a file
/// that is absent, or whose text could not be read, is `None`.
#[derive(Debug, PartialEq, Eq)]
pub struct ResultReport {
    pub error: Option<String>,
    pub stdout: Option<String>,
    pub stderr: Option<String>,
    pub status_code: Option<Vec<u8>>,
}

/// Something the client tells its operator.
#[derive(Debug, PartialEq, Eq)]
pub enum Notice {
    /// The command could not be launched; the server's message.
    LaunchFailure(String),
    /// What the command wrote to its standard output.
    Stdout(String),
    /// What the command wrote to its standard error.
    Stderr(String),
    /// The command exited with this nonzero status.
    ExitStatus(u8),
}

/// What the client tells its operator, and whether the command succeeded.
#[derive(Debug, PartialEq, Eq)]
pub struct Summary {
    pub notices: Vec<Notice>,
    pub verdict: Result<(), Error>,
}

/// The exit status that the report states, if it states one that can be read.
pub open spec fn reported_status(report: ResultReport) -> Option<u8> {
    match report.status_code {
        Some(text) => parse_status_spec(text@),
        None => None,
    }
}

/// The notice for a stream's text: none where it is absent or empty.
pub open spec fn stream_notice(text: Option<String>, stdout: bool) -> Seq<Notice> {
    match text {
        Some(s) => if s@.len() > 0 {
            seq![if stdout { Notice::Stdout(s) } else { Notice::Stderr(s) }]
        } else {
            seq![]
        },
        None => seq![],
    }
}

/// What the client tells its operator about a report.
pub open spec fn summary_notices(report: ResultReport) -> Seq<Notice> {
    match report.error {
        Some(e) => seq![Notice::LaunchFailure(e)],
        None => stream_notice(report.stdout, true) + stream_notice(report.stderr, false) + match reported_status(
            report,
        ) {
            Some(c) => if c != 0 {
                seq![Notice::ExitStatus(c)]
            } else {
                seq![]
            },
            None => seq![],
        },
    }
}

/// Whether a report shows success: a launch failure fails, a readable nonzero
/// status fails with that status, anything else succeeds.
pub open spec fn summary_verdict(report: ResultReport) -> Result<(), Error> {
    if report.error is Some {
        Err(Error::CommandRunFailed)
    } else {
        match reported_status(report) {
            Some(c) => if c != 0 {
                Err(Error::CommandFailedStatusCode(c))
            } else {
                Ok(())
            },
            None => Ok(()),
        }
    }
}

/// Judges the results that the client unpacked.
pub fn summarize(report: ResultReport) -> (r: Summary)
    ensures
        r.notices@ == summary_notices(report),
        r.verdict == summary_verdict(report),
{
    let ghost given = report;
    let ResultReport { error, stdout, stderr, status_code } = report;
    let mut notices: Vec<Notice> = Vec::new();
    if let Some(e) = error {
        notices.push(Notice::LaunchFailure(e));
        assert(notices@ =~= summary_notices(given));
        return Summary { notices, verdict: Err(Error::CommandRunFailed) };
    }
    if let Some(s) = stdout {
        if !s.as_str().is_empty() {
            notices.push(Notice::Stdout(s));
        }
    }
    assert(notices@ =~= stream_notice(given.stdout, true));
    let ghost after_stdout = notices@;
    if let Some(s) = stderr {
        if !s.as_str().is_empty() {
            notices.push(Notice::Stderr(s));
        }
    }
    assert(notices@ =~= after_stdout + stream_notice(given.stderr, false));
    let ghost after_stderr = notices@;
    let status = match status_code {
        Some(text) => parse_status(text.as_slice()),
        None => None,
    };
    let verdict = match status {
        Some(c) => if c != 0 {
            notices.push(Notice::ExitStatus(c));
            Err(Error::CommandFailedStatusCode(c))
        } else {
            Ok(())
        },
        None => Ok(()),
    };
    assert(notices@ =~= summary_notices(given));
    Summary { notices, verdict }
}

/// What a found `result/out` is.
#[derive(Debug, Clone, Copy, PartialEq, Eq, Structural)]
pub enum EntryKind {
    Directory,
    File,
    Other,
}

/// How the artifact reaches the client's `out` destination.
#[derive(Debug, Clone, Copy, PartialEq, Eq, Structural)]
pub enum ArtifactCopy {
    /// Nothing is copied.
    Nothing,
    /// The directory is copied recursively.
    Directory,
    /// The file is copied.
    File,
}

/// How the artifact is propagated, given whether the client's `out` is
/// configured and what, if anything, stands at `result/out`.
pub fn artifact_copy(out_configured: bool, found: Option<EntryKind>) -> (r: ArtifactCopy)
    ensures
        r == (if !out_configured {
            ArtifactCopy::Nothing
        } else {
            match found {
                Some(EntryKind::Directory) => ArtifactCopy::Directory,
                Some(EntryKind::File) => ArtifactCopy::File,
                _ => ArtifactCopy::Nothing,
            }
        }),
{
    if !out_configured {
        return ArtifactCopy::Nothing;
    }
    match found {
        Some(EntryKind::Directory) => ArtifactCopy::Directory,
        Some(EntryKind::File) => ArtifactCopy::File,
        _ => ArtifactCopy::Nothing,
    }
}

} // verus!
