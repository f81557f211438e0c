//! What running the builder came to, and the files that carry it to the client.
use vstd::prelude::*;
use vstd::utf8::*;

use crate::status::{decimal_text, status_text};

verus! {

/// What running the builder came to.
#[derive(Debug, PartialEq, Eq)]
pub enum ExecutionOutcome {
    /// The builder ran to its end.
    Completed { exit_status: u8, stdout: Vec<u8>, stderr: Vec<u8> },
    /// The builder could not be launched.
    LaunchFailed { message: String },
}

/// A file under `result/` that describes an outcome.
#[derive(Debug, Clone, Copy, PartialEq, Eq, Structural)]
pub enum ResultFile {
    Stdout,
    Stderr,
    StatusCode,
    Error,
}

/// The file's name under `result/`.
pub open spec fn result_file_name(f: ResultFile) -> Seq<char> {
    match f {
        ResultFile::Stdout => "stdout"@,
        ResultFile::Stderr => "stderr"@,
        ResultFile::StatusCode => "status_code"@,
        ResultFile::Error => "error"@,
    }
}

impl ResultFile {
    /// The file's name under `result/`.
    pub fn name(&self) -> (r: &'static str)
        ensures
            r@ == result_file_name(*self),
    {
        match self {
            ResultFile::Stdout => "stdout",
            ResultFile::Stderr => "stderr",
            ResultFile::StatusCode => "status_code",
            ResultFile::Error => "error",
        }
    }
}

/// One file to write under `result/`, with its contents.
#[derive(Debug, PartialEq, Eq)]
pub struct ResultEntry {
    pub file: ResultFile,
    pub contents: Vec<u8>,
}

/// The files, with their contents, that stand for an outcome.
pub open spec fn outcome_files(o: ExecutionOutcome) -> Seq<(ResultFile, Seq<u8>)> {
    match o {
        ExecutionOutcome::Completed { exit_status, stdout, stderr } => seq![
            (ResultFile::Stdout, stdout@),
            (ResultFile::Stderr, stderr@),
            (ResultFile::StatusCode, decimal_text(exit_status as nat)),
        ],
        ExecutionOutcome::LaunchFailed { message } => seq![(ResultFile::Error, encode_utf8(message@))],
    }
}

/// The files that stand for a command attempt, or for none where no attempt was made.
pub open spec fn staged_files(attempt: Option<ExecutionOutcome>) -> Seq<(ResultFile, Seq<u8>)> {
    match attempt {
        Some(o) => outcome_files(o),
        None => seq![],
    }
}

/// Some staged file is the given one.
pub open spec fn stages(files: Seq<(ResultFile, Seq<u8>)>, f: ResultFile) -> bool {
    exists|i: int| 0 <= i < files.len() && #[trigger] files[i].0 == f
}

/// The entries with their files and contents.
pub open spec fn entries_view(entries: Seq<ResultEntry>) -> Seq<(ResultFile, Seq<u8>)> {
    entries.map_values(|e: ResultEntry| (e.file, e.contents@))
}

/// The files to write under `result/` for an outcome.
pub fn result_entries(outcome: ExecutionOutcome) -> (r: Vec<ResultEntry>)
    ensures
        entries_view(r@) == outcome_files(outcome),
{
    let mut r: Vec<ResultEntry> = Vec::new();
    match outcome {
        ExecutionOutcome::Completed { exit_status, stdout, stderr } => {
            r.push(ResultEntry { file: ResultFile::Stdout, contents: stdout });
            r.push(ResultEntry { file: ResultFile::Stderr, contents: stderr });
            r.push(ResultEntry { file: ResultFile::StatusCode, contents: status_text(exit_status) });
        },
        ExecutionOutcome::LaunchFailed { message } => {
            let bytes = message.as_str().as_bytes();
            let mut contents: Vec<u8> = Vec::new();
            let mut i: usize = 0;
            while i < bytes.len()
                invariant
                    i <= bytes@.len(),
                    contents@ == bytes@.take(i as int),
                decreases bytes@.len() - i,
            {
                contents.push(bytes[i]);
                i = i + 1;
                proof {
                    assert(bytes@.take(i as int) =~= bytes@.take(i - 1).push(bytes@[i - 1]));
                }
            }
            proof {
                assert(bytes@.take(i as int) =~= bytes@);
            }
            r.push(ResultEntry { file: ResultFile::Error, contents });
        },
    }
    assert(entries_view(r@) =~= outcome_files(outcome));
    r
}

/// A command attempt stages exactly one of `status_code` and `error`; where no
/// attempt was made, neither is staged.
pub proof fn lemma_one_verdict_file(attempt: Option<ExecutionOutcome>)
    ensures
        attempt is Some ==> (stages(staged_files(attempt), ResultFile::StatusCode) != stages(
            staged_files(attempt),
            ResultFile::Error,
        )),
        attempt is None ==> !stages(staged_files(attempt), ResultFile::StatusCode) && !stages(
            staged_files(attempt),
            ResultFile::Error,
        ),
{
    let files = staged_files(attempt);
    match attempt {
        Some(ExecutionOutcome::Completed { .. }) => {
            assert(files[2].0 == ResultFile::StatusCode);
            assert(!stages(files, ResultFile::Error));
        },
        Some(ExecutionOutcome::LaunchFailed { .. }) => {
            assert(files[0].0 == ResultFile::Error);
            assert(!stages(files, ResultFile::StatusCode));
        },
        None => {},
    }
}

} // verus!
