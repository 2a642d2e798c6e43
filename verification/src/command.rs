//! The commands that wtui runs, and what becomes of what they print.
use vstd::prelude::*;
use vstd::string::*;
use vstd::utf8::{decode_utf8, valid_utf8};

use crate::encoding::{from_utf8_lossy, lossy_text};
use crate::number::{decimal, decimal_text};
use crate::path::FilePath;
use crate::text::{join2, join3, trim, trimmed};
use crate::views::{result_view, views, views_push};

verus! {

/// How long a command may run, in seconds.
pub const COMMAND_TIMEOUT_SECONDS: u64 = 15;

/// The variable that is set for each command, so that Git never prompts.
pub const PROMPT_VARIABLE: &'static str = "GIT_TERMINAL_PROMPT";

/// The value of `PROMPT_VARIABLE`.
pub const PROMPT_VALUE: &'static str = "0";

// ── Commands ──────────────────────────────────────────────────────────────

/// A command to run.
#[derive(Debug, PartialEq, Eq)]
pub struct Command {
    pub program: String,
    pub directory: FilePath,
    pub arguments: Vec<String>,
}

/// What a `Command` holds.
pub struct CommandModel {
    pub program: Seq<char>,
    pub directory: Seq<u8>,
    pub arguments: Seq<Seq<char>>,
}

impl View for Command {
    type V = CommandModel;

    open spec fn view(&self) -> CommandModel {
        CommandModel {
            program: self.program@,
            directory: self.directory@,
            arguments: views(self.arguments@),
        }
    }
}

/// Git in the directory `path`.
pub open spec fn git_command(path: Seq<u8>, arguments: Seq<Seq<char>>) -> CommandModel {
    CommandModel { program: "git"@, directory: path, arguments }
}

/// Git in the directory `path`.
pub fn git_with_args(path: &FilePath, arguments: Vec<String>) -> (command: Command)
    ensures
        command@ == git_command(path@, views(arguments@)),
{
    Command { program: "git".to_owned(), directory: path.clone(), arguments }
}

/// The texts as owned strings.
pub fn owned(texts: &[&str]) -> (strings: Vec<String>)
    ensures
        views(strings@) == views(texts@),
{
    let mut strings: Vec<String> = Vec::new();
    for i in 0..texts.len()
        invariant
            views(strings@) == views(texts@).take(i as int),
    {
        let text = texts[i].to_owned();
        proof {
            views_push(strings@, text);
        }
        strings.push(text);
        assert(views(texts@).take(i + 1) == views(texts@).take(i as int).push(text@));
    }
    assert(views(texts@).take(texts@.len() as int) == views(texts@));
    strings
}

/// Git in the directory `path`.
pub fn git(path: &FilePath, arguments: &[&str]) -> (command: Command)
    ensures
        command@ == git_command(path@, views(arguments@)),
{
    git_with_args(path, owned(arguments))
}

// ── Outcomes ──────────────────────────────────────────────────────────────

/// How reading an output stream ended.
#[derive(Debug)]
pub enum StreamEnd {
    Bytes(Vec<u8>),
    Failed(String),
    Panicked,
}

/// How a command ended.
#[derive(Debug)]
pub enum CommandEnd {
    NotStarted(String),
    TimedOut,
    WaitFailed(String),
    Exited { success: bool, stdout: StreamEnd, stderr: StreamEnd },
}

/// What a stream called `name` gave, or why it gave nothing.
pub open spec fn stream_bytes(end: StreamEnd, name: Seq<char>) -> Result<Seq<u8>, Seq<char>> {
    match end {
        StreamEnd::Bytes(bytes) => Ok(bytes@),
        StreamEnd::Failed(error) => Err("could not read command "@ + name + ": "@ + error@),
        StreamEnd::Panicked => Err("command "@ + name + " reader panicked"@),
    }
}

/// What a stream called `name` gave, or why it gave nothing.
pub fn collect_stream(end: StreamEnd, name: &str) -> (bytes: Result<Vec<u8>, String>)
    ensures
        result_view(bytes) == stream_bytes(end, name@),
{
    match end {
        StreamEnd::Bytes(bytes) => Ok(bytes),
        StreamEnd::Failed(error) => {
            let mut message = join3("could not read command ", name, ": ");
            message.append(error.as_str());
            Err(message)
        },
        StreamEnd::Panicked => Err(join3("command ", name, " reader panicked")),
    }
}

/// What a command that exited with these texts reports: what it printed, or, if it
/// failed, its complaint, which stands on the error stream or else on the other.
pub open spec fn text_report(success: bool, stdout: Seq<char>, stderr: Seq<char>) -> Result<
    Seq<char>,
    Seq<char>,
> {
    if success {
        Ok(stdout)
    } else if trimmed(stderr).len() > 0 {
        Err(trimmed(stderr))
    } else {
        Err(trimmed(stdout))
    }
}

/// What a command that exited reports.
pub open spec fn exit_report(success: bool, stdout: Seq<u8>, stderr: Seq<u8>) -> Result<
    Seq<char>,
    Seq<char>,
> {
    text_report(success, lossy_text(stdout), lossy_text(stderr))
}

/// What a command that exited and printed Unicode reports.
pub open spec fn unicode_report(success: bool, stdout: Seq<u8>, stderr: Seq<u8>) -> Result<
    Seq<char>,
    Seq<char>,
> {
    text_report(success, decode_utf8(stdout), decode_utf8(stderr))
}

/// What a command reports.
pub open spec fn command_report(
    program: Seq<char>,
    directory: Seq<u8>,
    end: CommandEnd,
) -> Result<Seq<char>, Seq<char>> {
    match end {
        CommandEnd::NotStarted(error) => Err(
            "could not start "@ + program + " in "@ + lossy_text(directory) + ": "@ + error@,
        ),
        CommandEnd::TimedOut => Err(
            program + " timed out after "@ + decimal(COMMAND_TIMEOUT_SECONDS as nat) + " seconds"@,
        ),
        CommandEnd::WaitFailed(error) => Err(
            "could not wait for "@ + program + ": "@ + error@,
        ),
        CommandEnd::Exited { success, stdout, stderr } => match (
            stream_bytes(stdout, "stdout"@),
            stream_bytes(stderr, "stderr"@),
        ) {
            (Err(error), _) => Err(error),
            (_, Err(error)) => Err(error),
            (Ok(stdout), Ok(stderr)) => exit_report(success, stdout, stderr),
        },
    }
}

/// What a command that exited reports.
pub fn report_exit(success: bool, stdout: &[u8], stderr: &[u8]) -> (report: Result<String, String>)
    ensures
        result_view(report) == exit_report(success, stdout@, stderr@),
        valid_utf8(stdout@) && (success || valid_utf8(stderr@)) ==> result_view(report)
            == unicode_report(success, stdout@, stderr@),
{
    if success {
        return Ok(from_utf8_lossy(stdout));
    }
    let error = trim(from_utf8_lossy(stderr).as_str());
    let fallback = trim(from_utf8_lossy(stdout).as_str());
    if error.as_str().is_empty() {
        Err(fallback)
    } else {
        Err(error)
    }
}

/// What `program`, run in the directory `path`, reports.
pub fn run_command(program: &str, path: &FilePath, end: CommandEnd) -> (report: Result<
    String,
    String,
>)
    ensures
        result_view(report) == command_report(program@, path@, end),
        end matches CommandEnd::Exited {
            success,
            stdout: StreamEnd::Bytes(stdout),
            stderr: StreamEnd::Bytes(stderr),
        } ==> valid_utf8(stdout@) && (success || valid_utf8(stderr@)) ==> result_view(report)
            == unicode_report(success, stdout@, stderr@),
        end matches CommandEnd::NotStarted(error) ==> valid_utf8(path@) ==> result_view(report)
            == Err::<Seq<char>, Seq<char>>(
            "could not start "@ + program@ + " in "@ + decode_utf8(path@) + ": "@ + error@,
        ),
{
    match end {
        CommandEnd::NotStarted(error) => {
            let mut message = join3("could not start ", program, " in ");
            message.append(path.to_text().as_str());
            message.append(": ");
            message.append(error.as_str());
            Err(message)
        },
        CommandEnd::TimedOut => {
            let mut message = join2(program, " timed out after ");
            message.append(decimal_text(COMMAND_TIMEOUT_SECONDS).as_str());
            message.append(" seconds");
            Err(message)
        },
        CommandEnd::WaitFailed(error) => {
            let mut message = join3("could not wait for ", program, ": ");
            message.append(error.as_str());
            Err(message)
        },
        CommandEnd::Exited { success, stdout, stderr } => {
            let stdout = match collect_stream(stdout, "stdout") {
                Ok(bytes) => bytes,
                Err(error) => return Err(error),
            };
            let stderr = match collect_stream(stderr, "stderr") {
                Ok(bytes) => bytes,
                Err(error) => return Err(error),
            };
            report_exit(success, stdout.as_slice(), stderr.as_slice())
        },
    }
}

} // verus!
