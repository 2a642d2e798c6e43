//! What holds of the reports of commands.
use vstd::prelude::*;
use vstd::utf8::decode_utf8;

use crate::command::{command_report, exit_report, git_command, stream_bytes, unicode_report, CommandEnd, StreamEnd};
use crate::encoding::lossy_text;
use crate::number::decimal;
use crate::text::trimmed;

verus! {

/// A command that succeeded reports all that it printed, and nothing of what it
/// complained about.
pub proof fn success_reports_output(
    program: Seq<char>,
    directory: Seq<u8>,
    stdout: Vec<u8>,
    stderr: Vec<u8>,
)
    ensures
        exit_report(true, stdout@, stderr@) == Ok::<Seq<char>, Seq<char>>(lossy_text(stdout@)),
        command_report(
            program,
            directory,
            CommandEnd::Exited {
                success: true,
                stdout: StreamEnd::Bytes(stdout),
                stderr: StreamEnd::Bytes(stderr),
            },
        ) == Ok::<Seq<char>, Seq<char>>(lossy_text(stdout@)),
{
}

/// A command that failed reports its complaint, without the whitespace around it.
/// That is what stands on the error stream, or, where that is blank, on the other.
pub proof fn failure_reports_complaint(
    program: Seq<char>,
    directory: Seq<u8>,
    stdout: Vec<u8>,
    stderr: Vec<u8>,
)
    ensures
        ({
            let complaint = if trimmed(lossy_text(stderr@)).len() == 0 {
                trimmed(lossy_text(stdout@))
            } else {
                trimmed(lossy_text(stderr@))
            };
            &&& exit_report(false, stdout@, stderr@) == Err::<Seq<char>, Seq<char>>(complaint)
            &&& command_report(
                program,
                directory,
                CommandEnd::Exited {
                    success: false,
                    stdout: StreamEnd::Bytes(stdout),
                    stderr: StreamEnd::Bytes(stderr),
                },
            ) == Err::<Seq<char>, Seq<char>>(complaint)
        }),
{
}

/// A stream hands on its bytes. Where one could not be read, that is the report, and
/// the trouble with the output comes first.
pub proof fn unread_stream_is_reported(
    program: Seq<char>,
    directory: Seq<u8>,
    success: bool,
    stdout: StreamEnd,
    stderr: StreamEnd,
    name: Seq<char>,
)
    ensures
        stdout matches StreamEnd::Bytes(bytes) ==> stream_bytes(stdout, name) == Ok::<
            Seq<u8>,
            Seq<char>,
        >(bytes@),
        stdout matches StreamEnd::Failed(error) ==> stream_bytes(stdout, name) == Err::<
            Seq<u8>,
            Seq<char>,
        >("could not read command "@ + name + ": "@ + error@),
        stdout is Panicked ==> stream_bytes(stdout, name) == Err::<Seq<u8>, Seq<char>>(
            "command "@ + name + " reader panicked"@,
        ),
        ({
            let report = command_report(
                program,
                directory,
                CommandEnd::Exited { success, stdout, stderr },
            );
            &&& stdout matches StreamEnd::Failed(error) ==> report == Err::<Seq<char>, Seq<char>>(
                "could not read command "@ + "stdout"@ + ": "@ + error@,
            )
            &&& stdout is Panicked ==> report == Err::<Seq<char>, Seq<char>>(
                "command "@ + "stdout"@ + " reader panicked"@,
            )
            &&& stdout is Bytes ==> (stderr matches StreamEnd::Failed(error) ==> report == Err::<
                Seq<char>,
                Seq<char>,
            >("could not read command "@ + "stderr"@ + ": "@ + error@))
            &&& stdout is Bytes && stderr is Panicked ==> report == Err::<Seq<char>, Seq<char>>(
                "command "@ + "stderr"@ + " reader panicked"@,
            )
        }),
{
}

/// A command that did not start, did not end in its fifteen seconds, or could not be
/// waited for is reported so, by its name.
pub proof fn unfinished_command_is_reported(
    program: Seq<char>,
    directory: Seq<u8>,
    error: String,
)
    ensures
        command_report(program, directory, CommandEnd::NotStarted(error)) == Err::<
            Seq<char>,
            Seq<char>,
        >("could not start "@ + program + " in "@ + lossy_text(directory) + ": "@ + error@),
        command_report(program, directory, CommandEnd::TimedOut) == Err::<Seq<char>, Seq<char>>(
            program + " timed out after "@ + "15"@ + " seconds"@,
        ),
        command_report(program, directory, CommandEnd::WaitFailed(error)) == Err::<
            Seq<char>,
            Seq<char>,
        >("could not wait for "@ + program + ": "@ + error@),
{
    reveal_strlit("15");
    reveal_with_fuel(decimal, 2);
    assert(decimal(15) =~= "15"@);
}

/// Where the streams hold Unicode, what is reported is their text: all that was printed,
/// or, of a failure, the complaint without the whitespace around it.
pub proof fn unicode_is_reported_as_text(stdout: Seq<u8>, stderr: Seq<u8>)
    ensures
        unicode_report(true, stdout, stderr) == Ok::<Seq<char>, Seq<char>>(decode_utf8(stdout)),
        unicode_report(false, stdout, stderr) == Err::<Seq<char>, Seq<char>>(
            if trimmed(decode_utf8(stderr)).len() == 0 {
                trimmed(decode_utf8(stdout))
            } else {
                trimmed(decode_utf8(stderr))
            },
        ),
{
}

/// Git runs in the directory and with the arguments that it is given, and nothing more.
pub proof fn git_runs_as_told(path: Seq<u8>, arguments: Seq<Seq<char>>)
    ensures
        git_command(path, arguments).program == "git"@,
        git_command(path, arguments).directory == path,
        git_command(path, arguments).arguments == arguments,
{
}

} // verus!
