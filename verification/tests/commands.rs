use wtui::command::{collect_stream, git, git_with_args, owned, report_exit, run_command, CommandEnd, StreamEnd, COMMAND_TIMEOUT_SECONDS, PROMPT_VALUE, PROMPT_VARIABLE};
use wtui::path::FilePath;

fn exited(success: bool, stdout: &[u8], stderr: &[u8]) -> CommandEnd {
    CommandEnd::Exited {
        success,
        stdout: StreamEnd::Bytes(stdout.to_vec()),
        stderr: StreamEnd::Bytes(stderr.to_vec()),
    }
}

fn report(end: CommandEnd) -> Result<String, String> {
    run_command("git", &FilePath::from_text("/repos/botanic"), end)
}

#[test]
fn git_runs_in_a_directory() {
    let path = FilePath::from_text("/repos/botanic");
    let command = git(&path, &["worktree", "list", "--porcelain"]);
    assert_eq!(command.program, "git");
    assert_eq!(command.directory.bytes, path.bytes);
    assert_eq!(command.arguments, ["worktree", "list", "--porcelain"]);
    let same = git_with_args(&path, owned(&["worktree", "list", "--porcelain"]));
    assert_eq!(same, command);
    assert_eq!((PROMPT_VARIABLE, PROMPT_VALUE), ("GIT_TERMINAL_PROMPT", "0"));
}

#[test]
fn successful_command_reports_what_it_printed() {
    assert_eq!(report(exited(true, b" main \n", b"warning")), Ok(" main \n".to_owned()));
    assert_eq!(report(exited(true, b"", b"")), Ok(String::new()));
    // What is not Unicode is replaced.
    assert_eq!(report(exited(true, b"a\xffb", b"")), Ok("a\u{fffd}b".to_owned()));
}

#[test]
fn failed_command_reports_its_complaint() {
    assert_eq!(report(exited(false, b"out\n", b" fatal: no \n")), Err("fatal: no".to_owned()));
    assert_eq!(report(exited(false, b" out \n", b" \n")), Err("out".to_owned()));
    assert_eq!(report(exited(false, b"", b"")), Err(String::new()));
    assert_eq!(report_exit(false, b"", b"\xff"), Err("\u{fffd}".to_owned()));
}

#[test]
fn command_may_not_start_or_not_end() {
    assert_eq!(
        report(CommandEnd::NotStarted("not found".to_owned())),
        Err("could not start git in /repos/botanic: not found".to_owned()),
    );
    assert_eq!(COMMAND_TIMEOUT_SECONDS, 15);
    assert_eq!(
        report(CommandEnd::TimedOut),
        Err("git timed out after 15 seconds".to_owned()),
    );
    assert_eq!(
        report(CommandEnd::WaitFailed("interrupted".to_owned())),
        Err("could not wait for git: interrupted".to_owned()),
    );
}

#[test]
fn output_may_be_unreadable() {
    assert_eq!(
        report(CommandEnd::Exited {
            success: true,
            stdout: StreamEnd::Failed("broken".to_owned()),
            stderr: StreamEnd::Panicked,
        }),
        Err("could not read command stdout: broken".to_owned()),
    );
    assert_eq!(
        report(CommandEnd::Exited {
            success: true,
            stdout: StreamEnd::Bytes(Vec::new()),
            stderr: StreamEnd::Panicked,
        }),
        Err("command stderr reader panicked".to_owned()),
    );
    assert_eq!(collect_stream(StreamEnd::Bytes(vec![1, 2]), "stdout"), Ok(vec![1, 2]));
}
