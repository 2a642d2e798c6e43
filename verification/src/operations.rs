//! What wtui does with Git, one request at a time.
use vstd::prelude::*;
use vstd::string::*;
use vstd::utf8::{decode_utf8, encode_utf8, valid_utf8};

use crate::command::{git, git_command, git_with_args, owned, Command, CommandModel};
use crate::diff::{list_remotes, remote_list};
use crate::encoding::lossy_text;
use crate::lines::{trimmed_lines, trimmed_lines_of};
use crate::path::{file_name, joined, parent, same_path, FilePath};
use crate::porcelain::{listed_worktrees, parse_status_summary, parse_worktree_list, status_of, RawWorktree, RawWorktreeModel, StatusModel, StatusSummary};
use crate::slug::{slug, slugify};
use crate::state::{NewRepository, NewRepositoryModel, Refresh, Worktree, WorktreeModel};
use crate::step::{step_result_view, Report, Request, RequestModel, Step, Transcript, TranscriptModel};
use crate::text::{is_blank, join2, join3, trim, trimmed};
use crate::views::{option_view, position, position_is, position_is_none, result_view, views, views_push};

verus! {

// ── Is it a repository? ───────────────────────────────────────────────────

/// Asks Git for the top directory of the repository that `path` lies in.
pub open spec fn top_level_query(path: Seq<u8>) -> RequestModel {
    RequestModel::Run(git_command(path, seq!["rev-parse"@, "--show-toplevel"@]))
}

/// The repository that the directory `path` lies in, by the report at `report_at`
/// and the resolved path at `resolved_at`.
pub open spec fn validate_step(
    path: Seq<u8>,
    answers: TranscriptModel,
    report_at: nat,
    resolved_at: nat,
) -> Step<RequestModel, Result<NewRepositoryModel, Seq<char>>> {
    if report_at >= answers.reports.len() {
        Step::Ask(top_level_query(path))
    } else {
        match answers.reports[report_at as int] {
            Err(error) => Step::Done(Err(error)),
            Ok(top) => if resolved_at >= answers.resolved.len() {
                Step::Ask(RequestModel::Canonicalize(encode_utf8(trimmed(top))))
            } else {
                match answers.resolved[resolved_at as int] {
                    Err(error) => Step::Done(Err(trimmed(top) + ": "@ + error)),
                    Ok(resolved) => Step::Done(
                        Ok(NewRepositoryModel { id: lossy_text(resolved), path: resolved }),
                    ),
                }
            },
        }
    }
}

/// The repository that the directory `path` lies in.
pub fn validate_repository(
    path: &FilePath,
    transcript: &Transcript,
    report_at: usize,
    resolved_at: usize,
) -> (step: Step<Request, Result<NewRepository, String>>)
    ensures
        step_result_view(step) == validate_step(
            path@,
            transcript@,
            report_at as nat,
            resolved_at as nat,
        ),
{
    if report_at >= transcript.reports.len() {
        let arguments = vec!["rev-parse", "--show-toplevel"];
        assert(views(arguments@) == seq!["rev-parse"@, "--show-toplevel"@]);
        return Step::Ask(Request::Run(git(path, arguments.as_slice())));
    }
    assert(transcript@.reports[report_at as int] == result_view(
        transcript.reports@[report_at as int],
    ));
    match &transcript.reports[report_at] {
        Err(error) => Step::Done(Err(error.clone())),
        Ok(output) => {
            let top_level = trim(output.as_str());
            if resolved_at >= transcript.resolved.len() {
                return Step::Ask(Request::Canonicalize(FilePath::from_text(top_level.as_str())));
            }
            assert(transcript@.resolved[resolved_at as int] == result_view(
                transcript.resolved@[resolved_at as int],
            ));
            match &transcript.resolved[resolved_at] {
                Err(error) => Step::Done(
                    Err(join3(top_level.as_str(), ": ", error.as_str())),
                ),
                Ok(resolved) => Step::Done(
                    Ok(NewRepository { id: resolved.to_text(), path: resolved.clone() }),
                ),
            }
        },
    }
}

// ── The state of a worktree ───────────────────────────────────────────────

/// Asks Git for the status of the worktree at `path`.
pub open spec fn status_query(path: Seq<u8>) -> RequestModel {
    RequestModel::Run(
        git_command(
            path,
            seq!["status"@, "--porcelain=v2"@, "--branch"@, "--ignored"@, "-z"@],
        ),
    )
}

/// The status that a report tells of, or why there is none.
pub open spec fn reported_status(report: Report) -> Result<StatusModel, Seq<char>> {
    match report {
        Ok(output) => Ok(status_of(output)),
        Err(error) => Err(error),
    }
}

/// The status of the worktree at `path`, by the report at `at`.
pub open spec fn status_summary_step(path: Seq<u8>, reports: Seq<Report>, at: nat) -> Step<
    RequestModel,
    Result<StatusModel, Seq<char>>,
> {
    if at < reports.len() {
        Step::Done(reported_status(reports[at as int]))
    } else {
        Step::Ask(status_query(path))
    }
}

/// The status of the worktree at `path`, by the report at `at`.
pub fn status_summary(path: &FilePath, transcript: &Transcript, at: usize) -> (step: Step<
    Request,
    Result<StatusSummary, String>,
>)
    ensures
        step_result_view(step) == status_summary_step(path@, transcript@.reports, at as nat),
{
    if at < transcript.reports.len() {
        assert(transcript@.reports[at as int] == result_view(transcript.reports@[at as int]));
        match &transcript.reports[at] {
            Ok(output) => Step::Done(Ok(parse_status_summary(output.as_str()))),
            Err(error) => Step::Done(Err(error.clone())),
        }
    } else {
        let arguments = vec!["status", "--porcelain=v2", "--branch", "--ignored", "-z"];
        assert(views(arguments@) == seq![
            "status"@,
            "--porcelain=v2"@,
            "--branch"@,
            "--ignored"@,
            "-z"@,
        ]);
        Step::Ask(Request::Run(git(path, arguments.as_slice())))
    }
}

/// Asks Git for the worktrees of the repository at `root`.
pub open spec fn worktree_list_query(root: Seq<u8>) -> RequestModel {
    RequestModel::Run(git_command(root, seq!["worktree"@, "list"@, "--porcelain"@]))
}

/// Asks Git for the worktrees of the repository at `root`.
fn list_worktrees(root: &FilePath) -> (request: Request)
    ensures
        request@ == worktree_list_query(root@),
{
    let arguments = vec!["worktree", "list", "--porcelain"];
    assert(views(arguments@) == seq!["worktree"@, "list"@, "--porcelain"@]);
    Request::Run(git(root, arguments.as_slice()))
}

// ── Refreshing a repository ───────────────────────────────────────────────

/// What is known of a listed worktree. Where its status could not be had, the
/// error stands in place of it.
pub open spec fn seen_worktree(
    root: Seq<u8>,
    raw: RawWorktreeModel,
    has_remote: bool,
    status: Result<StatusModel, Seq<char>>,
) -> WorktreeModel {
    let plain = WorktreeModel {
        path: raw.path,
        branch: raw.branch,
        is_main: same_path(raw.path, root),
        locked: raw.locked,
        dirty_files: 0,
        ignored_files: 0,
        upstream: None,
        ahead: None,
        behind: None,
        has_remote,
        error: None,
    };
    match status {
        Ok(status) => WorktreeModel {
            dirty_files: status.dirty_files,
            ignored_files: status.ignored_files,
            upstream: status.upstream,
            ahead: status.ahead,
            behind: status.behind,
            ..plain
        },
        Err(error) => WorktreeModel { error: Some(error), ..plain },
    }
}

/// What is known of each listed worktree: its status stands in the reports from
/// the third on.
pub open spec fn seen_worktrees(
    root: Seq<u8>,
    raws: Seq<RawWorktreeModel>,
    has_remote: bool,
    reports: Seq<Report>,
) -> Seq<WorktreeModel> {
    Seq::new(
        raws.len(),
        |i: int| seen_worktree(root, raws[i], has_remote, reported_status(reports[i + 2])),
    )
}

/// The worktrees of the repository at `root`. Git is asked for their list, for the
/// remotes, and then for the status of each.
pub open spec fn refresh_step(root: Seq<u8>, reports: Seq<Report>) -> Step<
    RequestModel,
    Result<Seq<WorktreeModel>, Seq<char>>,
> {
    if reports.len() == 0 {
        Step::Ask(worktree_list_query(root))
    } else {
        match reports[0] {
            Err(error) => Step::Done(Err(error)),
            Ok(list) => match listed_worktrees(list) {
                Err(error) => Step::Done(Err(error)),
                Ok(raws) => if reports.len() == 1 {
                    Step::Ask(remote_list(root))
                } else {
                    match reports[1] {
                        Err(error) => Step::Done(Err(error)),
                        Ok(remotes) => if reports.len() < 2 + raws.len() {
                            Step::Ask(status_query(raws[reports.len() - 2].path))
                        } else {
                            Step::Done(
                                Ok(
                                    seen_worktrees(
                                        root,
                                        raws,
                                        trimmed(remotes).len() > 0,
                                        reports,
                                    ),
                                ),
                            )
                        },
                    }
                },
            },
        }
    }
}

/// What is known of a listed worktree.
fn see_worktree(
    root: &FilePath,
    raw: &RawWorktree,
    has_remote: bool,
    status: Result<StatusSummary, String>,
) -> (worktree: Worktree)
    ensures
        worktree@ == seen_worktree(root@, raw@, has_remote, result_view(status)),
{
    let is_main = raw.path.same_path(root);
    match status {
        Ok(status) => Worktree {
            path: raw.path.clone(),
            branch: raw.branch.clone(),
            is_main,
            locked: raw.locked,
            dirty_files: status.dirty_files,
            ignored_files: status.ignored_files,
            upstream: status.upstream,
            ahead: status.ahead,
            behind: status.behind,
            has_remote,
            error: None,
        },
        Err(error) => Worktree {
            path: raw.path.clone(),
            branch: raw.branch.clone(),
            is_main,
            locked: raw.locked,
            dirty_files: 0,
            ignored_files: 0,
            upstream: None,
            ahead: None,
            behind: None,
            has_remote,
            error: Some(error),
        },
    }
}

/// The worktrees of the repository at `root`.
pub fn refresh_repository(root: &FilePath, transcript: &Transcript) -> (step: Step<
    Request,
    Result<Refresh, String>,
>)
    ensures
        step_result_view(step) == refresh_step(root@, transcript@.reports),
{
    if transcript.reports.len() == 0 {
        return Step::Ask(list_worktrees(root));
    }
    assert(transcript@.reports[0] == result_view(transcript.reports@[0]));
    let raws = match &transcript.reports[0] {
        Err(error) => return Step::Done(Err(error.clone())),
        Ok(list) => match parse_worktree_list(list.as_str()) {
            Err(error) => return Step::Done(Err(error)),
            Ok(raws) => raws,
        },
    };
    if transcript.reports.len() == 1 {
        return Step::Ask(list_remotes(root));
    }
    assert(transcript@.reports[1] == result_view(transcript.reports@[1]));
    let has_remote = match &transcript.reports[1] {
        Err(error) => return Step::Done(Err(error.clone())),
        Ok(remotes) => !is_blank(remotes.as_str()),
    };
    let mut worktrees: Vec<Worktree> = Vec::new();
    let ghost all = seen_worktrees(root@, views(raws@), has_remote, transcript@.reports);
    for i in 0..raws.len()
        invariant
            transcript.reports.len() >= i + 2,
            all == seen_worktrees(root@, views(raws@), has_remote, transcript@.reports),
            views(worktrees@) == all.take(i as int),
            refresh_step(root@, transcript@.reports) == if transcript@.reports.len() < 2
                + raws@.len() {
                Step::Ask(status_query(views(raws@)[transcript@.reports.len() - 2].path))
            } else {
                Step::Done(Ok::<Seq<WorktreeModel>, Seq<char>>(all))
            },
    {
        match status_summary(&raws[i].path, transcript, i + 2) {
            Step::Ask(request) => return Step::Ask(request),
            Step::Done(status) => {
                let worktree = see_worktree(root, &raws[i], has_remote, status);
                assert(worktree@ == all[i as int]);
                proof {
                    views_push(worktrees@, worktree);
                }
                worktrees.push(worktree);
                assert(all.take(i + 1) == all.take(i as int).push(worktree@));
            },
        }
    }
    assert(all.take(raws@.len() as int) == all);
    Step::Done(Ok(Refresh { worktrees }))
}

// ── Adding a worktree ─────────────────────────────────────────────────────

/// Asks Git whether `branch` can be the name of a branch.
pub open spec fn branch_check(root: Seq<u8>, branch: Seq<char>) -> RequestModel {
    RequestModel::Run(git_command(root, seq!["check-ref-format"@, "--branch"@, branch]))
}

/// Tells Git to add a worktree at `target`, with a new branch.
pub open spec fn add_command(root: Seq<u8>, branch: Seq<char>, target: Seq<u8>) -> RequestModel {
    RequestModel::Run(
        git_command(root, seq!["worktree"@, "add"@, "-b"@, branch, lossy_text(target)]),
    )
}

/// Where the worktree of `branch` goes: beside the repository, under the name of
/// the repository and the slug of the branch.
pub open spec fn worktree_target(root: Seq<u8>, branch: Seq<char>) -> Result<Seq<u8>, Seq<char>> {
    match file_name(root) {
        Some(name) => if valid_utf8(name) {
            match parent(root) {
                Some(directory) => Ok(
                    joined(directory, encode_utf8(decode_utf8(name) + "-"@ + slug(branch))),
                ),
                None => Err("the root repository has no parent directory"@),
            }
        } else {
            Err("the root repository name is not valid Unicode"@)
        },
        None => Err("the root repository name is not valid Unicode"@),
    }
}

/// The path of a new worktree with a new branch. Git is asked whether the name of
/// the branch will do; nothing may stand in the way.
pub open spec fn add_step(root: Seq<u8>, branch: Seq<char>, answers: TranscriptModel) -> Step<
    RequestModel,
    Result<Seq<u8>, Seq<char>>,
> {
    let name = trimmed(branch);
    if answers.reports.len() == 0 {
        Step::Ask(branch_check(root, name))
    } else {
        match answers.reports[0] {
            Err(error) => Step::Done(Err(error)),
            Ok(_) => match worktree_target(root, name) {
                Err(error) => Step::Done(Err(error)),
                Ok(target) => if answers.present.len() == 0 {
                    Step::Ask(RequestModel::CheckExists(target))
                } else if answers.present[0] {
                    Step::Done(Err(lossy_text(target) + " already exists"@))
                } else if answers.reports.len() == 1 {
                    Step::Ask(add_command(root, name, target))
                } else {
                    match answers.reports[1] {
                        Err(error) => Step::Done(Err(error)),
                        Ok(_) => Step::Done(Ok(target)),
                    }
                },
            },
        }
    }
}

/// Where the worktree of `branch` goes.
pub fn target_of(root: &FilePath, branch: &str) -> (target: Result<FilePath, String>)
    ensures
        result_view(target) == worktree_target(root@, branch@),
{
    let root_name = match root.file_name_text() {
        Some(name) => name,
        None => return Err("the root repository name is not valid Unicode".to_owned()),
    };
    let directory = match root.parent() {
        Some(directory) => directory,
        None => return Err("the root repository has no parent directory".to_owned()),
    };
    let name = join3(root_name.as_str(), "-", slugify(branch).as_str());
    Ok(directory.join(name.as_str()))
}

/// The path of a new worktree with a new branch.
pub fn add_worktree(root: &FilePath, branch: &str, transcript: &Transcript) -> (step: Step<
    Request,
    Result<FilePath, String>,
>)
    ensures
        step_result_view(step) == add_step(root@, branch@, transcript@),
{
    let branch = trim(branch);
    if transcript.reports.len() == 0 {
        let arguments = vec!["check-ref-format", "--branch", branch.as_str()];
        assert(views(arguments@) == seq!["check-ref-format"@, "--branch"@, branch@]);
        return Step::Ask(Request::Run(git(root, arguments.as_slice())));
    }
    assert(transcript@.reports[0] == result_view(transcript.reports@[0]));
    if let Err(error) = &transcript.reports[0] {
        return Step::Done(Err(error.clone()));
    }
    let target = match target_of(root, branch.as_str()) {
        Err(error) => return Step::Done(Err(error)),
        Ok(target) => target,
    };
    if transcript.present.len() == 0 {
        return Step::Ask(Request::CheckExists(target));
    }
    if transcript.present[0] {
        return Step::Done(Err(join2(target.to_text().as_str(), " already exists")));
    }
    if transcript.reports.len() == 1 {
        let place = target.to_text();
        let arguments = vec!["worktree", "add", "-b", branch.as_str(), place.as_str()];
        assert(views(arguments@) == seq![
            "worktree"@,
            "add"@,
            "-b"@,
            branch@,
            lossy_text(target@),
        ]);
        return Step::Ask(Request::Run(git_with_args(root, owned(arguments.as_slice()))));
    }
    assert(transcript@.reports[1] == result_view(transcript.reports@[1]));
    match &transcript.reports[1] {
        Err(error) => Step::Done(Err(error.clone())),
        Ok(_) => Step::Done(Ok(target)),
    }
}

// ── Removing a worktree ───────────────────────────────────────────────────

/// Tells Git to remove the worktree at `path`, with what it holds if `force` is set.
pub open spec fn remove_command(root: Seq<u8>, path: Seq<u8>, force: bool) -> RequestModel {
    RequestModel::Run(
        git_command(
            root,
            if force {
                seq!["worktree"@, "remove"@, "--force"@, lossy_text(path)]
            } else {
                seq!["worktree"@, "remove"@, lossy_text(path)]
            },
        ),
    )
}

/// Where the worktree at `path` stands in a list.
pub open spec fn raw_at(raws: Seq<RawWorktreeModel>, path: Seq<u8>) -> Option<int> {
    position(raws, |raw: RawWorktreeModel| same_path(raw.path, path))
}

/// Asks GitHub's command-line tool for the pull requests whose head is called
/// `branch`. For each of them there is a line with its state, whether its head lies
/// in another repository, and the name of its head, with tabs between them.
pub open spec fn merged_query(root: Seq<u8>, branch: Seq<char>) -> RequestModel {
    RequestModel::Run(
        CommandModel {
            program: "gh"@,
            directory: root,
            arguments: seq![
                "pr"@,
                "list"@,
                "--head"@,
                branch,
                "--state"@,
                "all"@,
                "--limit"@,
                "100"@,
                "--json"@,
                "state,isCrossRepository,headRefName"@,
                "--jq"@,
                ".[] | [.state, .isCrossRepository, .headRefName] | @tsv"@,
            ],
        },
    )
}

/// Whether a report tells that `branch` was merged: one of its pull requests was, and
/// none is open. Only those count whose head is `branch` in this repository.
pub open spec fn tells_merged(report: Report, branch: Seq<char>) -> bool {
    report matches Ok(text) && trimmed_lines(text).contains("MERGED\tfalse\t"@ + branch)
        && !trimmed_lines(text).contains("OPEN\tfalse\t"@ + branch)
}

/// Tells Git to delete `branch`.
pub open spec fn branch_delete(root: Seq<u8>, branch: Seq<char>) -> RequestModel {
    RequestModel::Run(git_command(root, seq!["branch"@, "-D"@, branch]))
}

/// What becomes of the branch of a worktree that was removed: Git is told to delete
/// it where its pull request was merged, and it stays where that is not known. The
/// pull requests stand in the fourth report. The worktree is gone either way, also
/// where Git does not delete the branch.
pub open spec fn branch_step(
    root: Seq<u8>,
    branch: Option<Seq<char>>,
    reports: Seq<Report>,
) -> Step<RequestModel, Result<(), Seq<char>>> {
    match branch {
        None => Step::Done(Ok(())),
        Some(name) => if reports.len() <= 3 {
            Step::Ask(merged_query(root, name))
        } else if tells_merged(reports[3], name) && reports.len() == 4 {
            Step::Ask(branch_delete(root, name))
        } else {
            Step::Done(Ok(()))
        },
    }
}

/// The removal of a listed worktree that is not the root. It holds nothing
/// uncommitted or ignored, or `force` is set. Its branch goes with it where the
/// pull request of the branch was merged.
pub open spec fn removal_step(
    root: Seq<u8>,
    path: Seq<u8>,
    branch: Option<Seq<char>>,
    force: bool,
    reports: Seq<Report>,
) -> Step<RequestModel, Result<(), Seq<char>>> {
    match status_summary_step(path, reports, 1) {
        Step::Ask(request) => Step::Ask(request),
        Step::Done(Err(error)) => Step::Done(Err(error)),
        Step::Done(Ok(status)) => if (status.dirty_files > 0 || status.ignored_files > 0)
            && !force {
            Step::Done(
                Err("the worktree has uncommitted or ignored files; confirm forced removal"@),
            )
        } else if reports.len() == 2 {
            Step::Ask(remove_command(root, path, force))
        } else {
            match reports[2] {
                Err(error) => Step::Done(Err(error)),
                Ok(_) => branch_step(root, branch, reports),
            }
        },
    }
}

/// The removal of the worktree at `target`. It has to be one of the repository at
/// `root` still, and not the root itself. Where the pull request of its branch was
/// merged, the branch is deleted too.
pub open spec fn remove_step(
    root: Seq<u8>,
    target: Seq<u8>,
    force: bool,
    answers: TranscriptModel,
) -> Step<RequestModel, Result<(), Seq<char>>> {
    if answers.reports.len() == 0 {
        Step::Ask(worktree_list_query(root))
    } else {
        match answers.reports[0] {
            Err(error) => Step::Done(Err(error)),
            Ok(list) => match listed_worktrees(list) {
                Err(error) => Step::Done(Err(error)),
                Ok(raws) => if answers.resolved.len() == 0 {
                    Step::Ask(RequestModel::Canonicalize(target))
                } else {
                    match answers.resolved[0] {
                        Err(error) => Step::Done(Err(lossy_text(target) + ": "@ + error)),
                        Ok(resolved) => match raw_at(raws, resolved) {
                            None => Step::Done(
                                Err("the worktree no longer belongs to this repository"@),
                            ),
                            Some(at) => if same_path(raws[at].path, root) {
                                Step::Done(Err("the root worktree cannot be removed"@))
                            } else {
                                removal_step(
                                    root,
                                    raws[at].path,
                                    raws[at].branch,
                                    force,
                                    answers.reports,
                                )
                            },
                        },
                    }
                },
            },
        }
    }
}

/// Where the worktree at `path` stands in a list.
fn raw_index(raws: &Vec<RawWorktree>, path: &FilePath) -> (at: Option<usize>)
    ensures
        match at {
            Some(i) => i < raws@.len() && raw_at(views(raws@), path@) == Some(i as int),
            None => raw_at(views(raws@), path@) is None,
        },
{
    let ghost test = |raw: RawWorktreeModel| same_path(raw.path, path@);
    for i in 0..raws.len()
        invariant
            test == (|raw: RawWorktreeModel| same_path(raw.path, path@)),
            forall|j: int| 0 <= j < i ==> !test(#[trigger] views(raws@)[j]),
    {
        if raws[i].path.same_path(path) {
            proof {
                position_is(views(raws@), test, i as int);
            }
            return Some(i);
        }
        assert(!test(views(raws@)[i as int]));
    }
    proof {
        position_is_none(views(raws@), test);
    }
    None
}

/// Whether one of the `lines` reads `wanted`.
fn has_line(lines: &Vec<String>, wanted: &String) -> (found: bool)
    ensures
        found == views(lines@).contains(wanted@),
{
    for i in 0..lines.len()
        invariant
            forall|j: int| 0 <= j < i ==> #[trigger] views(lines@)[j] != wanted@,
    {
        assert(views(lines@)[i as int] == lines@[i as int]@);
        if lines[i] == *wanted {
            return true;
        }
    }
    false
}

/// Whether a report tells that `branch` was merged.
fn is_merged(report: &Result<String, String>, branch: &str) -> (merged: bool)
    ensures
        merged == tells_merged(result_view(*report), branch@),
{
    match report {
        Ok(text) => {
            let told = trimmed_lines_of(text.as_str());
            has_line(&told, &join2("MERGED\tfalse\t", branch)) && !has_line(
                &told,
                &join2("OPEN\tfalse\t", branch),
            )
        },
        Err(_) => false,
    }
}

/// What becomes of the branch of a worktree that was removed.
fn remove_branch(root: &FilePath, branch: &Option<String>, transcript: &Transcript) -> (step: Step<
    Request,
    Result<(), String>,
>)
    ensures
        step_result_view(step) == branch_step(root@, option_view(*branch), transcript@.reports),
{
    let name = match branch {
        None => return Step::Done(Ok(())),
        Some(name) => name.as_str(),
    };
    if transcript.reports.len() <= 3 {
        let arguments = vec![
            "pr",
            "list",
            "--head",
            name,
            "--state",
            "all",
            "--limit",
            "100",
            "--json",
            "state,isCrossRepository,headRefName",
            "--jq",
            ".[] | [.state, .isCrossRepository, .headRefName] | @tsv",
        ];
        assert(views(arguments@) =~= merged_query(root@, name@)->Run_0.arguments);
        return Step::Ask(
            Request::Run(
                Command {
                    program: "gh".to_owned(),
                    directory: root.clone(),
                    arguments: owned(arguments.as_slice()),
                },
            ),
        );
    }
    assert(transcript@.reports[3] == result_view(transcript.reports@[3]));
    if transcript.reports.len() == 4 && is_merged(&transcript.reports[3], name) {
        let arguments = vec!["branch", "-D", name];
        assert(views(arguments@) == seq!["branch"@, "-D"@, name@]);
        return Step::Ask(Request::Run(git(root, arguments.as_slice())));
    }
    Step::Done(Ok(()))
}

/// The removal of a listed worktree that is not the root.
fn remove_listed(root: &FilePath, raw: &RawWorktree, force: bool, transcript: &Transcript) -> (step: Step<
    Request,
    Result<(), String>,
>)
    requires
        transcript.reports.len() > 0,
    ensures
        step_result_view(step) == removal_step(
            root@,
            raw@.path,
            raw@.branch,
            force,
            transcript@.reports,
        ),
{
    let path = &raw.path;
    let status = match status_summary(path, transcript, 1) {
        Step::Ask(request) => return Step::Ask(request),
        Step::Done(Err(error)) => return Step::Done(Err(error)),
        Step::Done(Ok(status)) => status,
    };
    if (status.dirty_files > 0 || status.ignored_files > 0) && !force {
        return Step::Done(
            Err("the worktree has uncommitted or ignored files; confirm forced removal".to_owned()),
        );
    }
    if transcript.reports.len() == 2 {
        let place = path.to_text();
        let mut arguments = vec!["worktree", "remove"];
        if force {
            arguments.push("--force");
        }
        arguments.push(place.as_str());
        assert(views(arguments@) =~= if force {
            seq!["worktree"@, "remove"@, "--force"@, lossy_text(path@)]
        } else {
            seq!["worktree"@, "remove"@, lossy_text(path@)]
        });
        return Step::Ask(Request::Run(git_with_args(root, owned(arguments.as_slice()))));
    }
    assert(transcript@.reports[2] == result_view(transcript.reports@[2]));
    match &transcript.reports[2] {
        Err(error) => Step::Done(Err(error.clone())),
        Ok(_) => remove_branch(root, &raw.branch, transcript),
    }
}

/// The removal of the worktree at `target` of the repository at `root`.
pub fn remove_worktree(root: &FilePath, target: &FilePath, force: bool, transcript: &Transcript) -> (step: Step<
    Request,
    Result<(), String>,
>)
    ensures
        step_result_view(step) == remove_step(root@, target@, force, transcript@),
{
    if transcript.reports.len() == 0 {
        return Step::Ask(list_worktrees(root));
    }
    assert(transcript@.reports[0] == result_view(transcript.reports@[0]));
    let raws = match &transcript.reports[0] {
        Err(error) => return Step::Done(Err(error.clone())),
        Ok(list) => match parse_worktree_list(list.as_str()) {
            Err(error) => return Step::Done(Err(error)),
            Ok(raws) => raws,
        },
    };
    if transcript.resolved.len() == 0 {
        return Step::Ask(Request::Canonicalize(target.clone()));
    }
    assert(transcript@.resolved[0] == result_view(transcript.resolved@[0]));
    let resolved = match &transcript.resolved[0] {
        Err(error) => return Step::Done(
            Err(join3(target.to_text().as_str(), ": ", error.as_str())),
        ),
        Ok(resolved) => resolved,
    };
    match raw_index(&raws, resolved) {
        None => Step::Done(Err("the worktree no longer belongs to this repository".to_owned())),
        Some(at) => {
            assert(views(raws@)[at as int] == raws@[at as int]@);
            if raws[at].path.same_path(root) {
                Step::Done(Err("the root worktree cannot be removed".to_owned()))
            } else {
                remove_listed(root, &raws[at], force, transcript)
            }
        },
    }
}

} // verus!
