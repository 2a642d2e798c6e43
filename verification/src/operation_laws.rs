//! What the operations on repositories and worktrees ask for, and what comes of it.
use vstd::prelude::*;
use vstd::utf8::{encode_utf8, valid_utf8};

use crate::command::CommandModel;
use crate::encoding::lossy_text;
use crate::lines::trimmed_lines;
use crate::operations::{add_command, add_step, branch_delete, merged_query, raw_at, refresh_step, remove_command, remove_step, status_summary_step, tells_merged, validate_step, worktree_target};
use crate::path::{file_name, same_path};
use crate::path_laws::{file_name_is_last_component, parent_is_spelled_alike};
use crate::porcelain::{listed_worktrees, status_of, RawWorktreeModel};
use crate::state::NewRepositoryModel;
use crate::step::{Report, RequestModel, Step, TranscriptModel};
use crate::step_laws::{may_remove, removed_worktree};
use crate::text::{is_white, trimmed, trimmed_end, trimmed_start};
use crate::text_laws::trimmed_lines_in_turn;
use crate::views::position_tells;

verus! {

/// The request to run a program in a directory with these words.
pub open spec fn running(
    program: Seq<char>,
    directory: Seq<u8>,
    words: Seq<Seq<char>>,
) -> RequestModel {
    RequestModel::Run(CommandModel { program, directory, arguments: words })
}

/// Whether a step asks for `request`.
pub open spec fn asks<T>(step: Step<RequestModel, T>, request: RequestModel) -> bool {
    step matches Step::Ask(asked) && asked == request
}

/// Whether a step has come to `result`.
pub open spec fn ends<T>(step: Step<RequestModel, T>, result: T) -> bool {
    step matches Step::Done(value) && value == result
}

// ── Repositories ──────────────────────────────────────────────────────────

/// Whether a directory is in a repository is asked of Git in that directory. The
/// trimmed answer is resolved, and the repository has the path that comes out, and
/// that path as its name. A failure is handed on, with the path where it concerns
/// one.
pub proof fn repository_is_validated(
    path: Seq<u8>,
    answers: TranscriptModel,
    report_at: nat,
    resolved_at: nat,
)
    ensures
        ({
            let step = validate_step(path, answers, report_at, resolved_at);
            if report_at >= answers.reports.len() {
                asks(step, running("git"@, path, seq!["rev-parse"@, "--show-toplevel"@]))
            } else {
                match answers.reports[report_at as int] {
                    Err(error) => ends(step, Err(error)),
                    Ok(top) => if resolved_at >= answers.resolved.len() {
                        asks(step, RequestModel::Canonicalize(encode_utf8(trimmed(top))))
                    } else {
                        match answers.resolved[resolved_at as int] {
                            Err(error) => ends(step, Err(trimmed(top) + ": "@ + error)),
                            Ok(found) => ends(
                                step,
                                Ok(NewRepositoryModel { id: lossy_text(found), path: found }),
                            ),
                        }
                    },
                }
            }
        }),
{
}

/// The status of a worktree is asked of Git in that worktree, and summed up, or its
/// failure handed on.
pub proof fn status_is_asked_there(path: Seq<u8>, reports: Seq<Report>, at: nat)
    ensures
        at >= reports.len() ==> asks(
            status_summary_step(path, reports, at),
            running(
                "git"@,
                path,
                seq!["status"@, "--porcelain=v2"@, "--branch"@, "--ignored"@, "-z"@],
            ),
        ),
        at < reports.len() ==> match reports[at as int] {
            Ok(output) => ends(status_summary_step(path, reports, at), Ok(status_of(output))),
            Err(error) => ends(status_summary_step(path, reports, at), Err(error)),
        },
{
}

// ── Refreshing ────────────────────────────────────────────────────────────

/// A refresh asks for the list of worktrees, then for the remotes, then for the
/// status of each listed worktree in its turn, there.
pub proof fn refresh_asks_in_turn(root: Seq<u8>, reports: Seq<Report>)
    ensures
        reports.len() == 0 ==> asks(
            refresh_step(root, reports),
            running("git"@, root, seq!["worktree"@, "list"@, "--porcelain"@]),
        ),
        reports.len() > 0 ==> match reports[0] {
            Err(error) => ends(refresh_step(root, reports), Err(error)),
            Ok(list) => match listed_worktrees(list) {
                Err(error) => ends(refresh_step(root, reports), Err(error)),
                Ok(raws) => {
                    &&& reports.len() == 1 ==> asks(
                        refresh_step(root, reports),
                        running("git"@, root, seq!["remote"@]),
                    )
                    &&& reports.len() > 1 ==> (reports[1] matches Err(error) ==> ends(
                        refresh_step(root, reports),
                        Err(error),
                    ))
                    &&& reports.len() > 1 && reports[1] is Ok && reports.len() < 2 + raws.len()
                        ==> asks(
                        refresh_step(root, reports),
                        running(
                            "git"@,
                            raws[reports.len() - 2].path,
                            seq!["status"@, "--porcelain=v2"@, "--branch"@, "--ignored"@, "-z"@],
                        ),
                    )
                },
            },
        },
{
}

/// A refresh gives one worktree for each that is listed, in that order, with what the
/// list says of it. It is the main one just where it stands at the root, and has a
/// remote just where one was named. What was reported of its own status is what it
/// tells; where that failed, it tells the error and no more.
pub proof fn refresh_tells_each_worktree(
    root: Seq<u8>,
    reports: Seq<Report>,
    list: Seq<char>,
    raws: Seq<RawWorktreeModel>,
    remotes: Seq<char>,
    at: int,
)
    requires
        reports.len() >= 2 + raws.len(),
        reports[0] == Ok::<Seq<char>, Seq<char>>(list),
        listed_worktrees(list) == Ok::<Seq<RawWorktreeModel>, Seq<char>>(raws),
        reports[1] == Ok::<Seq<char>, Seq<char>>(remotes),
        0 <= at < raws.len(),
    ensures
        refresh_step(root, reports) matches Step::Done(Ok(worktrees)) && {
            let one = worktrees[at];
            &&& worktrees.len() == raws.len()
            &&& one.path == raws[at].path
            &&& one.branch == raws[at].branch
            &&& one.locked == raws[at].locked
            &&& one.is_main == same_path(raws[at].path, root)
            &&& one.has_remote == (trimmed(remotes).len() > 0)
            &&& match reports[at + 2] {
                Ok(output) => {
                    &&& one.dirty_files == status_of(output).dirty_files
                    &&& one.ignored_files == status_of(output).ignored_files
                    &&& one.upstream == status_of(output).upstream
                    &&& one.ahead == status_of(output).ahead
                    &&& one.behind == status_of(output).behind
                    &&& one.error is None
                },
                Err(error) => {
                    &&& one.dirty_files == 0 && one.ignored_files == 0
                    &&& one.upstream is None && one.ahead is None && one.behind is None
                    &&& one.error == Some(error)
                },
            }
        },
{
}

/// A repository without worktrees refreshes to none.
pub proof fn empty_list_refreshes_to_none(root: Seq<u8>, reports: Seq<Report>)
    requires
        reports.len() >= 2,
        reports[0] matches Ok(list) && (listed_worktrees(list) matches Ok(raws) && raws.len() == 0),
        reports[1] is Ok,
    ensures
        refresh_step(root, reports) matches Step::Done(Ok(worktrees)) && worktrees.len() == 0,
{
}

// ── Adding ────────────────────────────────────────────────────────────────

/// A new worktree has a place wherever the repository has a name that is Unicode, and
/// only there.
pub proof fn target_needs_a_name(root: Seq<u8>, branch: Seq<char>)
    ensures
        match file_name(root) {
            Some(name) if valid_utf8(name) => worktree_target(root, branch) is Ok,
            _ => worktree_target(root, branch) == Err::<Seq<u8>, Seq<char>>(
                "the root repository name is not valid Unicode"@,
            ),
        },
{
    file_name_is_last_component(root);
    parent_is_spelled_alike(root);
}

/// Adding a worktree goes by the name of the branch without the whitespace around it:
/// Git is asked whether it will do, the place has to be free, and then Git adds the
/// branch there. The place is the result; what fails is handed on.
pub proof fn addition_goes_in_turn(root: Seq<u8>, branch: Seq<char>, answers: TranscriptModel)
    ensures
        ({
            let step = add_step(root, branch, answers);
            let reports = answers.reports;
            if reports.len() == 0 {
                asks(
                    step,
                    running("git"@, root, seq!["check-ref-format"@, "--branch"@, trimmed(branch)]),
                )
            } else if let Err(error) = reports[0] {
                ends(step, Err(error))
            } else {
                match worktree_target(root, trimmed(branch)) {
                    Err(error) => ends(step, Err(error)),
                    Ok(target) => if answers.present.len() == 0 {
                        asks(step, RequestModel::CheckExists(target))
                    } else if answers.present[0] {
                        ends(step, Err(lossy_text(target) + " already exists"@))
                    } else if reports.len() == 1 {
                        asks(
                            step,
                            running(
                                "git"@,
                                root,
                                seq![
                                    "worktree"@,
                                    "add"@,
                                    "-b"@,
                                    trimmed(branch),
                                    lossy_text(target),
                                ],
                            ),
                        )
                    } else {
                        match reports[1] {
                            Err(error) => ends(step, Err(error)),
                            Ok(_) => ends(step, Ok(target)),
                        }
                    },
                }
            }
        }),
{
}

// ── Removing ──────────────────────────────────────────────────────────────

/// A worktree is found in a list by its path, and the first one counts.
pub proof fn listed_worktree_is_found(raws: Seq<RawWorktreeModel>, path: Seq<u8>)
    ensures
        match raw_at(raws, path) {
            Some(at) => {
                &&& 0 <= at < raws.len()
                &&& same_path(raws[at].path, path)
                &&& forall|i: int|
                    0 <= i < at ==> !same_path((#[trigger] raws[i]).path, path)
            },
            None => forall|i: int|
                0 <= i < raws.len() ==> !same_path((#[trigger] raws[i]).path, path),
        },
{
    let test = |raw: RawWorktreeModel| same_path(raw.path, path);
    position_tells(raws, test);
    assert forall|i: int| #![trigger raws[i]] test(raws[i]) == same_path(raws[i].path, path) by {}
}

/// How the commands that change something are spelled.
pub proof fn changing_commands_are_spelled(
    root: Seq<u8>,
    branch: Seq<char>,
    path: Seq<u8>,
)
    ensures
        add_command(root, branch, path) == running(
            "git"@,
            root,
            seq!["worktree"@, "add"@, "-b"@, branch, lossy_text(path)],
        ),
        remove_command(root, path, true) == running(
            "git"@,
            root,
            seq!["worktree"@, "remove"@, "--force"@, lossy_text(path)],
        ),
        remove_command(root, path, false) == running(
            "git"@,
            root,
            seq!["worktree"@, "remove"@, lossy_text(path)],
        ),
        branch_delete(root, branch) == running("git"@, root, seq!["branch"@, "-D"@, branch]),
{
}

/// Removing a worktree begins with the list of worktrees and the path that the
/// worktree resolves to. It has to be listed, and not to be the root. Its status is
/// read where it is listed, and work in it forbids its removal without force. Once it
/// is gone, its branch is asked about, and deleted where it was merged; the removal
/// has succeeded whatever becomes of the branch.
pub proof fn removal_goes_in_turn(
    root: Seq<u8>,
    target: Seq<u8>,
    force: bool,
    answers: TranscriptModel,
)
    ensures
        ({
            let step = remove_step(root, target, force, answers);
            let reports = answers.reports;
            if reports.len() == 0 {
                asks(step, running("git"@, root, seq!["worktree"@, "list"@, "--porcelain"@]))
            } else if let Err(error) = reports[0] {
                ends(step, Err(error))
            } else if let Err(error) = listed_worktrees(reports[0]->Ok_0) {
                ends(step, Err(error))
            } else if answers.resolved.len() == 0 {
                asks(step, RequestModel::Canonicalize(target))
            } else if let Err(error) = answers.resolved[0] {
                ends(step, Err(lossy_text(target) + ": "@ + error))
            } else {
                let raws = listed_worktrees(reports[0]->Ok_0)->Ok_0;
                let found = raw_at(raws, answers.resolved[0]->Ok_0);
                if found is None {
                    ends(step, Err("the worktree no longer belongs to this repository"@))
                } else if same_path(raws[found->0].path, root) {
                    ends(step, Err("the root worktree cannot be removed"@))
                } else if reports.len() == 1 {
                    asks(
                        step,
                        running(
                            "git"@,
                            raws[found->0].path,
                            seq!["status"@, "--porcelain=v2"@, "--branch"@, "--ignored"@, "-z"@],
                        ),
                    )
                } else if let Err(error) = reports[1] {
                    ends(step, Err(error))
                } else if !force && (status_of(reports[1]->Ok_0).dirty_files > 0 || status_of(
                    reports[1]->Ok_0,
                ).ignored_files > 0) {
                    ends(
                        step,
                        Err(
                            "the worktree has uncommitted or ignored files; confirm forced removal"@,
                        ),
                    )
                } else if reports.len() == 2 {
                    asks(step, remove_command(root, raws[found->0].path, force))
                } else if let Err(error) = reports[2] {
                    ends(step, Err(error))
                } else if raws[found->0].branch is None {
                    ends(step, Ok(()))
                } else if reports.len() == 3 {
                    asks(step, merged_query(root, raws[found->0].branch->0))
                } else if tells_merged(reports[3], raws[found->0].branch->0) && reports.len()
                    == 4 {
                    asks(step, branch_delete(root, raws[found->0].branch->0))
                } else {
                    ends(step, Ok(()))
                }
            }
        }),
{
}

/// The question about pull requests names the branch as their head, and asks for
/// those in every state.
pub proof fn merged_query_names_the_branch(root: Seq<u8>, branch: Seq<char>)
    ensures
        merged_query(root, branch) == running(
            "gh"@,
            root,
            seq![
                "pr"@,
                "list"@,
                "--head"@,
                branch,
                "--state"@,
                "all"@,
                "--limit"@,
                "100"@,
                "--json"@,
                "state,isCrossRepository,headRefName"@,
                "--jq"@,
                ".[] | [.state, .isCrossRepository, .headRefName] | @tsv"@,
            ],
        ),
{
}

/// A branch counts as merged just where some line says so of it in this repository,
/// and none says that it is open there, however many lines there are. A failed
/// report tells nothing.
pub proof fn merged_is_told_by_lines(text: Seq<char>, error: Seq<char>, branch: Seq<char>)
    ensures
        tells_merged(Ok(text), branch) <==> {
            &&& exists|i: int|
                0 <= i < trimmed_lines(text).len() && #[trigger] trimmed_lines(text)[i]
                    == "MERGED\tfalse\t"@ + branch
            &&& forall|i: int|
                0 <= i < trimmed_lines(text).len() ==> #[trigger] trimmed_lines(text)[i]
                    != "OPEN\tfalse\t"@ + branch
        },
        !tells_merged(Err(error), branch),
{
}

/// A line that begins and ends in no whitespace is its own trimmed form.
proof fn trimmed_already(line: Seq<char>)
    requires
        line.len() > 0,
        !is_white(line.first()),
        !is_white(line.last()),
    ensures
        trimmed(line) == line,
{
    assert(trimmed_start(line) == line);
    assert(trimmed_end(line) == line);
}

/// One line that says so is enough: the branch of a worktree that was removed, whose
/// one pull request was merged, is to be deleted. One that is open keeps it.
pub proof fn one_merged_line_is_enough(branch: Seq<char>)
    requires
        branch.len() > 0,
        !branch.contains('\n'),
        !is_white(branch.last()),
    ensures
        tells_merged(Ok("MERGED\tfalse\t"@ + branch), branch),
        tells_merged(Ok("MERGED\tfalse\t"@ + branch + seq!['\n']), branch),
        !tells_merged(Ok("OPEN\tfalse\t"@ + branch + seq!['\n']), branch),
{
    reveal_strlit("MERGED\tfalse\t");
    reveal_strlit("OPEN\tfalse\t");
    let none = Seq::<char>::empty();
    let merged = "MERGED\tfalse\t"@ + branch;
    let open = "OPEN\tfalse\t"@ + branch;
    assert forall|i: int| 0 <= i < merged.len() implies #[trigger] merged[i] != '\n' by {
        if i >= 13 {
            assert(branch.contains(branch[i - 13]));
        }
    }
    assert forall|i: int| 0 <= i < open.len() implies #[trigger] open[i] != '\n' by {
        if i >= 11 {
            assert(branch.contains(branch[i - 11]));
        }
    }
    assert(merged.first() == 'M' && open.first() == 'O');
    trimmed_already(merged);
    trimmed_already(open);
    trimmed_lines_in_turn(merged, none);
    trimmed_lines_in_turn(open, none);
    trimmed_lines_in_turn(none, none);
    assert(trimmed_lines(none) =~= Seq::<Seq<char>>::empty());
    assert(merged + seq!['\n'] + none =~= merged + seq!['\n']);
    assert(open + seq!['\n'] + none =~= open + seq!['\n']);
    assert(merged != open);
    assert(seq![merged][0] == merged);
    assert(trimmed_lines(merged + seq!['\n']) =~= seq![merged]);
    assert(trimmed_lines(open + seq!['\n']) =~= seq![open]);
    assert(trimmed_lines(merged)[0] == merged);
    assert(trimmed_lines(merged + seq!['\n'])[0] == merged);
    assert(trimmed_lines(open + seq!['\n'])[0] == open);
}

/// The answers let a removal go ahead just where the worktree is listed, is not the
/// root, and holds no work or is forced; then the removal, the question about its
/// branch and the deletion of that branch follow, each for that worktree.
pub proof fn removal_ends_in_turn(
    root: Seq<u8>,
    target: Seq<u8>,
    force: bool,
    answers: TranscriptModel,
    branch: Seq<char>,
)
    requires
        may_remove(root, force, answers),
        removed_worktree(answers).branch == Some(branch),
    ensures
        answers.reports.len() == 2 ==> asks(
            remove_step(root, target, force, answers),
            remove_command(root, removed_worktree(answers).path, force),
        ),
        answers.reports.len() == 3 && answers.reports[2] is Ok ==> asks(
            remove_step(root, target, force, answers),
            merged_query(root, branch),
        ),
        answers.reports.len() == 4 && answers.reports[2] is Ok && tells_merged(
            answers.reports[3],
            branch,
        ) ==> asks(remove_step(root, target, force, answers), branch_delete(root, branch)),
        answers.reports.len() >= 5 && answers.reports[2] is Ok ==> ends(
            remove_step(root, target, force, answers),
            Ok(()),
        ),
{
}

} // verus!
