//! What holds of the operations.
use vstd::prelude::*;
use vstd::utf8::{encode_utf8, is_ascii_chars_encode_utf8};

use crate::command::CommandModel;
use crate::config::{config_file, load_config_step, load_repositories_step, load_roots_step, nothing_loaded, save_config_step, temporary_file, with_root};
use crate::diff::{branch_candidates, branch_reference_step, default_base, diff_base_step, fallback_base, first_existing, load_diff_step, named_branch, pr_base_query, pull_request_step};
use crate::encoding::lossy_text;
use crate::lines::trimmed_lines;
use crate::operations::{add_command, add_step, branch_delete, merged_query, raw_at, refresh_step, remove_command, remove_step, reported_status, seen_worktrees, tells_merged, validate_step, worktree_target};
use crate::path::{file_name, joined, parent, same_path, SLASH};
use crate::path_laws::{is_plain_name, joined_name_is_last, new_worktree_is_sibling};
use crate::porcelain::{listed_worktrees, RawWorktreeModel};
use crate::slug::slug;
use crate::state::{listed, LoadedModel, NewRepositoryModel, RepositoryModel};
use crate::state_laws::{distinct, is_listed, lookup_finds};
use crate::step::{ConfigFileModel, Report, RequestModel, Step, TranscriptModel};
use crate::text::trimmed;
use crate::update::saved_roots;
use crate::views::position_tells;

verus! {

// ── Results stand ─────────────────────────────────────────────────────────

/// Whether `more` begins with `less`.
pub open spec fn extends<T>(more: Seq<T>, less: Seq<T>) -> bool {
    &&& less.len() <= more.len()
    &&& forall|i: int| 0 <= i < less.len() ==> #[trigger] more[i] == less[i]
}

/// Whether `later` holds the answers of `answers`, and perhaps further ones.
pub open spec fn goes_on(later: TranscriptModel, answers: TranscriptModel) -> bool {
    &&& extends(later.reports, answers.reports)
    &&& extends(later.resolved, answers.resolved)
    &&& extends(later.present, answers.present)
    &&& extends(later.configs, answers.configs)
    &&& extends(later.encoded, answers.encoded)
    &&& extends(later.changes, answers.changes)
}

/// Further answers do not change the repository that was found.
pub proof fn validated_repository_stands(
    path: Seq<u8>,
    answers: TranscriptModel,
    later: TranscriptModel,
    report_at: nat,
    resolved_at: nat,
)
    requires
        goes_on(later, answers),
        validate_step(path, answers, report_at, resolved_at) is Done,
    ensures
        validate_step(path, later, report_at, resolved_at) == validate_step(
            path,
            answers,
            report_at,
            resolved_at,
        ),
{
}

/// Further answers do not change the worktrees that were found.
pub proof fn refreshed_worktrees_stand(root: Seq<u8>, reports: Seq<Report>, later: Seq<Report>)
    requires
        extends(later, reports),
        refresh_step(root, reports) is Done,
    ensures
        refresh_step(root, later) == refresh_step(root, reports),
{
    if let Ok(list) = reports[0] {
        if let Ok(raws) = listed_worktrees(list) {
            if let Ok(remotes) = reports[1] {
                let has_remote = trimmed(remotes).len() > 0;
                assert(seen_worktrees(root, raws, has_remote, later) =~= seen_worktrees(
                    root,
                    raws,
                    has_remote,
                    reports,
                ));
            }
        }
    }
}

/// Further answers do not change whether, and where, a worktree was added.
pub proof fn added_worktree_stands(
    root: Seq<u8>,
    branch: Seq<char>,
    answers: TranscriptModel,
    later: TranscriptModel,
)
    requires
        goes_on(later, answers),
        add_step(root, branch, answers) is Done,
    ensures
        add_step(root, branch, later) == add_step(root, branch, answers),
{
}

/// Further answers do not change whether a worktree was removed.
pub proof fn removal_stands(
    root: Seq<u8>,
    target: Seq<u8>,
    force: bool,
    answers: TranscriptModel,
    later: TranscriptModel,
)
    requires
        goes_on(later, answers),
        remove_step(root, target, force, answers) is Done,
    ensures
        remove_step(root, target, force, later) == remove_step(root, target, force, answers),
{
}

proof fn found_reference_stands(
    path: Seq<u8>,
    candidates: Seq<Seq<char>>,
    reports: Seq<Report>,
    later: Seq<Report>,
    at: nat,
)
    requires
        extends(later, reports),
        first_existing(path, candidates, reports, at) is Done,
    ensures
        first_existing(path, candidates, later, at) == first_existing(
            path,
            candidates,
            reports,
            at,
        ),
    decreases candidates.len(),
{
    if candidates.len() > 0 && reports[at as int] is Err {
        found_reference_stands(path, candidates.drop_first(), reports, later, at + 1);
    }
}

proof fn default_base_stands(
    path: Seq<u8>,
    remotes: Seq<Seq<char>>,
    reports: Seq<Report>,
    later: Seq<Report>,
    at: nat,
)
    requires
        extends(later, reports),
        default_base(path, remotes, reports, at) is Done,
    ensures
        default_base(path, remotes, later, at) == default_base(path, remotes, reports, at),
    decreases remotes.len(),
{
    if remotes.len() > 0 {
        if reports[at as int] is Err {
            default_base_stands(path, remotes.drop_first(), reports, later, at + 1);
        } else if reports[at as int + 1] is Err {
            default_base_stands(path, remotes.drop_first(), reports, later, at + 2);
        }
    }
}

proof fn fallback_stands(path: Seq<u8>, reports: Seq<Report>, later: Seq<Report>, at: nat)
    requires
        extends(later, reports),
        fallback_base(path, reports, at) is Done,
    ensures
        fallback_base(path, later, at) == fallback_base(path, reports, at),
{
    if reports[at as int] is Err {
        if let Ok(listing) = reports[at as int + 1] {
            default_base_stands(path, trimmed_lines(listing), reports, later, at + 2);
        }
    }
}

/// Further answers do not change a diff that was loaded.
pub proof fn loaded_diff_stands(path: Seq<u8>, reports: Seq<Report>, later: Seq<Report>)
    requires
        extends(later, reports),
        load_diff_step(path, reports) is Done,
    ensures
        load_diff_step(path, later) == load_diff_step(path, reports),
{
    assert(reports.len() > 0);
    match named_branch(reports[0]) {
        None => fallback_stands(path, reports, later, 1),
        Some(branch) => {
            assert(branch_reference_step(path, branch, reports, 1) is Done);
            if let Ok(listing) = reports[1] {
                found_reference_stands(path, branch_candidates(branch, listing), reports, later, 2);
            }
            let found = branch_reference_step(path, branch, reports, 1)->Done_0;
            if found.reference is None {
                fallback_stands(path, reports, later, found.next);
            }
        },
    }
}

proof fn loaded_roots_stand(
    roots: Seq<Seq<char>>,
    answers: TranscriptModel,
    later: TranscriptModel,
    report_at: nat,
    resolved_at: nat,
    loaded: LoadedModel,
)
    requires
        goes_on(later, answers),
        load_roots_step(roots, answers, report_at, resolved_at, loaded) is Done,
    ensures
        load_roots_step(roots, later, report_at, resolved_at, loaded) == load_roots_step(
            roots,
            answers,
            report_at,
            resolved_at,
            loaded,
        ),
    decreases roots.len(),
{
    if roots.len() > 0 {
        let check = validate_step(encode_utf8(roots.first()), answers, report_at, resolved_at);
        loaded_roots_stand(
            roots.drop_first(),
            answers,
            later,
            report_at + 1,
            if answers.reports[report_at as int] is Ok {
                resolved_at + 1
            } else {
                resolved_at
            },
            with_root(loaded, roots.first(), check->Done_0),
        );
    }
}

/// Further answers do not change the repositories that were loaded.
pub proof fn loaded_repositories_stand(
    directory: Option<Seq<u8>>,
    answers: TranscriptModel,
    later: TranscriptModel,
)
    requires
        goes_on(later, answers),
        load_repositories_step(directory, answers) is Done,
    ensures
        load_repositories_step(directory, later) == load_repositories_step(directory, answers),
{
    if let Step::Done(Ok(roots)) = load_config_step(directory, answers) {
        loaded_roots_stand(roots, answers, later, 0, 0, nothing_loaded());
    }
}

/// Further answers do not change whether the list was saved.
pub proof fn saved_list_stands(
    directory: Option<Seq<u8>>,
    roots: Seq<Seq<char>>,
    answers: TranscriptModel,
    later: TranscriptModel,
)
    requires
        goes_on(later, answers),
        save_config_step(directory, roots, answers) is Done,
    ensures
        save_config_step(directory, roots, later) == save_config_step(directory, roots, answers),
{
}

// ── Operations come to an end ─────────────────────────────────────────────

/// One report and one resolved path settle whether a directory is in a repository.
pub proof fn validation_ends(
    path: Seq<u8>,
    answers: TranscriptModel,
    report_at: nat,
    resolved_at: nat,
)
    requires
        report_at < answers.reports.len(),
        resolved_at < answers.resolved.len(),
    ensures
        validate_step(path, answers, report_at, resolved_at) is Done,
{
}

/// Two reports, and one more for each listed worktree, settle a refresh.
pub proof fn refresh_ends(root: Seq<u8>, reports: Seq<Report>)
    requires
        reports.len() >= 2,
        reports[0] matches Ok(list) ==> (listed_worktrees(list) matches Ok(raws) ==> reports.len()
            >= 2 + raws.len()),
    ensures
        refresh_step(root, reports) is Done,
{
}

/// Two reports, and whether the place is taken, settle the adding of a worktree.
pub proof fn addition_ends(root: Seq<u8>, branch: Seq<char>, answers: TranscriptModel)
    requires
        answers.reports.len() >= 2,
        answers.present.len() >= 1,
    ensures
        add_step(root, branch, answers) is Done,
{
}

/// Five reports and one resolved path settle the removal of a worktree.
pub proof fn removal_ends(root: Seq<u8>, target: Seq<u8>, force: bool, answers: TranscriptModel)
    requires
        answers.reports.len() >= 5,
        answers.resolved.len() >= 1,
    ensures
        remove_step(root, target, force, answers) is Done,
{
}

/// Whether no report has more than `most` lines that are not blank.
pub open spec fn lines_within(reports: Seq<Report>, most: nat) -> bool {
    forall|i: int|
        0 <= i < reports.len() ==> (#[trigger] reports[i] matches Ok(text) ==> trimmed_lines(
            text,
        ).len() <= most)
}

proof fn reference_search_ends(
    path: Seq<u8>,
    candidates: Seq<Seq<char>>,
    reports: Seq<Report>,
    at: nat,
)
    requires
        at + candidates.len() <= reports.len(),
    ensures
        first_existing(path, candidates, reports, at) is Done,
        first_existing(path, candidates, reports, at)->Done_0.next <= at + candidates.len(),
    decreases candidates.len(),
{
    if candidates.len() > 0 && reports[at as int] is Err {
        reference_search_ends(path, candidates.drop_first(), reports, at + 1);
    }
}

proof fn default_search_ends(
    path: Seq<u8>,
    remotes: Seq<Seq<char>>,
    reports: Seq<Report>,
    at: nat,
)
    requires
        at + 2 * remotes.len() <= reports.len(),
    ensures
        default_base(path, remotes, reports, at) is Done,
        default_base(path, remotes, reports, at)->Done_0.next <= at + 2 * remotes.len(),
    decreases remotes.len(),
{
    if remotes.len() > 0 {
        if reports[at as int] is Err {
            default_search_ends(path, remotes.drop_first(), reports, at + 1);
        } else if reports[at as int + 1] is Err {
            default_search_ends(path, remotes.drop_first(), reports, at + 2);
        }
    }
}

proof fn fallback_search_ends(path: Seq<u8>, reports: Seq<Report>, at: nat, most: nat)
    requires
        lines_within(reports, most),
        at + 2 + 2 * most <= reports.len(),
    ensures
        fallback_base(path, reports, at) is Done,
        fallback_base(path, reports, at)->Done_0.next <= at + 2 + 2 * most,
{
    if reports[at as int] is Err {
        if let Ok(listing) = reports[at as int + 1] {
            default_search_ends(path, trimmed_lines(listing), reports, at + 2);
        }
    }
}

/// Where no report lists more than `most` remotes, six reports and three for each
/// of them settle a diff.
pub proof fn diff_ends(path: Seq<u8>, reports: Seq<Report>, most: nat)
    requires
        lines_within(reports, most),
        reports.len() >= 6 + 3 * most,
    ensures
        load_diff_step(path, reports) is Done,
{
    match named_branch(reports[0]) {
        None => fallback_search_ends(path, reports, 1, most),
        Some(branch) => {
            if let Ok(listing) = reports[1] {
                reference_search_ends(path, branch_candidates(branch, listing), reports, 2);
            }
            let found = branch_reference_step(path, branch, reports, 1)->Done_0;
            if found.reference is None {
                fallback_search_ends(path, reports, found.next, most);
            }
        },
    }
}

proof fn root_loading_ends(
    roots: Seq<Seq<char>>,
    answers: TranscriptModel,
    report_at: nat,
    resolved_at: nat,
    loaded: LoadedModel,
)
    requires
        report_at + roots.len() <= answers.reports.len(),
        resolved_at + roots.len() <= answers.resolved.len(),
    ensures
        load_roots_step(roots, answers, report_at, resolved_at, loaded) is Done,
    decreases roots.len(),
{
    if roots.len() > 0 {
        let check = validate_step(encode_utf8(roots.first()), answers, report_at, resolved_at);
        root_loading_ends(
            roots.drop_first(),
            answers,
            report_at + 1,
            if answers.reports[report_at as int] is Ok {
                resolved_at + 1
            } else {
                resolved_at
            },
            with_root(loaded, roots.first(), check->Done_0),
        );
    }
}

/// The saved list, and one report and one resolved path for each entry of it,
/// settle the loading of the repositories.
pub proof fn loading_ends(directory: Option<Seq<u8>>, answers: TranscriptModel)
    requires
        answers.configs.len() >= 1,
        answers.configs[0] matches ConfigFileModel::Contents(Ok(roots)) ==> roots.len()
            <= answers.reports.len() && roots.len() <= answers.resolved.len(),
    ensures
        load_repositories_step(directory, answers) is Done,
{
    if let Step::Done(Ok(roots)) = load_config_step(directory, answers) {
        root_loading_ends(roots, answers, 0, 0, nothing_loaded());
    }
}

/// Three changes and one spelled-out list settle the saving of the list.
pub proof fn saving_ends(
    directory: Option<Seq<u8>>,
    roots: Seq<Seq<char>>,
    answers: TranscriptModel,
)
    requires
        answers.changes.len() >= 3,
        answers.encoded.len() >= 1,
    ensures
        save_config_step(directory, roots, answers) is Done,
{
}

// ── Who changes what ──────────────────────────────────────────────────────

/// Whether a command only looks: it asks Git about revisions, names, worktrees,
/// their status, remotes or differences, or GitHub about pull requests.
pub open spec fn command_looks(command: CommandModel) -> bool {
    let words = command.arguments;
    if command.program == "git"@ {
        ||| words.len() > 0 && (words[0] == "rev-parse"@ || words[0] == "check-ref-format"@
            || words[0] == "status"@ || words[0] == "diff"@)
        ||| words.len() > 1 && words[0] == "worktree"@ && words[1] == "list"@
        ||| words == seq!["remote"@]
        ||| words.len() == 4 && words[0] == "symbolic-ref"@ && words[1] == "--quiet"@ && words[2]
            == "--short"@
    } else {
        command.program == "gh"@ && words.len() > 1 && words[0] == "pr"@ && (words[1] == "view"@
            || words[1] == "list"@)
    }
}

/// Whether a request only looks, and changes nothing.
pub open spec fn only_looks(request: RequestModel) -> bool {
    match request {
        RequestModel::Run(command) => command_looks(command),
        RequestModel::Canonicalize(_) => true,
        RequestModel::CheckExists(_) => true,
        RequestModel::ReadConfig(_) => true,
        RequestModel::EncodeConfig(_) => true,
        _ => false,
    }
}

/// The commands that add and remove a worktree, and the one that deletes a branch,
/// do more than look.
pub proof fn changing_commands_do_not_only_look(
    root: Seq<u8>,
    branch: Seq<char>,
    path: Seq<u8>,
    force: bool,
)
    ensures
        !only_looks(add_command(root, branch, path)),
        !only_looks(remove_command(root, path, force)),
        !only_looks(branch_delete(root, branch)),
{
    reveal_strlit("branch");
    reveal_strlit("worktree");
    reveal_strlit("rev-parse");
    reveal_strlit("check-ref-format");
    reveal_strlit("status");
    reveal_strlit("diff");
    reveal_strlit("remote");
    reveal_strlit("symbolic-ref");
    reveal_strlit("list");
    reveal_strlit("add");
    reveal_strlit("remove");
    assert("worktree"@.len() == 8);
    assert("rev-parse"@.len() == 9);
    assert("check-ref-format"@.len() == 16);
    assert("status"@.len() == 6);
    assert("diff"@.len() == 4);
    assert("remote"@.len() == 6);
    assert("symbolic-ref"@.len() == 12);
    assert("list"@.len() == 4);
    assert("add"@.len() == 3);
    assert("remove"@.len() == 6);
    assert("branch"@.len() == 6 && "branch"@[0] == 'b' && "status"@[0] == 's');
}

/// Whether a request runs Git in the directory `path`.
pub open spec fn runs_git(request: RequestModel, path: Seq<u8>) -> bool {
    request matches RequestModel::Run(command) && command.program == "git"@ && command.directory
        == path
}

/// Whether a request runs no command but Git.
pub open spec fn needs_only_git(request: RequestModel) -> bool {
    request matches RequestModel::Run(command) ==> command.program == "git"@
}

proof fn reference_search_looks(
    path: Seq<u8>,
    candidates: Seq<Seq<char>>,
    reports: Seq<Report>,
    at: nat,
)
    ensures
        first_existing(path, candidates, reports, at) matches Step::Ask(request) ==> only_looks(
            request,
        ) && runs_git(request, path),
    decreases candidates.len(),
{
    if candidates.len() > 0 {
        reference_search_looks(path, candidates.drop_first(), reports, at + 1);
    }
}

proof fn default_search_looks(
    path: Seq<u8>,
    remotes: Seq<Seq<char>>,
    reports: Seq<Report>,
    at: nat,
)
    ensures
        default_base(path, remotes, reports, at) matches Step::Ask(request) ==> only_looks(request)
            && runs_git(request, path),
    decreases remotes.len(),
{
    if remotes.len() > 0 {
        default_search_looks(path, remotes.drop_first(), reports, at + 1);
        default_search_looks(path, remotes.drop_first(), reports, at + 2);
    }
}

proof fn fallback_search_looks(path: Seq<u8>, reports: Seq<Report>, at: nat)
    ensures
        fallback_base(path, reports, at) matches Step::Ask(request) ==> only_looks(request)
            && runs_git(request, path),
{
    if at + 1 < reports.len() {
        if let Ok(listing) = reports[at as int + 1] {
            default_search_looks(path, trimmed_lines(listing), reports, at + 2);
        }
    }
}

/// Loading a diff only looks. It runs Git in the worktree, but for its first
/// request, which asks GitHub for the base of the pull request.
pub proof fn diff_only_looks(path: Seq<u8>, reports: Seq<Report>)
    ensures
        load_diff_step(path, reports) matches Step::Ask(request) ==> only_looks(request) && if reports.len()
            == 0 {
            request == pr_base_query(path)
        } else {
            runs_git(request, path)
        },
{
    reveal_strlit("git");
    reveal_strlit("gh");
    assert("git"@.len() == 3 && "gh"@.len() == 2);
    if reports.len() > 0 {
        match named_branch(reports[0]) {
            None => fallback_search_looks(path, reports, 1),
            Some(branch) => {
                if reports.len() > 1 {
                    if let Ok(listing) = reports[1] {
                        reference_search_looks(
                            path,
                            branch_candidates(branch, listing),
                            reports,
                            2,
                        );
                    }
                    if let Step::Done(found) = branch_reference_step(path, branch, reports, 1) {
                        fallback_search_looks(path, reports, found.next);
                    }
                }
            },
        }
    }
}

/// Where GitHub has no answer, or names no branch, or one that is not known here,
/// the diff is against the upstream branch or the default branch of a remote: a
/// diff never fails for want of GitHub.
pub proof fn diff_does_without_github(path: Seq<u8>, reports: Seq<Report>)
    requires
        reports.len() > 0,
    ensures
        reports[0] is Err ==> diff_base_step(path, reports, 0) == fallback_base(path, reports, 1),
        reports[0] matches Ok(text) ==> trimmed(text).len() == 0 ==> diff_base_step(
            path,
            reports,
            0,
        ) == fallback_base(path, reports, 1),
        named_branch(reports[0]) matches Some(branch) ==> (branch_reference_step(
            path,
            branch,
            reports,
            1,
        ) matches Step::Done(found) ==> found.reference is None ==> diff_base_step(path, reports, 0)
            == fallback_base(path, reports, found.next)),
{
}

/// Looking for a pull request only looks. One report settles it, further ones do not
/// change it, and where GitHub has no answer there is none.
pub proof fn pull_request_only_looks(
    path: Seq<u8>,
    reports: Seq<Report>,
    later: Seq<Report>,
    at: nat,
)
    requires
        extends(later, reports),
    ensures
        pull_request_step(path, reports, at) matches Step::Ask(request) ==> only_looks(request),
        at < reports.len() ==> {
            &&& pull_request_step(path, reports, at) is Done
            &&& pull_request_step(path, later, at) == pull_request_step(path, reports, at)
            &&& reports[at as int] is Err ==> pull_request_step(path, reports, at)->Done_0 is None
        },
{
    reveal_strlit("git");
    reveal_strlit("gh");
    assert("git"@.len() == 3 && "gh"@.len() == 2);
}

/// Refreshing a repository only looks, by way of Git.
pub proof fn refresh_only_looks(root: Seq<u8>, reports: Seq<Report>)
    ensures
        refresh_step(root, reports) matches Step::Ask(request) ==> only_looks(request)
            && needs_only_git(request),
{
}

/// Looking for a repository only looks, by way of Git.
pub proof fn validation_only_looks(
    path: Seq<u8>,
    answers: TranscriptModel,
    report_at: nat,
    resolved_at: nat,
)
    ensures
        validate_step(path, answers, report_at, resolved_at) matches Step::Ask(request)
            ==> only_looks(request) && needs_only_git(request),
{
}

proof fn root_loading_only_looks(
    roots: Seq<Seq<char>>,
    answers: TranscriptModel,
    report_at: nat,
    resolved_at: nat,
    loaded: LoadedModel,
)
    ensures
        load_roots_step(roots, answers, report_at, resolved_at, loaded) matches Step::Ask(request)
            ==> only_looks(request) && needs_only_git(request),
    decreases roots.len(),
{
    if roots.len() > 0 {
        validation_only_looks(encode_utf8(roots.first()), answers, report_at, resolved_at);
        let check = validate_step(encode_utf8(roots.first()), answers, report_at, resolved_at);
        root_loading_only_looks(
            roots.drop_first(),
            answers,
            report_at + 1,
            if answers.reports[report_at as int] is Ok {
                resolved_at + 1
            } else {
                resolved_at
            },
            with_root(loaded, roots.first(), check->Done_0),
        );
    }
}

/// Loading the saved repositories only looks, and runs no command but Git.
pub proof fn loading_only_looks(directory: Option<Seq<u8>>, answers: TranscriptModel)
    ensures
        load_repositories_step(directory, answers) matches Step::Ask(request) ==> only_looks(
            request,
        ) && needs_only_git(request),
{
    if let Step::Done(Ok(roots)) = load_config_step(directory, answers) {
        root_loading_only_looks(roots, answers, 0, 0, nothing_loaded());
    }
}

/// Adding a worktree changes nothing until Git has accepted the name of the branch
/// and the place has been found free; then it is one command, for that branch and
/// that place. It runs no command but Git.
pub proof fn addition_is_guarded(root: Seq<u8>, branch: Seq<char>, answers: TranscriptModel)
    ensures
        add_step(root, branch, answers) matches Step::Ask(request) ==> needs_only_git(request),
        add_step(root, branch, answers) matches Step::Ask(request) ==> only_looks(request) || {
            &&& answers.reports.len() == 1 && answers.reports[0] is Ok
            &&& answers.present.len() > 0 && !answers.present[0]
            &&& worktree_target(root, trimmed(branch)) is Ok
            &&& request == add_command(
                root,
                trimmed(branch),
                worktree_target(root, trimmed(branch))->Ok_0,
            )
        },
{
}

/// A worktree that was added stands beside the repository: in the same directory,
/// under the name of the repository, a dash and the slug of the branch.
pub proof fn added_worktree_is_sibling(root: Seq<u8>, branch: Seq<char>, answers: TranscriptModel)
    ensures
        add_step(root, branch, answers) matches Step::Done(Ok(path)) ==> {
            &&& parent(path) == parent(root)
            &&& file_name(path) == Some(
                file_name(root)->0 + encode_utf8("-"@ + slug(trimmed(branch))),
            )
        },
{
    new_worktree_is_sibling(root, trimmed(branch));
}

/// Whether the answers let a removal go ahead: Git has listed the worktree at the
/// resolved path, it is not the root, and its status has been read. Where the
/// removal is not forced, nothing in the worktree is uncommitted or ignored.
pub open spec fn may_remove(root: Seq<u8>, force: bool, answers: TranscriptModel) -> bool {
    &&& answers.reports.len() >= 2 && answers.reports[0] is Ok
    &&& listed_worktrees(answers.reports[0]->Ok_0) is Ok
    &&& answers.resolved.len() > 0 && answers.resolved[0] is Ok
    &&& raw_at(
        listed_worktrees(answers.reports[0]->Ok_0)->Ok_0,
        answers.resolved[0]->Ok_0,
    ) is Some
    &&& !same_path(removed_worktree(answers).path, root)
    &&& reported_status(answers.reports[1]) matches Ok(status) && (force || (status.dirty_files
        == 0 && status.ignored_files == 0))
}

/// The listed worktree at the resolved path.
pub open spec fn removed_worktree(answers: TranscriptModel) -> RawWorktreeModel {
    let raws = listed_worktrees(answers.reports[0]->Ok_0)->Ok_0;
    raws[raw_at(raws, answers.resolved[0]->Ok_0)->0]
}

/// Removing a worktree changes nothing until the answers let it go ahead: then it is
/// one command, for that worktree, forced just where the removal was to be. After
/// that has succeeded, and GitHub has told that the pull request of the worktree's
/// own branch was merged, one more command deletes that branch. Nothing else is
/// changed.
pub proof fn removal_is_guarded(
    root: Seq<u8>,
    target: Seq<u8>,
    force: bool,
    answers: TranscriptModel,
)
    ensures
        remove_step(root, target, force, answers) matches Step::Ask(request) ==> {
            ||| only_looks(request)
            ||| {
                &&& may_remove(root, force, answers)
                &&& answers.reports.len() == 2
                &&& request == remove_command(root, removed_worktree(answers).path, force)
            }
            ||| {
                &&& may_remove(root, force, answers)
                &&& answers.reports.len() == 4
                &&& answers.reports[2] is Ok
                &&& removed_worktree(answers).branch matches Some(branch)
                &&& tells_merged(answers.reports[3], branch)
                &&& request == branch_delete(root, branch)
            }
        },
{
    reveal_strlit("git");
    reveal_strlit("gh");
    assert("git"@.len() == 3 && "gh"@.len() == 2);
}

/// Git is told to delete the branch of a worktree that was removed just where its
/// pull request was merged. The removal has succeeded by then, and ends well
/// whatever comes of that.
pub proof fn merged_branch_is_deleted(
    root: Seq<u8>,
    target: Seq<u8>,
    force: bool,
    answers: TranscriptModel,
)
    requires
        may_remove(root, force, answers),
        answers.reports.len() >= 3,
        answers.reports[2] is Ok,
    ensures
        ({
            let step = remove_step(root, target, force, answers);
            let reports = answers.reports;
            match removed_worktree(answers).branch {
                None => step matches Step::Done(Ok(_)),
                Some(branch) => if reports.len() == 3 {
                    step matches Step::Ask(request) && request == merged_query(root, branch)
                } else if reports.len() == 4 && tells_merged(reports[3], branch) {
                    step matches Step::Ask(request) && request == branch_delete(root, branch)
                } else {
                    step matches Step::Done(Ok(_))
                },
            }
        }),
{
}

/// Removing a worktree needs no command but Git: GitHub is asked once, after the
/// removal, and where it has no answer the removal ends well.
pub proof fn removal_does_without_github(
    root: Seq<u8>,
    target: Seq<u8>,
    force: bool,
    answers: TranscriptModel,
)
    ensures
        remove_step(root, target, force, answers) matches Step::Ask(request) ==> needs_only_git(
            request,
        ) || {
            &&& may_remove(root, force, answers)
            &&& answers.reports.len() == 3 && answers.reports[2] is Ok
            &&& removed_worktree(answers).branch matches Some(branch)
            &&& request == merged_query(root, branch)
        },
        may_remove(root, force, answers) && answers.reports.len() >= 4 && answers.reports[2] is Ok
            && answers.reports[3] is Err ==> remove_step(root, target, force, answers) matches Step::Done(Ok(_)),
{
}

/// A worktree with uncommitted or ignored files is not removed without force.
pub proof fn dirty_worktree_is_kept(root: Seq<u8>, target: Seq<u8>, answers: TranscriptModel)
    requires
        answers.reports.len() >= 2,
        answers.resolved.len() >= 1,
        reported_status(answers.reports[1]) matches Ok(status) && (status.dirty_files > 0
            || status.ignored_files > 0),
    ensures
        remove_step(root, target, false, answers) matches Step::Done(Err(_)),
{
}

/// The root is not removed, forced or not.
pub proof fn root_is_kept(root: Seq<u8>, target: Seq<u8>, force: bool, answers: TranscriptModel)
    requires
        answers.reports.len() >= 1,
        answers.resolved.len() >= 1,
        answers.resolved[0] matches Ok(resolved) && same_path(resolved, root),
    ensures
        remove_step(root, target, force, answers) matches Step::Done(Err(_)),
{
    if let Ok(list) = answers.reports[0] {
        if let Ok(raws) = listed_worktrees(list) {
            position_tells(
                raws,
                |raw: RawWorktreeModel| same_path(raw.path, answers.resolved[0]->Ok_0),
            );
        }
    }
}

// ── One repository, one worktree ──────────────────────────────────────────

/// Two directories whose top directories resolve to one path lie in one repository.
/// Given the same answers, the directory that was found validates to the same
/// repository.
pub proof fn one_path_is_one_repository(
    path: Seq<u8>,
    answers: TranscriptModel,
    report_at: nat,
    resolved_at: nat,
    other_path: Seq<u8>,
    other: TranscriptModel,
    other_report_at: nat,
    other_resolved_at: nat,
)
    requires
        validate_step(path, answers, report_at, resolved_at) matches Step::Done(Ok(_)),
        validate_step(other_path, other, other_report_at, other_resolved_at) matches Step::Done(
            Ok(_),
        ),
        answers.resolved[resolved_at as int] == other.resolved[other_resolved_at as int],
    ensures
        validate_step(path, answers, report_at, resolved_at) == validate_step(
            other_path,
            other,
            other_report_at,
            other_resolved_at,
        ),
        ({
            let found = validate_step(path, answers, report_at, resolved_at)->Done_0->Ok_0;
            &&& answers.resolved[resolved_at as int] == Ok::<Seq<u8>, Seq<char>>(found.path)
            &&& found.id == lossy_text(found.path)
            &&& validate_step(found.path, answers, report_at, resolved_at) == validate_step(
                path,
                answers,
                report_at,
                resolved_at,
            )
        }),
{
}

/// A worktree that was added is found by a refresh, where Git lists it: under the
/// path where it was added, with its branch as it was named, and clean where its
/// status tells of no change.
pub proof fn added_worktree_is_refreshed(
    root: Seq<u8>,
    branch: Seq<char>,
    answers: TranscriptModel,
    reports: Seq<Report>,
    at: int,
)
    requires
        add_step(root, branch, answers) matches Step::Done(Ok(_)),
        reports.len() >= 2,
        reports[0] is Ok,
        reports[1] is Ok,
        listed_worktrees(reports[0]->Ok_0) matches Ok(raws) && {
            &&& reports.len() >= 2 + raws.len()
            &&& 0 <= at < raws.len()
            &&& raws[at].path == add_step(root, branch, answers)->Done_0->Ok_0
            &&& raws[at].branch == Some(trimmed(branch))
        },
        reported_status(reports[at + 2]) matches Ok(status) && status.dirty_files == 0,
    ensures
        refresh_step(root, reports) matches Step::Done(Ok(worktrees)) && {
            &&& 0 <= at < worktrees.len()
            &&& worktrees[at].path == add_step(root, branch, answers)->Done_0->Ok_0
            &&& worktrees[at].branch == Some(trimmed(branch))
            &&& worktrees[at].dirty_files == 0
            &&& worktrees[at].error is None
        },
{
}

// ── The saved list ────────────────────────────────────────────────────────

/// The names of the files that hold the list are plain.
pub proof fn file_names_are_plain()
    ensures
        is_plain_name(encode_utf8("repositories.json"@)),
        is_plain_name(encode_utf8("repositories.json.tmp"@)),
        encode_utf8("repositories.json"@) != encode_utf8("repositories.json.tmp"@),
{
    reveal_strlit("repositories.json");
    reveal_strlit("repositories.json.tmp");
    is_ascii_chars_encode_utf8("repositories.json"@);
    is_ascii_chars_encode_utf8("repositories.json.tmp"@);
    let name = encode_utf8("repositories.json"@);
    let temporary = encode_utf8("repositories.json.tmp"@);
    assert(name.len() == 17);
    assert(temporary.len() == 21);
    assert forall|i: int| 0 <= i < name.len() implies #[trigger] name[i] != SLASH by {
        assert(name[i] == "repositories.json"@[i] as u8);
    }
    assert forall|i: int| 0 <= i < temporary.len() implies #[trigger] temporary[i] != SLASH by {
        assert(temporary[i] == "repositories.json.tmp"@[i] as u8);
    }
}

/// A new list never replaces the old one before it is complete: it is spelled out
/// and written to a file of its own, beside the old one. Only what was written
/// there without error is moved to the place of the old one.
pub proof fn list_is_replaced_whole(
    directory: Option<Seq<u8>>,
    roots: Seq<Seq<char>>,
    answers: TranscriptModel,
)
    requires
        directory is Some,
    ensures
        ({
            let place = config_file(directory)->Ok_0;
            let temporary = temporary_file(directory->0);
            &&& temporary != place
            &&& parent(temporary) == parent(place)
            &&& match save_config_step(directory, roots, answers) {
                Step::Ask(RequestModel::CreateDirectories(folder)) => Some(folder) == parent(place),
                Step::Ask(RequestModel::EncodeConfig(list)) => list == roots,
                Step::Ask(RequestModel::WriteFile { path, contents }) => path == temporary
                    && answers.encoded[0] == Ok::<Seq<u8>, Seq<char>>(contents),
                Step::Ask(RequestModel::Rename { from, to }) => from == temporary && to == place
                    && answers.changes.len() == 2 && answers.changes[1] is Ok,
                Step::Ask(_) => false,
                Step::Done(Ok(())) => answers.changes.len() >= 3 && answers.changes[2] is Ok,
                Step::Done(Err(_)) => {
                    ||| answers.encoded.len() > 0 && answers.encoded[0] is Err
                    ||| exists|i: int|
                        0 <= i < answers.changes.len() && i < 3 && #[trigger] answers.changes[i] is Err
                },
            }
        }),
{
    file_names_are_plain();
    let folder = joined(directory->0, encode_utf8("wtui"@));
    joined_name_is_last(folder, encode_utf8("repositories.json"@));
    joined_name_is_last(folder, encode_utf8("repositories.json.tmp"@));
}

proof fn saved_roots_load_again(
    repositories: Seq<RepositoryModel>,
    answers: TranscriptModel,
    count: nat,
)
    requires
        distinct(repositories),
        count <= repositories.len(),
        found_again(repositories, answers),
    ensures
        load_roots_step(saved_roots(repositories), answers, 0, 0, nothing_loaded())
            == load_roots_step(
            saved_roots(repositories).skip(count as int),
            answers,
            count,
            count,
            LoadedModel { repositories: fresh(repositories).take(count as int), warnings: Seq::empty() },
        ),
    decreases count,
{
    let roots = saved_roots(repositories);
    if count == 0 {
        assert(roots.skip(0) =~= roots);
        assert(fresh(repositories).take(0) =~= nothing_loaded().repositories);
        assert(nothing_loaded().warnings =~= Seq::<Seq<char>>::empty());
    } else {
        let at = count - 1;
        saved_roots_load_again(repositories, answers, at as nat);
        let before = fresh(repositories).take(at);
        let rest = roots.skip(at);
        let one = repositories[at];
        assert(rest.drop_first() =~= roots.skip(count as int));
        assert(answers.reports[at] is Ok);
        assert(!is_listed(before, one.id)) by {
            assert forall|i: int| 0 <= i < before.len() implies (#[trigger] before[i]).id
                != one.id by {
                assert(before[i].id == repositories[i].id);
            }
        }
        lookup_finds(before, one.id);
        assert(fresh(repositories).take(count as int) =~= before.push(
            listed(NewRepositoryModel { id: one.id, path: one.path }),
        ));
    }
}

/// The repositories, with nothing known of them but their places.
pub open spec fn fresh(repositories: Seq<RepositoryModel>) -> Seq<RepositoryModel> {
    repositories.map_values(
        |repository: RepositoryModel|
            listed(NewRepositoryModel { id: repository.id, path: repository.path }),
    )
}

/// Whether each of the `repositories` is called by its path, and the answers find it
/// there.
pub open spec fn found_again(repositories: Seq<RepositoryModel>, answers: TranscriptModel) -> bool {
    &&& repositories.len() <= answers.reports.len()
    &&& repositories.len() <= answers.resolved.len()
    &&& forall|i: int|
        0 <= i < repositories.len() ==> (#[trigger] answers.reports[i]) is Ok && repositories[i].id
            == lossy_text(repositories[i].path) && answers.resolved[i] == Ok::<Seq<u8>, Seq<char>>(
            repositories[i].path,
        )
}

/// The repositories that were saved are the ones that are loaded, in their order and
/// without a warning, where each of them is found again.
pub proof fn saved_list_loads_again(
    directory: Seq<u8>,
    repositories: Seq<RepositoryModel>,
    answers: TranscriptModel,
)
    requires
        distinct(repositories),
        answers.configs.len() > 0,
        answers.configs[0] == ConfigFileModel::Contents(
            Ok::<Seq<Seq<char>>, Seq<char>>(saved_roots(repositories)),
        ),
        found_again(repositories, answers),
    ensures
        load_repositories_step(Some(directory), answers) == Step::<
            RequestModel,
            Result<LoadedModel, Seq<char>>,
        >::Done(Ok(LoadedModel { repositories: fresh(repositories), warnings: Seq::empty() })),
{
    saved_roots_load_again(repositories, answers, repositories.len());
    assert(fresh(repositories).take(repositories.len() as int) =~= fresh(repositories));
}

/// The list is read from the file that a saved list is moved to, and what that file
/// is understood to hold is handed on as it is: the same paths in the same order,
/// those that occur twice included.
pub proof fn saved_list_is_read_back(
    directory: Seq<u8>,
    roots: Seq<Seq<char>>,
    saving: TranscriptModel,
    reading: TranscriptModel,
)
    ensures
        save_config_step(Some(directory), roots, saving) matches Step::Ask(
            RequestModel::EncodeConfig(list),
        ) ==> list == roots,
        save_config_step(Some(directory), roots, saving) matches Step::Ask(
            RequestModel::Rename { to, .. },
        ) ==> (load_config_step(Some(directory), reading) matches Step::Ask(request) ==> request
            == RequestModel::ReadConfig(to)),
        reading.configs.len() > 0 && reading.configs[0] == ConfigFileModel::Contents(
            Ok::<Seq<Seq<char>>, Seq<char>>(roots),
        ) ==> load_config_step(Some(directory), reading) == Step::<
            RequestModel,
            Result<Seq<Seq<char>>, Seq<char>>,
        >::Done(Ok(roots)),
{
}

/// A list that was never saved loads as an empty one.
pub proof fn first_start_loads_nothing(directory: Seq<u8>, answers: TranscriptModel)
    requires
        answers.configs.len() > 0,
        answers.configs[0] is Missing,
    ensures
        load_repositories_step(Some(directory), answers) == Step::<
            RequestModel,
            Result<LoadedModel, Seq<char>>,
        >::Done(Ok(nothing_loaded())),
{
}

} // verus!
