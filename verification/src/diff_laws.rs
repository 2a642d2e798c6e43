//! What a worktree is compared with, and what the diff and the pull request tell.
use vstd::prelude::*;
use vstd::utf8::encode_utf8;

use crate::diff::{branch_candidates, branch_reference_step, default_base, diff_base_step, fallback_base, first_existing, github_pr_base_step, load_diff_step, pull_request_step, reference_exists_step, DiffBaseModel, FoundBaseModel, FoundReferenceModel, PullRequestModel};
use crate::lines::trimmed_lines;
use crate::operation_laws::{asks, ends, running};
use crate::step::{Report, RequestModel, Step};
use crate::text::trimmed;
use crate::truncate::{shown_diff, short_diff_is_shown_whole};

verus! {

// ── References ────────────────────────────────────────────────────────────

/// The request that checks whether a reference names a commit.
pub open spec fn checking(path: Seq<u8>, reference: Seq<char>) -> RequestModel {
    running(
        "git"@,
        path,
        seq!["rev-parse"@, "--verify"@, "--quiet"@, reference + "^{commit}"@],
    )
}

/// Whether the `count` reports from `at` on all failed.
pub open spec fn all_failed(reports: Seq<Report>, at: nat, count: nat) -> bool {
    &&& at + count <= reports.len()
    &&& forall|i: int| at <= i < at + count ==> #[trigger] reports[i] is Err
}

/// A reference exists just where Git finds the commit that it names.
pub proof fn reference_is_checked(
    path: Seq<u8>,
    reference: Seq<char>,
    reports: Seq<Report>,
    at: nat,
)
    ensures
        at >= reports.len() ==> asks(
            reference_exists_step(path, reference, reports, at),
            checking(path, reference),
        ),
        at < reports.len() ==> ends(
            reference_exists_step(path, reference, reports, at),
            reports[at as int] is Ok,
        ),
{
}

/// The candidates are checked one after the other, up to the first that exists.
proof fn candidates_in_turn(
    path: Seq<u8>,
    candidates: Seq<Seq<char>>,
    reports: Seq<Report>,
    at: nat,
    count: nat,
)
    requires
        all_failed(reports, at, count),
        count <= candidates.len(),
    ensures
        ({
            let step = first_existing(path, candidates, reports, at);
            if count == candidates.len() {
                ends(step, FoundReferenceModel { reference: None, next: at + count })
            } else if at + count >= reports.len() {
                asks(step, checking(path, candidates[count as int]))
            } else {
                reports[at as int + count] is Ok ==> ends(
                    step,
                    FoundReferenceModel {
                        reference: Some(candidates[count as int]),
                        next: at + count + 1,
                    },
                )
            }
        }),
    decreases count,
{
    if count > 0 {
        assert(reports[at as int] is Err);
        assert(all_failed(reports, at + 1, (count - 1) as nat));
        candidates_in_turn(path, candidates.drop_first(), reports, at + 1, (count - 1) as nat);
    }
}

/// A branch is looked for locally, and then on each remote in the order in which Git
/// names them. The first place where it exists is its reference; where it exists
/// nowhere, or Git names no remotes, it has none.
pub proof fn branch_is_looked_for_in_turn(
    path: Seq<u8>,
    branch: Seq<char>,
    reports: Seq<Report>,
    at: nat,
    count: nat,
)
    ensures
        ({
            let step = branch_reference_step(path, branch, reports, at);
            if at >= reports.len() {
                asks(step, running("git"@, path, seq!["remote"@]))
            } else {
                match reports[at as int] {
                    Err(_) => ends(step, FoundReferenceModel { reference: None, next: at + 1 }),
                    Ok(listing) => {
                        let remotes = trimmed_lines(listing);
                        let place = if count == 0 {
                            "refs/heads/"@ + branch
                        } else {
                            "refs/remotes/"@ + remotes[count - 1] + "/"@ + branch
                        };
                        all_failed(reports, at + 1, count) && count <= remotes.len() + 1 ==> if count
                            == remotes.len() + 1 {
                            ends(
                                step,
                                FoundReferenceModel { reference: None, next: at + 1 + count },
                            )
                        } else if at + 1 + count >= reports.len() {
                            asks(step, checking(path, place))
                        } else {
                            reports[at as int + 1 + count] is Ok ==> ends(
                                step,
                                FoundReferenceModel {
                                    reference: Some(place),
                                    next: at + 2 + count,
                                },
                            )
                        }
                    },
                }
            }
        }),
{
    if at < reports.len() {
        if let Ok(listing) = reports[at as int] {
            let candidates = branch_candidates(branch, listing);
            if all_failed(reports, at + 1, count) && count <= candidates.len() {
                candidates_in_turn(path, candidates, reports, at + 1, count);
            }
        }
    }
}

// ── The base ──────────────────────────────────────────────────────────────

/// The base of the pull request is asked of GitHub in the worktree. It is what GitHub
/// says without the whitespace around it, and none where that is nothing or GitHub
/// fails.
pub proof fn pull_request_base_is_asked(path: Seq<u8>, reports: Seq<Report>, at: nat)
    ensures
        at >= reports.len() ==> asks(
            github_pr_base_step(path, reports, at),
            running(
                "gh"@,
                path,
                seq!["pr"@, "view"@, "--json"@, "baseRefName"@, "--jq"@, ".baseRefName"@],
            ),
        ),
        at < reports.len() ==> match reports[at as int] {
            Ok(text) if trimmed(text).len() > 0 => ends(
                github_pr_base_step(path, reports, at),
                Some(trimmed(text)),
            ),
            _ => ends(github_pr_base_step(path, reports, at), None),
        },
{
}

/// The base is the reference of the branch that the pull request goes into, where that
/// branch is known here, and else the fallback.
pub proof fn base_is_pull_request_base_or_fallback(path: Seq<u8>, reports: Seq<Report>, at: nat)
    ensures
        match github_pr_base_step(path, reports, at) {
            Step::Ask(request) => asks(diff_base_step(path, reports, at), request),
            Step::Done(None) => diff_base_step(path, reports, at) == fallback_base(
                path,
                reports,
                at + 1,
            ),
            Step::Done(Some(branch)) => match branch_reference_step(path, branch, reports, at + 1) {
                Step::Ask(request) => asks(diff_base_step(path, reports, at), request),
                Step::Done(found) => match found.reference {
                    Some(reference) => ends(
                        diff_base_step(path, reports, at),
                        FoundBaseModel {
                            base: Ok(
                                DiffBaseModel {
                                    reference,
                                    description: "GitHub PR base: "@ + branch,
                                },
                            ),
                            next: found.next,
                        },
                    ),
                    None => diff_base_step(path, reports, at) == fallback_base(
                        path,
                        reports,
                        found.next,
                    ),
                },
            },
        },
{
}

/// The fallback is the upstream branch where there is one. Else Git is asked for the
/// remotes, and their default branches are looked at.
pub proof fn fallback_is_upstream_or_default(path: Seq<u8>, reports: Seq<Report>, at: nat)
    ensures
        ({
            let step = fallback_base(path, reports, at);
            if at >= reports.len() {
                asks(step, checking(path, "@{upstream}"@))
            } else if reports[at as int] is Ok {
                ends(
                    step,
                    FoundBaseModel {
                        base: Ok(
                            DiffBaseModel {
                                reference: "@{upstream}"@,
                                description: "upstream branch"@,
                            },
                        ),
                        next: at + 1,
                    },
                )
            } else if at + 1 >= reports.len() {
                asks(step, running("git"@, path, seq!["remote"@]))
            } else {
                match reports[at as int + 1] {
                    Ok(listing) => step == default_base(
                        path,
                        trimmed_lines(listing),
                        reports,
                        at + 2,
                    ),
                    Err(error) => ends(step, FoundBaseModel { base: Err(error), next: at + 2 }),
                }
            }
        }),
{
}

/// Each remote is asked for its default branch, in turn. The first that names a
/// commit is the base, with a description that names the remote and the branch; one
/// that has none, or whose branch names no commit, is passed over.
pub proof fn default_branches_are_tried_in_turn(
    path: Seq<u8>,
    remote: Seq<char>,
    others: Seq<Seq<char>>,
    reports: Seq<Report>,
    at: nat,
)
    ensures
        ends(
            default_base(path, Seq::empty(), reports, at),
            FoundBaseModel {
                base: Err(
                    "no PR base, upstream branch, or local remote default branch is available"@,
                ),
                next: at,
            },
        ),
        ({
            let step = default_base(path, seq![remote] + others, reports, at);
            if at >= reports.len() {
                asks(
                    step,
                    running(
                        "git"@,
                        path,
                        seq![
                            "symbolic-ref"@,
                            "--quiet"@,
                            "--short"@,
                            "refs/remotes/"@ + remote + "/HEAD"@,
                        ],
                    ),
                )
            } else {
                match reports[at as int] {
                    Err(_) => step == default_base(path, others, reports, at + 1),
                    Ok(text) => if at + 1 >= reports.len() {
                        asks(step, checking(path, trimmed(text)))
                    } else if reports[at as int + 1] is Ok {
                        ends(
                            step,
                            FoundBaseModel {
                                base: Ok(
                                    DiffBaseModel {
                                        reference: trimmed(text),
                                        description: remote + " default branch ("@ + trimmed(text)
                                            + ")"@,
                                    },
                                ),
                                next: at + 2,
                            },
                        )
                    } else {
                        step == default_base(path, others, reports, at + 2)
                    },
                }
            }
        }),
{
    let all = seq![remote] + others;
    assert(all.drop_first() =~= others);
    assert(all.first() == remote);
}

// ── The diff ──────────────────────────────────────────────────────────────

/// The diff is asked of Git against the base that was found, and shown with the
/// description of that base. One of at most 250,000 bytes is shown as Git printed it.
/// Where there is no base, or Git fails, that is the result.
pub proof fn diff_is_against_its_base(path: Seq<u8>, reports: Seq<Report>)
    ensures
        match diff_base_step(path, reports, 0) {
            Step::Ask(request) => asks(load_diff_step(path, reports), request),
            Step::Done(found) => match found.base {
                Err(error) => ends(load_diff_step(path, reports), Err(error)),
                Ok(base) => if found.next >= reports.len() {
                    asks(
                        load_diff_step(path, reports),
                        running(
                            "git"@,
                            path,
                            seq![
                                "diff"@,
                                "--no-ext-diff"@,
                                "--color=never"@,
                                base.reference + "...HEAD"@,
                                "--"@,
                            ],
                        ),
                    )
                } else {
                    match reports[found.next as int] {
                        Err(error) => ends(load_diff_step(path, reports), Err(error)),
                        Ok(text) => {
                            &&& load_diff_step(path, reports) matches Step::Done(Ok(diff))
                            &&& diff.base == base.description
                            &&& diff.contents == shown_diff(text)
                            &&& encode_utf8(text).len() <= 250_000 ==> diff.contents == text
                        },
                    }
                },
            },
        },
{
    if let Step::Done(found) = diff_base_step(path, reports, 0) {
        if found.next < reports.len() {
            if let Ok(text) = reports[found.next as int] {
                if encode_utf8(text).len() <= 250_000 {
                    short_diff_is_shown_whole(text);
                }
            }
        }
    }
}

// ── The pull request ──────────────────────────────────────────────────────

/// The pull request is asked of GitHub in the worktree. The first line of the answer
/// that is not blank is its title, and the second its address; without both there is
/// none, nor where GitHub fails.
pub proof fn pull_request_has_title_and_address(path: Seq<u8>, reports: Seq<Report>, at: nat)
    ensures
        at >= reports.len() ==> asks(
            pull_request_step(path, reports, at),
            running(
                "gh"@,
                path,
                seq!["pr"@, "view"@, "--json"@, "title,url"@, "--jq"@, ".title, .url"@],
            ),
        ),
        at < reports.len() ==> match reports[at as int] {
            Ok(text) if trimmed_lines(text).len() >= 2 => ends(
                pull_request_step(path, reports, at),
                Some(
                    PullRequestModel { title: trimmed_lines(text)[0], url: trimmed_lines(text)[1] },
                ),
            ),
            _ => ends(pull_request_step(path, reports, at), None),
        },
{
}

} // verus!
