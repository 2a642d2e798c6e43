//! What a worktree is compared with, the diff, and the pull request.
use vstd::prelude::*;
use vstd::string::*;

use crate::command::{git, git_command, git_with_args, owned, Command, CommandModel};
use crate::lines::{trimmed_lines, trimmed_lines_of};
use crate::path::FilePath;
use crate::step::{step_option_view, step_result_view, step_view, Report, Request, RequestModel, Step, Transcript};
use crate::text::{join2, join3, trim, trimmed};
use crate::truncate::{shown_diff, truncate_diff};
use crate::views::{option_view, result_view, views, views_push};

verus! {

// ── Values ────────────────────────────────────────────────────────────────

/// A pull request on GitHub.
#[derive(Debug, PartialEq, Eq)]
pub struct PullRequest {
    pub title: String,
    pub url: String,
}

/// What a `PullRequest` holds.
pub struct PullRequestModel {
    pub title: Seq<char>,
    pub url: Seq<char>,
}

impl View for PullRequest {
    type V = PullRequestModel;

    open spec fn view(&self) -> PullRequestModel {
        PullRequestModel { title: self.title@, url: self.url@ }
    }
}

impl Clone for PullRequest {
    fn clone(&self) -> (copy: Self)
        ensures
            copy@ == self@,
    {
        PullRequest { title: self.title.clone(), url: self.url.clone() }
    }
}

/// A diff, with a description of what it compares with.
#[derive(Debug, PartialEq, Eq)]
pub struct Diff {
    pub base: String,
    pub contents: String,
}

/// What a `Diff` holds.
pub struct DiffModel {
    pub base: Seq<char>,
    pub contents: Seq<char>,
}

impl View for Diff {
    type V = DiffModel;

    open spec fn view(&self) -> DiffModel {
        DiffModel { base: self.base@, contents: self.contents@ }
    }
}

impl Clone for Diff {
    fn clone(&self) -> (copy: Self)
        ensures
            copy@ == self@,
    {
        Diff { base: self.base.clone(), contents: self.contents.clone() }
    }
}

/// What a worktree is compared with: a revision, and what it is.
#[derive(Debug, PartialEq, Eq)]
pub struct DiffBase {
    pub reference: String,
    pub description: String,
}

/// What a `DiffBase` holds.
pub struct DiffBaseModel {
    pub reference: Seq<char>,
    pub description: Seq<char>,
}

impl View for DiffBase {
    type V = DiffBaseModel;

    open spec fn view(&self) -> DiffBaseModel {
        DiffBaseModel { reference: self.reference@, description: self.description@ }
    }
}

/// What a search for a reference found, and how many reports have been used.
#[derive(Debug, PartialEq, Eq)]
pub struct FoundReference {
    pub reference: Option<String>,
    pub next: usize,
}

/// What a `FoundReference` holds.
pub struct FoundReferenceModel {
    pub reference: Option<Seq<char>>,
    pub next: nat,
}

impl View for FoundReference {
    type V = FoundReferenceModel;

    open spec fn view(&self) -> FoundReferenceModel {
        FoundReferenceModel { reference: option_view(self.reference), next: self.next as nat }
    }
}

/// What a search for a base found, and how many reports have been used.
#[derive(Debug, PartialEq, Eq)]
pub struct FoundBase {
    pub base: Result<DiffBase, String>,
    pub next: usize,
}

/// What a `FoundBase` holds.
pub struct FoundBaseModel {
    pub base: Result<DiffBaseModel, Seq<char>>,
    pub next: nat,
}

impl View for FoundBase {
    type V = FoundBaseModel;

    open spec fn view(&self) -> FoundBaseModel {
        FoundBaseModel { base: result_view(self.base), next: self.next as nat }
    }
}

// ── Whether a reference exists ────────────────────────────────────────────

/// Asks Git whether `reference` names a commit.
pub open spec fn reference_check(path: Seq<u8>, reference: Seq<char>) -> RequestModel {
    RequestModel::Run(
        git_command(
            path,
            seq!["rev-parse"@, "--verify"@, "--quiet"@, reference + "^{commit}"@],
        ),
    )
}

/// Whether `reference` names a commit, by the report at `at`.
pub open spec fn reference_exists_step(
    path: Seq<u8>,
    reference: Seq<char>,
    reports: Seq<Report>,
    at: nat,
) -> Step<RequestModel, bool> {
    if at < reports.len() {
        Step::Done(reports[at as int] is Ok)
    } else {
        Step::Ask(reference_check(path, reference))
    }
}

/// Whether `reference` names a commit, by the report at `at`.
pub fn reference_exists(path: &FilePath, reference: &str, transcript: &Transcript, at: usize) -> (step: Step<
    Request,
    bool,
>)
    ensures
        step_view(step) == reference_exists_step(path@, reference@, transcript@.reports, at as nat),
        step is Done <==> at < transcript.reports.len(),
{
    if at < transcript.reports.len() {
        assert(transcript@.reports[at as int] == result_view(transcript.reports@[at as int]));
        Step::Done(transcript.reports[at].is_ok())
    } else {
        let revision = join2(reference, "^{commit}");
        let arguments = vec!["rev-parse", "--verify", "--quiet", revision.as_str()];
        let command = git(path, arguments.as_slice());
        assert(views(arguments@) == seq![
            "rev-parse"@,
            "--verify"@,
            "--quiet"@,
            reference@ + "^{commit}"@,
        ]);
        Step::Ask(Request::Run(command))
    }
}

// ── The base of the pull request ──────────────────────────────────────────

/// Asks GitHub's command-line tool for the base branch of the pull request.
pub open spec fn pr_base_query(path: Seq<u8>) -> RequestModel {
    RequestModel::Run(
        CommandModel {
            program: "gh"@,
            directory: path,
            arguments: seq![
                "pr"@,
                "view"@,
                "--json"@,
                "baseRefName"@,
                "--jq"@,
                ".baseRefName"@,
            ],
        },
    )
}

/// The branch that a report names, unless it failed or named none.
pub open spec fn named_branch(report: Report) -> Option<Seq<char>> {
    match report {
        Ok(text) => if trimmed(text).len() > 0 {
            Some(trimmed(text))
        } else {
            None
        },
        Err(_) => None,
    }
}

/// The base branch of the pull request, by the report at `at`.
pub open spec fn github_pr_base_step(path: Seq<u8>, reports: Seq<Report>, at: nat) -> Step<
    RequestModel,
    Option<Seq<char>>,
> {
    if at < reports.len() {
        Step::Done(named_branch(reports[at as int]))
    } else {
        Step::Ask(pr_base_query(path))
    }
}

/// The base branch of the pull request, by the report at `at`.
pub fn github_pr_base(path: &FilePath, transcript: &Transcript, at: usize) -> (step: Step<
    Request,
    Option<String>,
>)
    ensures
        step_option_view(step) == github_pr_base_step(path@, transcript@.reports, at as nat),
        step is Done <==> at < transcript.reports.len(),
{
    if at < transcript.reports.len() {
        assert(transcript@.reports[at as int] == result_view(transcript.reports@[at as int]));
        match &transcript.reports[at] {
            Ok(text) => {
                let branch = trim(text.as_str());
                if branch.as_str().is_empty() {
                    Step::Done(None)
                } else {
                    Step::Done(Some(branch))
                }
            },
            Err(_) => Step::Done(None),
        }
    } else {
        let arguments = vec!["pr", "view", "--json", "baseRefName", "--jq", ".baseRefName"];
        assert(views(arguments@) == seq![
            "pr"@,
            "view"@,
            "--json"@,
            "baseRefName"@,
            "--jq"@,
            ".baseRefName"@,
        ]);
        Step::Ask(
            Request::Run(
                Command {
                    program: "gh".to_owned(),
                    directory: path.clone(),
                    arguments: owned(arguments.as_slice()),
                },
            ),
        )
    }
}

// ── Where a branch is known ───────────────────────────────────────────────

/// Asks Git for the names of the remotes.
pub open spec fn remote_list(path: Seq<u8>) -> RequestModel {
    RequestModel::Run(git_command(path, seq!["remote"@]))
}

/// Asks Git for the names of the remotes.
pub fn list_remotes(path: &FilePath) -> (request: Request)
    ensures
        request@ == remote_list(path@),
{
    let arguments = vec!["remote"];
    assert(views(arguments@) == seq!["remote"@]);
    Request::Run(git(path, arguments.as_slice()))
}

/// The full names that `branch` can have, locally and then on each of the
/// remotes that `listing` names.
pub open spec fn branch_candidates(branch: Seq<char>, listing: Seq<char>) -> Seq<Seq<char>> {
    seq!["refs/heads/"@ + branch] + trimmed_lines(listing).map_values(
        |remote: Seq<char>| "refs/remotes/"@ + remote + "/"@ + branch,
    )
}

/// The first of the `candidates` that names a commit. Each one is checked by a
/// report of its own, from `at` on.
pub open spec fn first_existing(
    path: Seq<u8>,
    candidates: Seq<Seq<char>>,
    reports: Seq<Report>,
    at: nat,
) -> Step<RequestModel, FoundReferenceModel>
    decreases candidates.len(),
{
    if candidates.len() == 0 {
        Step::Done(FoundReferenceModel { reference: None, next: at })
    } else {
        match reference_exists_step(path, candidates.first(), reports, at) {
            Step::Ask(request) => Step::Ask(request),
            Step::Done(true) => Step::Done(
                FoundReferenceModel { reference: Some(candidates.first()), next: at + 1 },
            ),
            Step::Done(false) => first_existing(path, candidates.drop_first(), reports, at + 1),
        }
    }
}

/// The full name under which `branch` is known, by the reports from `at` on.
pub open spec fn branch_reference_step(
    path: Seq<u8>,
    branch: Seq<char>,
    reports: Seq<Report>,
    at: nat,
) -> Step<RequestModel, FoundReferenceModel> {
    if at < reports.len() {
        match reports[at as int] {
            Ok(listing) => first_existing(
                path,
                branch_candidates(branch, listing),
                reports,
                at + 1,
            ),
            Err(_) => Step::Done(FoundReferenceModel { reference: None, next: at + 1 }),
        }
    } else {
        Step::Ask(remote_list(path))
    }
}

/// The full names that `branch` can have.
fn candidates_of(branch: &str, listing: &str) -> (candidates: Vec<String>)
    ensures
        views(candidates@) == branch_candidates(branch@, listing@),
{
    let remotes = trimmed_lines_of(listing);
    let mut candidates: Vec<String> = Vec::new();
    candidates.push(join2("refs/heads/", branch));
    let ghost full = |remote: Seq<char>| "refs/remotes/"@ + remote + "/"@ + branch@;
    let ghost local = seq!["refs/heads/"@ + branch@];
    assert(views(candidates@) == local + views(remotes@).take(0).map_values(full));
    for i in 0..remotes.len()
        invariant
            full == (|remote: Seq<char>| "refs/remotes/"@ + remote + "/"@ + branch@),
            views(candidates@) == local + views(remotes@).take(i as int).map_values(full),
    {
        let mut candidate = join3("refs/remotes/", remotes[i].as_str(), "/");
        candidate.append(branch);
        proof {
            views_push(candidates@, candidate);
            assert(candidate@ == full(views(remotes@)[i as int]));
            assert(views(remotes@).take(i + 1).map_values(full) == views(remotes@).take(
                i as int,
            ).map_values(full).push(candidate@));
        }
        candidates.push(candidate);
    }
    assert(views(remotes@).take(remotes@.len() as int) == views(remotes@));
    candidates
}

/// The full name under which `branch` is known, by the reports from `at` on.
pub fn resolve_branch_reference(
    path: &FilePath,
    branch: &str,
    transcript: &Transcript,
    at: usize,
) -> (step: Step<Request, FoundReference>)
    ensures
        step_view(step) == branch_reference_step(path@, branch@, transcript@.reports, at as nat),
        step matches Step::Done(found) ==> at < found.next <= transcript.reports.len(),
{
    if at >= transcript.reports.len() {
        return Step::Ask(list_remotes(path));
    }
    assert(transcript@.reports[at as int] == result_view(transcript.reports@[at as int]));
    let candidates = match &transcript.reports[at] {
        Ok(listing) => candidates_of(branch, listing.as_str()),
        Err(_) => return Step::Done(FoundReference { reference: None, next: at + 1 }),
    };
    let mut next: usize = at + 1;
    assert(views(candidates@).skip(0) == views(candidates@));
    for i in 0..candidates.len()
        invariant
            at < transcript@.reports.len(),
            at < next <= transcript@.reports.len(),
            transcript@.reports.len() == transcript.reports@.len(),
            branch_reference_step(path@, branch@, transcript@.reports, at as nat)
                == first_existing(
                path@,
                views(candidates@).skip(i as int),
                transcript@.reports,
                next as nat,
            ),
    {
        let ghost rest = views(candidates@).skip(i as int);
        assert(rest.first() == candidates@[i as int]@);
        assert(rest.drop_first() == views(candidates@).skip(i + 1));
        match reference_exists(path, candidates[i].as_str(), transcript, next) {
            Step::Ask(request) => return Step::Ask(request),
            Step::Done(exists) => {
                if exists {
                    return Step::Done(
                        FoundReference { reference: Some(candidates[i].clone()), next: next + 1 },
                    );
                }
            },
        }
        next = next + 1;
    }
    Step::Done(FoundReference { reference: None, next })
}

// ── The base ──────────────────────────────────────────────────────────────

/// Asks Git which branch a remote has as its default.
pub open spec fn default_branch_query(path: Seq<u8>, remote: Seq<char>) -> RequestModel {
    RequestModel::Run(
        git_command(
            path,
            seq![
                "symbolic-ref"@,
                "--quiet"@,
                "--short"@,
                "refs/remotes/"@ + remote + "/HEAD"@,
            ],
        ),
    )
}

/// The first default branch of the `remotes` that names a commit. Each remote is
/// asked for its default branch, and that one is checked, by the reports from `at` on.
pub open spec fn default_base(
    path: Seq<u8>,
    remotes: Seq<Seq<char>>,
    reports: Seq<Report>,
    at: nat,
) -> Step<RequestModel, FoundBaseModel>
    decreases remotes.len(),
{
    if remotes.len() == 0 {
        Step::Done(
            FoundBaseModel {
                base: Err(
                    "no PR base, upstream branch, or local remote default branch is available"@,
                ),
                next: at,
            },
        )
    } else if at >= reports.len() {
        Step::Ask(default_branch_query(path, remotes.first()))
    } else {
        match reports[at as int] {
            Err(_) => default_base(path, remotes.drop_first(), reports, at + 1),
            Ok(text) => match reference_exists_step(path, trimmed(text), reports, at + 1) {
                Step::Ask(request) => Step::Ask(request),
                Step::Done(true) => Step::Done(
                    FoundBaseModel {
                        base: Ok(
                            DiffBaseModel {
                                reference: trimmed(text),
                                description: remotes.first() + " default branch ("@ + trimmed(text)
                                    + ")"@,
                            },
                        ),
                        next: at + 2,
                    },
                ),
                Step::Done(false) => default_base(path, remotes.drop_first(), reports, at + 2),
            },
        }
    }
}

/// The base where there is no pull request: the upstream branch, or else the
/// default branch of a remote.
pub open spec fn fallback_base(path: Seq<u8>, reports: Seq<Report>, at: nat) -> Step<
    RequestModel,
    FoundBaseModel,
> {
    match reference_exists_step(path, "@{upstream}"@, reports, at) {
        Step::Ask(request) => Step::Ask(request),
        Step::Done(true) => Step::Done(
            FoundBaseModel {
                base: Ok(
                    DiffBaseModel {
                        reference: "@{upstream}"@,
                        description: "upstream branch"@,
                    },
                ),
                next: at + 1,
            },
        ),
        Step::Done(false) => if at + 1 < reports.len() {
            match reports[at as int + 1] {
                Ok(listing) => default_base(path, trimmed_lines(listing), reports, at + 2),
                Err(error) => Step::Done(FoundBaseModel { base: Err(error), next: at + 2 }),
            }
        } else {
            Step::Ask(remote_list(path))
        },
    }
}

/// What the worktree at `path` is compared with: the base of its pull request
/// where that is known here, or else its fallback.
pub open spec fn diff_base_step(path: Seq<u8>, reports: Seq<Report>, at: nat) -> Step<
    RequestModel,
    FoundBaseModel,
> {
    match github_pr_base_step(path, reports, at) {
        Step::Ask(request) => Step::Ask(request),
        Step::Done(None) => fallback_base(path, reports, at + 1),
        Step::Done(Some(branch)) => match branch_reference_step(path, branch, reports, at + 1) {
            Step::Ask(request) => Step::Ask(request),
            Step::Done(found) => match found.reference {
                Some(reference) => Step::Done(
                    FoundBaseModel {
                        base: Ok(
                            DiffBaseModel { reference, description: "GitHub PR base: "@ + branch },
                        ),
                        next: found.next,
                    },
                ),
                None => fallback_base(path, reports, found.next),
            },
        },
    }
}

/// The first default branch of the `remotes` that names a commit.
fn resolve_default(path: &FilePath, remotes: &Vec<String>, transcript: &Transcript, at: usize) -> (step: Step<
    Request,
    FoundBase,
>)
    requires
        at <= transcript@.reports.len(),
    ensures
        step_view(step) == default_base(
            path@,
            views(remotes@),
            transcript@.reports,
            at as nat,
        ),
        step matches Step::Done(found) ==> at <= found.next <= transcript.reports.len(),
{
    let mut next: usize = at;
    assert(views(remotes@).skip(0) == views(remotes@));
    for i in 0..remotes.len()
        invariant
            at <= next <= transcript@.reports.len(),
            transcript@.reports.len() == transcript.reports@.len(),
            default_base(path@, views(remotes@), transcript@.reports, at as nat) == default_base(
                path@,
                views(remotes@).skip(i as int),
                transcript@.reports,
                next as nat,
            ),
    {
        let remote = remotes[i].as_str();
        let ghost rest = views(remotes@).skip(i as int);
        assert(rest.first() == remote@);
        assert(rest.drop_first() == views(remotes@).skip(i + 1));
        if next >= transcript.reports.len() {
            let symbolic = join3("refs/remotes/", remote, "/HEAD");
            let arguments = vec!["symbolic-ref", "--quiet", "--short", symbolic.as_str()];
            assert(views(arguments@) == seq![
                "symbolic-ref"@,
                "--quiet"@,
                "--short"@,
                "refs/remotes/"@ + remote@ + "/HEAD"@,
            ]);
            return Step::Ask(Request::Run(git(path, arguments.as_slice())));
        }
        assert(transcript@.reports[next as int] == result_view(transcript.reports@[next as int]));
        match &transcript.reports[next] {
            Err(_) => {
                next = next + 1;
            },
            Ok(text) => {
                let reference = trim(text.as_str());
                match reference_exists(path, reference.as_str(), transcript, next + 1) {
                    Step::Ask(request) => return Step::Ask(request),
                    Step::Done(exists) => {
                        if exists {
                            let mut description = join3(
                                remote,
                                " default branch (",
                                reference.as_str(),
                            );
                            description.append(")");
                            return Step::Done(
                                FoundBase {
                                    base: Ok(DiffBase { reference, description }),
                                    next: next + 2,
                                },
                            );
                        }
                    },
                }
                next = next + 2;
            },
        }
    }
    assert(views(remotes@).skip(remotes@.len() as int).len() == 0);
    Step::Done(
        FoundBase {
            base: Err(
                "no PR base, upstream branch, or local remote default branch is available".to_owned(),
            ),
            next,
        },
    )
}

/// The base where there is no pull request.
fn resolve_fallback(path: &FilePath, transcript: &Transcript, at: usize) -> (step: Step<
    Request,
    FoundBase,
>)
    requires
        at <= transcript@.reports.len(),
    ensures
        step_view(step) == fallback_base(path@, transcript@.reports, at as nat),
        step matches Step::Done(found) ==> at <= found.next <= transcript.reports.len(),
{
    match reference_exists(path, "@{upstream}", transcript, at) {
        Step::Ask(request) => return Step::Ask(request),
        Step::Done(exists) => {
            if exists {
                return Step::Done(
                    FoundBase {
                        base: Ok(
                            DiffBase {
                                reference: "@{upstream}".to_owned(),
                                description: "upstream branch".to_owned(),
                            },
                        ),
                        next: at + 1,
                    },
                );
            }
        },
    }
    if at + 1 >= transcript.reports.len() {
        return Step::Ask(list_remotes(path));
    }
    assert(transcript@.reports[at + 1] == result_view(transcript.reports@[at + 1]));
    match &transcript.reports[at + 1] {
        Ok(listing) => resolve_default(
            path,
            &trimmed_lines_of(listing.as_str()),
            transcript,
            at + 2,
        ),
        Err(error) => Step::Done(FoundBase { base: Err(error.clone()), next: at + 2 }),
    }
}

/// What the worktree at `path` is compared with, by the reports from `at` on.
pub fn resolve_diff_base(path: &FilePath, transcript: &Transcript, at: usize) -> (step: Step<
    Request,
    FoundBase,
>)
    ensures
        step_view(step) == diff_base_step(path@, transcript@.reports, at as nat),
        step matches Step::Done(found) ==> at < found.next <= transcript.reports.len(),
{
    match github_pr_base(path, transcript, at) {
        Step::Ask(request) => Step::Ask(request),
        Step::Done(None) => resolve_fallback(path, transcript, at + 1),
        Step::Done(Some(branch)) => match resolve_branch_reference(
            path,
            branch.as_str(),
            transcript,
            at + 1,
        ) {
            Step::Ask(request) => Step::Ask(request),
            Step::Done(found) => match found.reference {
                Some(reference) => Step::Done(
                    FoundBase {
                        base: Ok(
                            DiffBase {
                                reference,
                                description: join2("GitHub PR base: ", branch.as_str()),
                            },
                        ),
                        next: found.next,
                    },
                ),
                None => resolve_fallback(path, transcript, found.next),
            },
        },
    }
}

// ── The pull request ──────────────────────────────────────────────────────

/// Asks GitHub's command-line tool for the title and the address of the pull
/// request, one per line.
pub open spec fn pull_request_query(path: Seq<u8>) -> RequestModel {
    RequestModel::Run(
        CommandModel {
            program: "gh"@,
            directory: path,
            arguments: seq!["pr"@, "view"@, "--json"@, "title,url"@, "--jq"@, ".title, .url"@],
        },
    )
}

/// The pull request that a report tells of, unless it failed or lacks the title or
/// the address.
pub open spec fn told_pull_request(report: Report) -> Option<PullRequestModel> {
    match report {
        Ok(text) => if trimmed_lines(text).len() >= 2 {
            Some(
                PullRequestModel { title: trimmed_lines(text)[0], url: trimmed_lines(text)[1] },
            )
        } else {
            None
        },
        Err(_) => None,
    }
}

/// The pull request of the branch at `path`, by the report at `at`.
pub open spec fn pull_request_step(path: Seq<u8>, reports: Seq<Report>, at: nat) -> Step<
    RequestModel,
    Option<PullRequestModel>,
> {
    if at < reports.len() {
        Step::Done(told_pull_request(reports[at as int]))
    } else {
        Step::Ask(pull_request_query(path))
    }
}

/// The pull request of the branch at `path`, by the report at `at`.
pub fn pull_request(path: &FilePath, transcript: &Transcript, at: usize) -> (step: Step<
    Request,
    Option<PullRequest>,
>)
    ensures
        step_option_view(step) == pull_request_step(path@, transcript@.reports, at as nat),
{
    if at < transcript.reports.len() {
        assert(transcript@.reports[at as int] == result_view(transcript.reports@[at as int]));
        match &transcript.reports[at] {
            Ok(text) => {
                let told = trimmed_lines_of(text.as_str());
                if told.len() >= 2 {
                    assert(views(told@)[0] == told@[0]@ && views(told@)[1] == told@[1]@);
                    Step::Done(
                        Some(PullRequest { title: told[0].clone(), url: told[1].clone() }),
                    )
                } else {
                    Step::Done(None)
                }
            },
            Err(_) => Step::Done(None),
        }
    } else {
        let arguments = vec!["pr", "view", "--json", "title,url", "--jq", ".title, .url"];
        assert(views(arguments@) == seq![
            "pr"@,
            "view"@,
            "--json"@,
            "title,url"@,
            "--jq"@,
            ".title, .url"@,
        ]);
        Step::Ask(
            Request::Run(
                Command {
                    program: "gh".to_owned(),
                    directory: path.clone(),
                    arguments: owned(arguments.as_slice()),
                },
            ),
        )
    }
}

// ── The diff ──────────────────────────────────────────────────────────────

/// Asks Git for what changed since the worktree left `reference`.
pub open spec fn diff_query(path: Seq<u8>, reference: Seq<char>) -> RequestModel {
    RequestModel::Run(
        git_command(
            path,
            seq!["diff"@, "--no-ext-diff"@, "--color=never"@, reference + "...HEAD"@, "--"@],
        ),
    )
}

/// The diff of the worktree at `path` against its base.
pub open spec fn load_diff_step(path: Seq<u8>, reports: Seq<Report>) -> Step<
    RequestModel,
    Result<DiffModel, Seq<char>>,
> {
    match diff_base_step(path, reports, 0) {
        Step::Ask(request) => Step::Ask(request),
        Step::Done(found) => match found.base {
            Err(error) => Step::Done(Err(error)),
            Ok(base) => if found.next < reports.len() {
                match reports[found.next as int] {
                    Err(error) => Step::Done(Err(error)),
                    Ok(text) => Step::Done(
                        Ok(DiffModel { base: base.description, contents: shown_diff(text) }),
                    ),
                }
            } else {
                Step::Ask(diff_query(path, base.reference))
            },
        },
    }
}

/// The diff of the worktree at `path` against its base.
pub fn load_diff(path: &FilePath, transcript: &Transcript) -> (step: Step<
    Request,
    Result<Diff, String>,
>)
    ensures
        step_result_view(step) == load_diff_step(path@, transcript@.reports),
{
    match resolve_diff_base(path, transcript, 0) {
        Step::Ask(request) => Step::Ask(request),
        Step::Done(found) => match found.base {
            Err(error) => Step::Done(Err(error)),
            Ok(base) => {
                if found.next < transcript.reports.len() {
                    assert(transcript@.reports[found.next as int] == result_view(
                        transcript.reports@[found.next as int],
                    ));
                    match &transcript.reports[found.next] {
                        Err(error) => Step::Done(Err(error.clone())),
                        Ok(text) => Step::Done(
                            Ok(
                                Diff {
                                    base: base.description,
                                    contents: truncate_diff(text.clone()),
                                },
                            ),
                        ),
                    }
                } else {
                    let range = join2(base.reference.as_str(), "...HEAD");
                    let arguments = vec![
                        "diff",
                        "--no-ext-diff",
                        "--color=never",
                        range.as_str(),
                        "--",
                    ];
                    assert(views(arguments@) == seq![
                        "diff"@,
                        "--no-ext-diff"@,
                        "--color=never"@,
                        base.reference@ + "...HEAD"@,
                        "--"@,
                    ]);
                    Step::Ask(Request::Run(git_with_args(path, owned(arguments.as_slice()))))
                }
            },
        },
    }
}

} // verus!
