use wtui::command::Command;
use wtui::diff::{github_pr_base, load_diff, pull_request, reference_exists, resolve_branch_reference, resolve_diff_base, Diff, DiffBase, FoundReference, PullRequest};
use wtui::path::FilePath;
use wtui::step::{Request, Step, Transcript};

const PLACE: &str = "/repos/botanic-feature";

fn place() -> FilePath {
    FilePath::from_text(PLACE)
}

fn ok(text: &str) -> Result<String, String> {
    Ok(text.to_owned())
}

fn no() -> Result<String, String> {
    Err("no".to_owned())
}

fn reported(reports: Vec<Result<String, String>>) -> Transcript {
    let mut transcript = Transcript::new();
    transcript.reports = reports;
    transcript
}

fn command(program: &str, arguments: &[&str]) -> Request {
    Request::Run(Command {
        program: program.to_owned(),
        directory: place(),
        arguments: arguments.iter().map(|argument| (*argument).to_owned()).collect(),
    })
}

fn check(reference: &str) -> Request {
    let revision = format!("{reference}^{{commit}}");
    command("git", &["rev-parse", "--verify", "--quiet", &revision])
}

/// The request that loading the diff comes to, after these reports.
fn asked(reports: Vec<Result<String, String>>) -> Request {
    match load_diff(&place(), &reported(reports)) {
        Step::Ask(request) => request,
        Step::Done(_) => panic!("expected a request"),
    }
}

/// What loading the diff comes to, with these reports.
fn loaded(reports: Vec<Result<String, String>>) -> Result<Diff, String> {
    match load_diff(&place(), &reported(reports)) {
        Step::Ask(_) => panic!("expected a result"),
        Step::Done(result) => result,
    }
}

fn pull_request_query() -> Request {
    command("gh", &["pr", "view", "--json", "title,url", "--jq", ".title, .url"])
}

fn ferns() -> PullRequest {
    PullRequest {
        title: "Grow ferns".to_owned(),
        url: "https://github.com/x/botanic/pull/7".to_owned(),
    }
}

#[test]
fn pull_request_has_a_title_and_an_address() {
    let told = |report| pull_request(&place(), &reported(vec![report]), 0);
    assert_eq!(pull_request(&place(), &Transcript::new(), 0), Step::Ask(pull_request_query()));
    assert_eq!(
        told(ok(" Grow ferns \n\nhttps://github.com/x/botanic/pull/7\n")),
        Step::Done(Some(ferns())),
    );
    assert_eq!(told(ok("Grow ferns\n")), Step::Done(None));
    assert_eq!(told(ok(" \n")), Step::Done(None));
    assert_eq!(told(no()), Step::Done(None));
}

#[test]
fn diff_is_against_the_base_of_the_pull_request() {
    assert_eq!(
        asked(vec![]),
        command("gh", &["pr", "view", "--json", "baseRefName", "--jq", ".baseRefName"]),
    );
    assert_eq!(asked(vec![ok("main\n")]), command("git", &["remote"]));
    assert_eq!(asked(vec![ok("main\n"), ok("origin\n fork \n")]), check("refs/heads/main"));
    assert_eq!(
        asked(vec![ok("main\n"), ok("origin\n fork \n"), no()]),
        check("refs/remotes/origin/main"),
    );
    assert_eq!(
        asked(vec![ok("main\n"), ok("origin\n fork \n"), no(), no()]),
        check("refs/remotes/fork/main"),
    );
    let found = vec![ok("main\n"), ok("origin\n fork \n"), no(), no(), ok("abc")];
    assert_eq!(
        asked(found.clone()),
        command(
            "git",
            &["diff", "--no-ext-diff", "--color=never", "refs/remotes/fork/main...HEAD", "--"],
        ),
    );
    let mut full = found;
    full.push(ok("+line\n"));
    assert_eq!(
        loaded(full.clone()),
        Ok(Diff { base: "GitHub PR base: main".to_owned(), contents: "+line\n".to_owned() }),
    );
    full.push(no());
    assert_eq!(loaded(full).unwrap().contents, "+line\n");
}

#[test]
fn diff_does_without_github() {
    assert_eq!(asked(vec![no()]), check("@{upstream}"));
    assert_eq!(asked(vec![ok(" \n")]), check("@{upstream}"));
    assert_eq!(
        loaded(vec![no(), ok("abc"), ok("")]),
        Ok(Diff { base: "upstream branch".to_owned(), contents: String::new() }),
    );
    // The base of the pull request is not known here.
    assert_eq!(asked(vec![ok("main"), no()]), check("@{upstream}"));
    assert_eq!(asked(vec![ok("main"), ok(""), no()]), check("@{upstream}"));
}

#[test]
fn diff_falls_back_to_a_default_branch() {
    let head = |remote: &str| {
        let symbolic = format!("refs/remotes/{remote}/HEAD");
        command("git", &["symbolic-ref", "--quiet", "--short", &symbolic])
    };
    assert_eq!(asked(vec![no(), no()]), command("git", &["remote"]));
    assert_eq!(asked(vec![no(), no(), ok("a\nb\nc\n")]), head("a"));
    assert_eq!(asked(vec![no(), no(), ok("a\nb\nc\n"), no()]), head("b"));
    assert_eq!(asked(vec![no(), no(), ok("a\nb\nc\n"), no(), ok("b/main\n")]), check("b/main"));
    assert_eq!(asked(vec![no(), no(), ok("a\nb\nc\n"), no(), ok("b/main\n"), no()]), head("c"));
    let full = vec![no(), no(), ok("a\nb\n"), no(), ok("b/main\n"), ok("abc"), ok("-x\n")];
    assert_eq!(
        loaded(full),
        Ok(Diff { base: "b default branch (b/main)".to_owned(), contents: "-x\n".to_owned() }),
    );
}

#[test]
fn diff_says_why_it_fails() {
    let none = "no PR base, upstream branch, or local remote default branch is available";
    assert_eq!(loaded(vec![no(), no(), ok("")]).unwrap_err(), none);
    assert_eq!(loaded(vec![no(), no(), ok("a"), no()]).unwrap_err(), none);
    assert_eq!(loaded(vec![no(), no(), ok("a"), ok("a/x"), no()]).unwrap_err(), none);
    assert_eq!(loaded(vec![no(), no(), Err("no list".to_owned())]).unwrap_err(), "no list");
    assert_eq!(loaded(vec![no(), ok(""), Err("bad".to_owned())]).unwrap_err(), "bad");
}

#[test]
fn long_diff_is_cut() {
    let diff = loaded(vec![no(), ok(""), Ok("x".repeat(300_000))]).unwrap();
    assert_eq!(diff.contents, "x".repeat(250_000) + "\n\n… diff truncated by wtui …\n");
}

#[test]
fn parts_of_the_search_stand_alone() {
    let none = Transcript::new();
    assert_eq!(github_pr_base(&place(), &reported(vec![ok(" dev\n")]), 0), Step::Done(Some("dev".to_owned())));
    assert_eq!(github_pr_base(&place(), &reported(vec![no()]), 0), Step::Done(None));
    assert_eq!(reference_exists(&place(), "dev", &none, 0), Step::Ask(check("dev")));
    assert_eq!(reference_exists(&place(), "dev", &reported(vec![ok("")]), 0), Step::Done(true));
    assert_eq!(reference_exists(&place(), "dev", &reported(vec![no()]), 0), Step::Done(false));
    assert_eq!(
        resolve_branch_reference(&place(), "dev", &reported(vec![ok("o\n"), ok("")]), 0),
        Step::Done(FoundReference { reference: Some("refs/heads/dev".to_owned()), next: 2 }),
    );
    assert_eq!(
        resolve_branch_reference(&place(), "dev", &reported(vec![no()]), 0),
        Step::Done(FoundReference { reference: None, next: 1 }),
    );
    match resolve_diff_base(&place(), &reported(vec![no(), ok("")]), 0) {
        Step::Done(found) => {
            assert_eq!(
                found.base,
                Ok(DiffBase {
                    reference: "@{upstream}".to_owned(),
                    description: "upstream branch".to_owned(),
                }),
            );
            assert_eq!(found.next, 2);
        }
        Step::Ask(_) => panic!("expected a base"),
    }
}
