use wtui::command::Command;
use wtui::operations::{add_worktree, refresh_repository, remove_worktree, status_summary, target_of, validate_repository};
use wtui::path::FilePath;
use wtui::state::NewRepository;
use wtui::step::{Request, Step, Transcript};

fn path(text: &str) -> FilePath {
    FilePath::from_text(text)
}

fn ok(text: &str) -> Result<String, String> {
    Ok(text.to_owned())
}

fn failed(text: &str) -> Result<String, String> {
    Err(text.to_owned())
}

/// Answers: what commands reported, and how paths resolved.
fn answers(
    reports: Vec<Result<String, String>>,
    resolved: Vec<Result<FilePath, String>>,
) -> Transcript {
    let mut transcript = Transcript::new();
    transcript.reports = reports;
    transcript.resolved = resolved;
    transcript
}

/// A request that runs Git in `directory`.
fn git(directory: &str, arguments: &[&str]) -> Request {
    Request::Run(Command {
        program: "git".to_owned(),
        directory: path(directory),
        arguments: arguments.iter().map(|argument| (*argument).to_owned()).collect(),
    })
}

fn asked<T>(step: Step<Request, T>) -> Request {
    match step {
        Step::Ask(request) => request,
        Step::Done(_) => panic!("expected a request"),
    }
}

fn done<T>(step: Step<Request, T>) -> T {
    match step {
        Step::Ask(_) => panic!("expected a result"),
        Step::Done(value) => value,
    }
}

const ROOT: &str = "/repos/botanic";

const LIST: &str = "worktree /repos/botanic\nHEAD abc\nbranch refs/heads/main\n\nworktree /repos/botanic-feature-test\nHEAD abc\nbranch refs/heads/Feature/Test\n\n";

const STATUS: &[&str] = &["status", "--porcelain=v2", "--branch", "--ignored", "-z"];

#[test]
fn validation_finds_the_top_directory() {
    let place = path("/links/botanic/src");
    let step = validate_repository(&place, &Transcript::new(), 0, 0);
    assert_eq!(asked(step), git("/links/botanic/src", &["rev-parse", "--show-toplevel"]));

    let step = validate_repository(&place, &answers(vec![ok("/links/botanic\n")], vec![]), 0, 0);
    assert_eq!(asked(step), Request::Canonicalize(path("/links/botanic")));

    let full = answers(vec![ok("/links/botanic\n")], vec![Ok(path(ROOT))]);
    let found = done(validate_repository(&place, &full, 0, 0)).unwrap();
    assert_eq!(found, NewRepository { id: ROOT.to_owned(), path: path(ROOT) });
}

#[test]
fn validation_says_why_it_fails() {
    let place = path("/tmp");
    let outside = answers(vec![failed("fatal: not a git repository")], vec![]);
    assert_eq!(
        done(validate_repository(&place, &outside, 0, 0)).unwrap_err(),
        "fatal: not a git repository",
    );
    let gone = answers(vec![ok(" /gone \n")], vec![Err("No such file".to_owned())]);
    assert_eq!(done(validate_repository(&place, &gone, 0, 0)).unwrap_err(), "/gone: No such file");
}

#[test]
fn repository_is_called_by_its_path_even_where_that_is_not_unicode() {
    let resolved = FilePath { bytes: b"/bot\xffnic".to_vec() };
    let full = answers(vec![ok("/x")], vec![Ok(resolved)]);
    let found = done(validate_repository(&path("/x"), &full, 0, 0)).unwrap();
    assert_eq!(found.id, "/bot\u{fffd}nic");
    assert_eq!(found.path.bytes, b"/bot\xffnic");
}

#[test]
fn status_is_asked_for_and_summed_up() {
    let step = status_summary(&path(ROOT), &Transcript::new(), 0);
    assert_eq!(asked(step), git(ROOT, STATUS));
    let full = answers(vec![ok("? new\0")], vec![]);
    assert_eq!(done(status_summary(&path(ROOT), &full, 0)).unwrap().dirty_files, 1);
    let broken = answers(vec![failed("gone")], vec![]);
    assert_eq!(done(status_summary(&path(ROOT), &broken, 0)).unwrap_err(), "gone");
}

#[test]
fn refresh_asks_for_list_remotes_and_each_status() {
    let root = path(ROOT);
    let mut transcript = Transcript::new();
    assert_eq!(
        asked(refresh_repository(&root, &transcript)),
        git(ROOT, &["worktree", "list", "--porcelain"]),
    );
    transcript.reports.push(ok(LIST));
    assert_eq!(asked(refresh_repository(&root, &transcript)), git(ROOT, &["remote"]));
    transcript.reports.push(ok("origin\n"));
    assert_eq!(asked(refresh_repository(&root, &transcript)), git(ROOT, STATUS));
    transcript.reports.push(ok("# branch.upstream origin/main\0# branch.ab +0 -0\0"));
    assert_eq!(
        asked(refresh_repository(&root, &transcript)),
        git("/repos/botanic-feature-test", STATUS),
    );
    transcript.reports.push(failed("index is locked"));

    let worktrees = done(refresh_repository(&root, &transcript)).unwrap().worktrees;
    assert_eq!(worktrees.len(), 2);
    assert!(worktrees[0].is_main && worktrees[0].has_remote);
    assert_eq!(worktrees[0].branch.as_deref(), Some("main"));
    assert_eq!(worktrees[0].upstream.as_deref(), Some("origin/main"));
    assert_eq!((worktrees[0].ahead, worktrees[0].behind), (Some(0), Some(0)));
    assert_eq!(worktrees[0].error, None);
    assert!(!worktrees[1].is_main);
    assert_eq!(worktrees[1].error.as_deref(), Some("index is locked"));
    assert_eq!((worktrees[1].dirty_files, worktrees[1].ignored_files), (0, 0));

    // Further answers change nothing.
    transcript.reports.push(ok("? late\0"));
    assert_eq!(done(refresh_repository(&root, &transcript)).unwrap().worktrees, worktrees);
}

#[test]
fn refresh_says_why_it_fails() {
    let root = path(ROOT);
    let no_list = answers(vec![failed("no list")], vec![]);
    assert_eq!(done(refresh_repository(&root, &no_list)).unwrap_err(), "no list");
    let odd_list = answers(vec![ok("HEAD abc\n")], vec![]);
    assert_eq!(
        done(refresh_repository(&root, &odd_list)).unwrap_err(),
        "Git returned a worktree entry without a path",
    );
    let no_remotes = answers(vec![ok(LIST), failed("no remotes")], vec![]);
    assert_eq!(done(refresh_repository(&root, &no_remotes)).unwrap_err(), "no remotes");
    let blank_remotes = answers(vec![ok("worktree /w\n"), ok(" \n"), ok("")], vec![]);
    let worktrees = done(refresh_repository(&root, &blank_remotes)).unwrap().worktrees;
    assert!(!worktrees[0].has_remote);
}

#[test]
fn worktree_is_added_beside_the_repository() {
    let root = path(ROOT);
    let mut transcript = Transcript::new();
    assert_eq!(
        asked(add_worktree(&root, "  Feature/Test ", &transcript)),
        git(ROOT, &["check-ref-format", "--branch", "Feature/Test"]),
    );
    transcript.reports.push(ok("Feature/Test\n"));
    assert_eq!(
        asked(add_worktree(&root, "  Feature/Test ", &transcript)),
        Request::CheckExists(path("/repos/botanic-feature-test")),
    );
    transcript.present.push(false);
    assert_eq!(
        asked(add_worktree(&root, "  Feature/Test ", &transcript)),
        git(ROOT, &["worktree", "add", "-b", "Feature/Test", "/repos/botanic-feature-test"]),
    );
    transcript.reports.push(ok(""));
    let added = done(add_worktree(&root, "  Feature/Test ", &transcript)).unwrap();
    assert_eq!(added.bytes, "/repos/botanic-feature-test".as_bytes());
    assert_eq!(added.parent().unwrap().bytes, root.parent().unwrap().bytes);
    assert!(added.file_name_text().unwrap().ends_with("-feature-test"));
}

#[test]
fn adding_says_why_it_fails() {
    let root = path(ROOT);
    let bad_name = answers(vec![failed("fatal: 'a b' is not a valid branch name")], vec![]);
    assert_eq!(
        done(add_worktree(&root, "a b", &bad_name)).unwrap_err(),
        "fatal: 'a b' is not a valid branch name",
    );

    let mut taken = answers(vec![ok("x")], vec![]);
    taken.present.push(true);
    assert_eq!(
        done(add_worktree(&root, "x", &taken)).unwrap_err(),
        "/repos/botanic-x already exists",
    );

    let mut refused = answers(vec![ok("x"), failed("branch exists")], vec![]);
    refused.present.push(false);
    assert_eq!(done(add_worktree(&root, "x", &refused)).unwrap_err(), "branch exists");

    let nameless = answers(vec![ok("x")], vec![]);
    let unicode = "the root repository name is not valid Unicode";
    assert_eq!(done(add_worktree(&path("/"), "x", &nameless)).unwrap_err(), unicode);
    let odd = FilePath { bytes: b"/bot\xff".to_vec() };
    assert_eq!(done(add_worktree(&odd, "x", &nameless)).unwrap_err(), unicode);
}

#[test]
fn targets_are_siblings() {
    for root in ["/repos/botanic", "/repos/botanic/", "botanic", "./botanic", "/botanic"] {
        let root = path(root);
        let target = target_of(&root, "Some thing").unwrap();
        assert_eq!(target.file_name_text().as_deref(), Some("botanic-some-thing"));
        assert_eq!(target.parent().unwrap().bytes, root.parent().unwrap().bytes);
    }
}

#[test]
fn worktree_is_removed_by_force_only_where_it_holds_work() {
    let root = path(ROOT);
    let target = path("/links/feature");
    let mut transcript = Transcript::new();
    assert_eq!(
        asked(remove_worktree(&root, &target, false, &transcript)),
        git(ROOT, &["worktree", "list", "--porcelain"]),
    );
    transcript.reports.push(ok(LIST));
    assert_eq!(
        asked(remove_worktree(&root, &target, false, &transcript)),
        Request::Canonicalize(path("/links/feature")),
    );
    transcript.resolved.push(Ok(path("/repos/botanic-feature-test")));
    assert_eq!(
        asked(remove_worktree(&root, &target, false, &transcript)),
        git("/repos/botanic-feature-test", STATUS),
    );

    transcript.reports.push(ok("? uncommitted.txt\0"));
    assert_eq!(
        done(remove_worktree(&root, &target, false, &transcript)).unwrap_err(),
        "the worktree has uncommitted or ignored files; confirm forced removal",
    );
    assert_eq!(
        asked(remove_worktree(&root, &target, true, &transcript)),
        git(ROOT, &["worktree", "remove", "--force", "/repos/botanic-feature-test"]),
    );
    transcript.reports.push(ok(""));
    transcript.reports.push(failed("no pull requests found"));
    assert_eq!(done(remove_worktree(&root, &target, true, &transcript)), Ok(()));
    assert!(done(remove_worktree(&root, &target, false, &transcript)).is_err());
}

#[test]
fn clean_worktree_is_removed_without_force() {
    let root = path(ROOT);
    let target = path("/repos/botanic-feature-test");
    let mut transcript = answers(vec![ok(LIST), ok("")], vec![Ok(target.clone())]);
    assert_eq!(
        asked(remove_worktree(&root, &target, false, &transcript)),
        git(ROOT, &["worktree", "remove", "/repos/botanic-feature-test"]),
    );
    transcript.reports.push(ok(""));
    transcript.reports.push(ok("OPEN\tfalse\tFeature/Test\n"));
    assert_eq!(done(remove_worktree(&root, &target, false, &transcript)), Ok(()));
}

#[test]
fn branch_of_a_merged_pull_request_is_deleted() {
    let root = path(ROOT);
    let target = path("/repos/botanic-feature-test");
    let mut transcript = answers(vec![ok(LIST), ok(""), ok("")], vec![Ok(target.clone())]);
    let asks_state = Request::Run(Command {
        program: "gh".to_owned(),
        directory: path(ROOT),
        arguments: [
            "pr",
            "list",
            "--head",
            "Feature/Test",
            "--state",
            "all",
            "--limit",
            "100",
            "--json",
            "state,isCrossRepository,headRefName",
            "--jq",
            ".[] | [.state, .isCrossRepository, .headRefName] | @tsv",
        ]
        .iter()
        .map(|argument| (*argument).to_owned())
        .collect(),
    });
    assert_eq!(asked(remove_worktree(&root, &target, false, &transcript)), asks_state);
    transcript
        .reports
        .push(ok("CLOSED\tfalse\tFeature/Test\nMERGED\tfalse\tFeature/Test\n"));
    assert_eq!(
        asked(remove_worktree(&root, &target, false, &transcript)),
        git(ROOT, &["branch", "-D", "Feature/Test"]),
    );
    transcript.reports.push(ok("Deleted branch Feature/Test."));
    assert_eq!(done(remove_worktree(&root, &target, false, &transcript)), Ok(()));
    // The worktree is gone, even where its branch stays.
    transcript.reports[4] = failed("branch not found");
    assert_eq!(done(remove_worktree(&root, &target, false, &transcript)), Ok(()));
}

#[test]
fn branch_stays_unless_its_pull_request_was_merged() {
    let root = path(ROOT);
    let target = path("/repos/botanic-feature-test");
    for state in [
        ok("OPEN\tfalse\tFeature/Test\n"),
        ok("CLOSED\tfalse\tFeature/Test\n"),
        // Merged once, and open again.
        ok("OPEN\tfalse\tFeature/Test\nMERGED\tfalse\tFeature/Test\n"),
        // The branch of another repository, and another branch.
        ok("MERGED\ttrue\tFeature/Test\n"),
        ok("MERGED\tfalse\tFeature/Test2\n"),
        ok("MERGED\n"),
        ok(""),
        failed("no gh"),
    ] {
        let transcript =
            answers(vec![ok(LIST), ok(""), ok(""), state], vec![Ok(target.clone())]);
        assert_eq!(done(remove_worktree(&root, &target, false, &transcript)), Ok(()));
    }
    // A detached worktree has no branch to ask about.
    let list = "worktree /repos/botanic\n\nworktree /repos/botanic-feature-test\ndetached\n";
    let transcript = answers(vec![ok(list), ok(""), ok("")], vec![Ok(target.clone())]);
    assert_eq!(done(remove_worktree(&root, &target, false, &transcript)), Ok(()));
    // A removal that failed asks nothing more.
    let transcript =
        answers(vec![ok(LIST), ok(""), failed("locked"), ok("MERGED\tfalse\tFeature/Test")], vec![Ok(target.clone())]);
    assert_eq!(
        done(remove_worktree(&root, &target, false, &transcript)),
        Err("locked".to_owned()),
    );
}

#[test]
fn directories_of_one_checkout_give_one_repository() {
    let first = answers(vec![ok("/links/botanic\n")], vec![Ok(path(ROOT))]);
    let second = answers(vec![ok("/repos/botanic\n")], vec![Ok(path(ROOT))]);
    let found = done(validate_repository(&path("/links/botanic/src"), &first, 0, 0)).unwrap();
    assert_eq!(done(validate_repository(&path("/repos"), &second, 0, 0)).unwrap(), found);
    assert_eq!(done(validate_repository(&found.path, &first, 0, 0)).unwrap(), found);
}

#[test]
fn added_worktree_is_refreshed() {
    let root = path(ROOT);
    let mut adding = answers(vec![ok("Feature/Test"), ok("")], vec![]);
    adding.present.push(false);
    let added = done(add_worktree(&root, " Feature/Test ", &adding)).unwrap();
    let listing = answers(vec![ok(LIST), ok(""), ok(""), ok("")], vec![]);
    let worktrees = done(refresh_repository(&root, &listing)).unwrap().worktrees;
    let created = worktrees.iter().find(|entry| entry.path == added).unwrap();
    assert_eq!(created.branch.as_deref(), Some("Feature/Test"));
    assert_eq!(created.dirty_files, 0);
}

#[test]
fn removal_says_why_it_fails() {
    let root = path(ROOT);
    let target = path("/repos/botanic-feature-test");
    let step = |transcript: &Transcript| {
        done(remove_worktree(&root, &target, true, transcript)).unwrap_err()
    };
    assert_eq!(step(&answers(vec![failed("no list")], vec![])), "no list");
    assert_eq!(
        step(&answers(vec![ok("HEAD abc")], vec![])),
        "Git returned a worktree entry without a path",
    );
    assert_eq!(
        step(&answers(vec![ok(LIST)], vec![Err("gone".to_owned())])),
        "/repos/botanic-feature-test: gone",
    );
    assert_eq!(
        step(&answers(vec![ok(LIST)], vec![Ok(path("/elsewhere"))])),
        "the worktree no longer belongs to this repository",
    );
    assert_eq!(
        step(&answers(vec![ok(LIST)], vec![Ok(path("/repos/botanic/"))])),
        "the root worktree cannot be removed",
    );
    let known = vec![Ok(target.clone())];
    assert_eq!(step(&answers(vec![ok(LIST), failed("no status")], known)), "no status");
    let known = vec![Ok(target.clone())];
    assert_eq!(
        step(&answers(vec![ok(LIST), ok(""), failed("locked")], known)),
        "locked",
    );
}

#[test]
fn results_stand_whatever_comes_after() {
    let root = path(ROOT);
    let mut later = answers(vec![ok("x"), ok(""), failed("late")], vec![Ok(path(ROOT))]);
    later.present.push(false);
    later.present.push(true);
    later.resolved.push(Err("late".to_owned()));
    assert_eq!(done(add_worktree(&root, "x", &later)).unwrap(), path("/repos/botanic-x"));
    assert_eq!(done(validate_repository(&root, &later, 0, 0)).unwrap().id, ROOT);
}
