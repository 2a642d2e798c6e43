use wtui::diff::{Diff, PullRequest};
use wtui::path::FilePath;
use wtui::state::{find_worktree, repository, Action, Banner, BannerLevel, DiffState, LoadedRepositories, Modal, Msg, NewRepository, Refresh, Repository, State, Worktree, WorktreeKey};
use wtui::update::{boot, refresh_all, repository_mut, request_config_save, request_refresh, save_repositories_task, update, POLL_INTERVAL_SECONDS};

fn path(text: &str) -> FilePath {
    FilePath::from_text(text)
}

fn new(text: &str) -> NewRepository {
    NewRepository { id: text.to_owned(), path: path(text) }
}

fn key(root: &str, place: &str) -> WorktreeKey {
    WorktreeKey { root_id: root.to_owned(), path: path(place) }
}

fn worktree(place: &str, is_main: bool, dirty_files: usize, ignored_files: usize) -> Worktree {
    Worktree {
        path: path(place),
        branch: Some("main".to_owned()),
        is_main,
        locked: false,
        dirty_files,
        ignored_files,
        upstream: None,
        ahead: None,
        behind: None,
        has_remote: false,
        error: None,
    }
}

fn banner(level: BannerLevel, message: &str) -> Option<Banner> {
    Some(Banner { level, message: message.to_owned() })
}

fn refresh_of(root: &str) -> Action {
    Action::RefreshRepository { root_id: root.to_owned(), path: path(root) }
}

fn saving(roots: &[&str]) -> Action {
    Action::SaveConfig(roots.iter().map(|root| (*root).to_owned()).collect())
}

/// A state that lists these repositories, with nothing under way.
fn listing(roots: &[&str]) -> State {
    let (mut state, _) = boot();
    for root in roots {
        state.repositories.push(Repository::listed(new(root)));
    }
    state.selected_root = roots.first().map(|root| (*root).to_owned());
    state
}

/// A repository with a root worktree, a clean one and one that holds work.
fn busy() -> State {
    let mut state = listing(&["/a"]);
    state.repositories[0].worktrees = vec![
        worktree("/a", true, 0, 0),
        worktree("/a-clean", false, 0, 0),
        worktree("/a-work", false, 2, 1),
    ];
    state
}

#[test]
fn start_loads_the_saved_list() {
    let (state, actions) = boot();
    assert_eq!(actions, [Action::LoadConfig]);
    assert!(state.repositories.is_empty());
    assert_eq!(state.selected_root, None);
    assert!(state.selected_worktree.is_none());
    assert_eq!(state.diff, DiffState::Empty);
    assert!(!state.config_saving && !state.config_dirty);
    assert_eq!(POLL_INTERVAL_SECONDS, 5);
}

#[test]
fn loaded_repositories_are_listed_and_refreshed() {
    let (mut state, _) = boot();
    let loaded = LoadedRepositories {
        repositories: vec![Repository::listed(new("/a")), Repository::listed(new("/b"))],
        warnings: vec!["One.".to_owned(), "Two.".to_owned()],
    };
    let actions = update(&mut state, Msg::ConfigLoaded(Ok(loaded)));
    assert_eq!(actions, [refresh_of("/a"), refresh_of("/b")]);
    assert_eq!(state.selected_root.as_deref(), Some("/a"));
    assert_eq!(state.banner, banner(BannerLevel::Info, "One. Two."));
    assert!(state.repositories.iter().all(|one| one.refreshing));

    let (mut state, _) = boot();
    let none = LoadedRepositories { repositories: Vec::new(), warnings: Vec::new() };
    assert_eq!(update(&mut state, Msg::ConfigLoaded(Ok(none))), []);
    assert_eq!((state.selected_root, state.banner), (None, None));
}

#[test]
fn failures_show_in_the_banner() {
    let (mut state, _) = boot();
    let failed = || "bad".to_owned();
    assert_eq!(update(&mut state, Msg::ConfigLoaded(Err(failed()))), []);
    assert_eq!(state.banner, banner(BannerLevel::Error, "Could not load saved repositories: bad"));
    assert_eq!(update(&mut state, Msg::ConfigSaved(Err(failed()))), []);
    assert_eq!(state.banner, banner(BannerLevel::Error, "Could not save repositories: bad"));
    assert_eq!(update(&mut state, Msg::RepositoryAdded(Err(failed()))), []);
    assert_eq!(state.banner, banner(BannerLevel::Error, "Not a Git repository: bad"));
    let root_id = "/a".to_owned();
    assert_eq!(update(&mut state, Msg::WorktreeAdded { root_id, result: Err(failed()) }), []);
    assert_eq!(state.banner, banner(BannerLevel::Error, "Could not add worktree: bad"));
    let msg =
        Msg::WorktreeRemoved { root_id: "/a".to_owned(), path: path("/x"), result: Err(failed()) };
    assert_eq!(update(&mut state, msg), []);
    assert_eq!(state.banner, banner(BannerLevel::Error, "Could not remove worktree: bad"));
}

#[test]
fn repository_is_picked_checked_and_added() {
    let mut state = listing(&["/a"]);
    assert_eq!(update(&mut state, Msg::ChooseRepository), [Action::PickRepository]);
    assert_eq!(update(&mut state, Msg::RepositoryPicked(None)), []);
    assert_eq!(
        update(&mut state, Msg::RepositoryPicked(Some(path("/b/src")))),
        [Action::ValidateRepository(path("/b/src"))],
    );
    state.banner = banner(BannerLevel::Info, "old");
    assert_eq!(
        update(&mut state, Msg::RepositoryAdded(Ok(new("/b")))),
        [saving(&["/a", "/b"]), refresh_of("/b")],
    );
    assert_eq!(state.selected_root.as_deref(), Some("/b"));
    assert_eq!(state.banner, None);
    assert!(state.config_saving && !state.config_dirty);
    assert!(repository(&state, "/b").unwrap().refreshing);

    assert_eq!(update(&mut state, Msg::RepositoryAdded(Ok(new("/a")))), []);
    assert_eq!(state.repositories.len(), 2);
    assert_eq!(state.banner, banner(BannerLevel::Info, "That repository is already listed."));
}

#[test]
fn one_save_at_a_time_and_the_last_list_is_saved() {
    let mut state = listing(&[]);
    assert_eq!(
        update(&mut state, Msg::RepositoryAdded(Ok(new("/a")))),
        [saving(&["/a"]), refresh_of("/a")],
    );
    // A second list waits for the first.
    assert_eq!(update(&mut state, Msg::RepositoryAdded(Ok(new("/b")))), [refresh_of("/b")]);
    assert!(state.config_saving && state.config_dirty);
    assert_eq!(update(&mut state, Msg::RepositoryAdded(Ok(new("/c")))), [refresh_of("/c")]);
    assert_eq!(update(&mut state, Msg::ConfigSaved(Ok(()))), [saving(&["/a", "/b", "/c"])]);
    assert!(state.config_saving && !state.config_dirty);
    assert_eq!(update(&mut state, Msg::ConfigSaved(Ok(()))), []);
    assert!(!state.config_saving && !state.config_dirty);
    // A failed save is followed up just so.
    assert_eq!(request_config_save(&mut state).len(), 1);
    assert_eq!(request_config_save(&mut state).len(), 0);
    assert_eq!(
        update(&mut state, Msg::ConfigSaved(Err("full".to_owned()))),
        [save_repositories_task(&state.repositories)],
    );
    assert_eq!(save_repositories_task(&state.repositories), saving(&["/a", "/b", "/c"]));
}

#[test]
fn selecting_a_repository_clears_the_diff() {
    let mut state = listing(&["/a", "/b"]);
    update(&mut state, Msg::WorktreeSelected(key("/a", "/a")));
    assert_eq!(update(&mut state, Msg::SelectRoot("/b".to_owned())), []);
    assert_eq!(state.selected_root.as_deref(), Some("/b"));
    assert!(state.selected_worktree.is_none());
    assert_eq!(state.diff, DiffState::Empty);
    assert_eq!(update(&mut state, Msg::SelectRoot("/x".to_owned())), []);
    assert_eq!(state.selected_root.as_deref(), Some("/b"));
}

#[test]
fn refresh_reaches_each_idle_repository_once() {
    let mut state = listing(&["/a", "/b", "/c"]);
    state.repositories[1].changing = true;
    assert_eq!(update(&mut state, Msg::Poll), [refresh_of("/a"), refresh_of("/c")]);
    assert_eq!(update(&mut state, Msg::RefreshAll), []);
    let root_id = "/a".to_owned();
    let result = Ok(Refresh { worktrees: vec![worktree("/a", true, 0, 0)] });
    assert_eq!(update(&mut state, Msg::RepositoryRefreshed { root_id, result }), []);
    assert_eq!(state.repositories[0].worktrees.len(), 1);
    assert_eq!(refresh_all(&mut state), [refresh_of("/a")]);
    assert_eq!(request_refresh(&mut state, "/x"), []);
    assert_eq!(request_refresh(&mut state, "/b"), []);
}

#[test]
fn failed_refresh_keeps_the_worktrees() {
    let mut state = busy();
    state.repositories[0].refreshing = true;
    state.selected_worktree = Some(key("/a", "/a-gone"));
    let result = Err("no".to_owned());
    update(&mut state, Msg::RepositoryRefreshed { root_id: "/a".to_owned(), result });
    assert_eq!(state.repositories[0].worktrees.len(), 3);
    assert_eq!(state.repositories[0].error.as_deref(), Some("no"));
    assert!(!state.repositories[0].refreshing);
    assert!(state.selected_worktree.is_some());
    let result = Ok(Refresh { worktrees: Vec::new() });
    update(&mut state, Msg::RepositoryRefreshed { root_id: "/x".to_owned(), result });
    assert_eq!(state.repositories[0].worktrees.len(), 3);
}

#[test]
fn refresh_drops_a_selection_that_is_gone() {
    for (selected, stays) in [("/a/", true), ("/a-gone", false)] {
        let mut state = busy();
        update(&mut state, Msg::WorktreeSelected(key("/a", selected)));
        let result = Ok(Refresh { worktrees: vec![worktree("/a", true, 0, 0)] });
        update(&mut state, Msg::RepositoryRefreshed { root_id: "/a".to_owned(), result });
        assert_eq!(state.selected_worktree.is_some(), stays);
        assert_eq!(state.diff == DiffState::Loading, stays);
        assert_eq!(state.repositories[0].error, None);
    }
}

#[test]
fn worktree_is_added_through_the_dialog() {
    let mut state = busy();
    assert_eq!(update(&mut state, Msg::ShowAddWorktree), []);
    let shown = |branch: &str| {
        Some(Modal::AddWorktree { root_id: "/a".to_owned(), branch: branch.to_owned() })
    };
    assert_eq!(state.modal, shown(""));
    assert_eq!(update(&mut state, Msg::BranchChanged("  ".to_owned())), []);
    assert_eq!(state.modal, shown("  "));
    assert_eq!(update(&mut state, Msg::ConfirmAddWorktree), []);
    assert_eq!(state.banner, banner(BannerLevel::Error, "Enter a branch name."));
    assert_eq!(state.modal, shown("  "));

    update(&mut state, Msg::BranchChanged(" topic ".to_owned()));
    assert_eq!(
        update(&mut state, Msg::ConfirmAddWorktree),
        [Action::AddWorktree {
            root_id: "/a".to_owned(),
            root: path("/a"),
            branch: " topic ".to_owned(),
        }],
    );
    assert_eq!((&state.modal, &state.banner), (&None, &None));
    assert!(state.repositories[0].changing);

    // No other change while this one is under way.
    assert_eq!(update(&mut state, Msg::ShowAddWorktree), []);
    assert_eq!(state.modal, None);
    state.modal = shown("other");
    assert_eq!(update(&mut state, Msg::ConfirmAddWorktree), []);
    state.modal = None;

    let result = Ok(path("/a-topic"));
    assert_eq!(
        update(&mut state, Msg::WorktreeAdded { root_id: "/a".to_owned(), result }),
        [refresh_of("/a")],
    );
    assert!(!state.repositories[0].changing && state.repositories[0].refreshing);
    assert_eq!(state.banner, banner(BannerLevel::Success, "Created worktree at /a-topic."));
}

#[test]
fn adding_needs_a_repository() {
    let mut state = listing(&[]);
    update(&mut state, Msg::ShowAddWorktree);
    assert_eq!(state.banner, banner(BannerLevel::Info, "Select a repository first."));
    assert_eq!(state.modal, None);
    assert_eq!(update(&mut state, Msg::BranchChanged("x".to_owned())), []);
    assert_eq!(update(&mut state, Msg::ConfirmAddWorktree), []);
    assert_eq!(state.modal, None);
    state.modal = Some(Modal::AddWorktree { root_id: "/x".to_owned(), branch: "b".to_owned() });
    assert_eq!(update(&mut state, Msg::ConfirmAddWorktree), []);
    assert!(state.modal.is_some());
}

#[test]
fn stale_diff_is_dropped_and_the_wanted_one_shown() {
    let diff = |base: &str| Diff { base: base.to_owned(), contents: String::new() };
    let mut state = busy();
    assert_eq!(
        update(&mut state, Msg::WorktreeSelected(key("/a", "/a-clean"))),
        [
            Action::LoadDiff(key("/a", "/a-clean")),
            Action::LoadPullRequest(key("/a", "/a-clean")),
        ],
    );
    assert_eq!(
        update(&mut state, Msg::WorktreeSelected(key("/a", "/a-work"))),
        [
            Action::LoadDiff(key("/a", "/a-work")),
            Action::LoadPullRequest(key("/a", "/a-work")),
        ],
    );
    assert_eq!(state.diff, DiffState::Loading);
    update(&mut state, Msg::DiffLoaded { key: key("/a", "/a-clean"), result: Ok(diff("old")) });
    assert_eq!(state.diff, DiffState::Loading);
    update(&mut state, Msg::DiffLoaded { key: key("/b", "/a-work"), result: Ok(diff("odd")) });
    assert_eq!(state.diff, DiffState::Loading);
    update(&mut state, Msg::DiffLoaded { key: key("/a", "/a-work"), result: Ok(diff("new")) });
    assert_eq!(state.diff, DiffState::Loaded(diff("new")));
    let result = Err("no".to_owned());
    update(&mut state, Msg::DiffLoaded { key: key("/a", "/a-work"), result });
    assert_eq!(state.diff, DiffState::Error("no".to_owned()));
}

#[test]
fn removal_is_confirmed_and_forced_only_for_work() {
    for (place, dirty_files, ignored_files) in [("/a-clean", 0, 0), ("/a-work", 2, 1)] {
        let mut state = busy();
        update(&mut state, Msg::WorktreeSelected(key("/a", place)));
        assert_eq!(update(&mut state, Msg::AskRemoveWorktree(key("/a", place))), []);
        assert_eq!(
            state.modal,
            Some(Modal::RemoveWorktree {
                root_id: "/a".to_owned(),
                path: path(place),
                dirty_files,
                ignored_files,
            }),
        );
        assert_eq!(
            update(&mut state, Msg::ConfirmRemoveWorktree),
            [Action::RemoveWorktree {
                root_id: "/a".to_owned(),
                root: path("/a"),
                path: path(place),
                force: dirty_files > 0,
            }],
        );
        assert!(state.repositories[0].changing && state.modal.is_none());
        let msg = || Msg::WorktreeRemoved {
            root_id: "/a".to_owned(),
            path: path(place),
            result: Ok(()),
        };
        assert_eq!(update(&mut state, msg()), [refresh_of("/a")]);
        assert!(state.selected_worktree.is_none() && state.diff == DiffState::Empty);
        let message = format!("Removed worktree at {place}.");
        assert_eq!(state.banner, banner(BannerLevel::Success, &message));
    }
}

#[test]
fn ignored_files_alone_force_a_removal() {
    let mut state = busy();
    state.repositories[0].worktrees[1].ignored_files = 1;
    update(&mut state, Msg::AskRemoveWorktree(key("/a", "/a-clean")));
    match update(&mut state, Msg::ConfirmRemoveWorktree).as_slice() {
        [Action::RemoveWorktree { force, .. }] => assert!(*force),
        _ => panic!("expected a removal"),
    }
}

#[test]
fn removal_of_another_worktree_keeps_the_selection() {
    let mut state = busy();
    update(&mut state, Msg::WorktreeSelected(key("/a", "/a-work")));
    let root_id = "/a".to_owned();
    update(&mut state, Msg::WorktreeRemoved { root_id, path: path("/a-clean"), result: Ok(()) });
    assert!(state.selected_worktree.is_some());
    assert_eq!(state.diff, DiffState::Loading);
}

#[test]
fn root_worktree_is_not_removed() {
    let mut state = busy();
    assert_eq!(update(&mut state, Msg::AskRemoveWorktree(key("/a", "/a"))), []);
    assert_eq!(state.modal, None);
    assert_eq!(state.banner, banner(BannerLevel::Info, "The root worktree cannot be removed."));
    state.banner = None;
    assert_eq!(update(&mut state, Msg::AskRemoveWorktree(key("/a", "/gone"))), []);
    assert_eq!((&state.modal, &state.banner), (&None, &None));
    assert_eq!(update(&mut state, Msg::ConfirmRemoveWorktree), []);
}

#[test]
fn dialog_is_dismissed() {
    let mut state = busy();
    update(&mut state, Msg::AskRemoveWorktree(key("/a", "/a-work")));
    assert_eq!(update(&mut state, Msg::DismissModal), []);
    assert_eq!(state.modal, None);
}

#[test]
fn lookups_find_the_first() {
    let mut state = busy();
    assert_eq!(repository(&state, "/a").unwrap().path, path("/a"));
    assert!(repository(&state, "/b").is_none());
    assert_eq!(find_worktree(&state, &key("/a", "/a-work/")).unwrap().dirty_files, 2);
    assert!(find_worktree(&state, &key("/b", "/a-work")).is_none());
    repository_mut(&mut state, "/a").unwrap().error = Some("x".to_owned());
    assert_eq!(state.repositories[0].error.as_deref(), Some("x"));
    assert!(repository_mut(&mut state, "/b").is_none());
}

#[test]
fn messages_are_copied_whole() {
    let loaded = LoadedRepositories {
        repositories: busy().repositories,
        warnings: vec!["w".to_owned()],
    };
    let messages = vec![
        Msg::ConfigLoaded(Ok(loaded)),
        Msg::ConfigSaved(Err("e".to_owned())),
        Msg::RepositoryPicked(Some(path("/p"))),
        Msg::RepositoryAdded(Ok(new("/n"))),
        Msg::RepositoryRefreshed {
            root_id: "/a".to_owned(),
            result: Ok(Refresh { worktrees: vec![worktree("/a", true, 1, 2)] }),
        },
        Msg::DiffLoaded { key: key("/a", "/b"), result: Err("e".to_owned()) },
        Msg::WorktreeRemoved { root_id: "/a".to_owned(), path: path("/b"), result: Ok(()) },
        Msg::BranchChanged("b".to_owned()),
        Msg::Poll,
    ];
    for msg in messages {
        assert_eq!(msg.clone(), msg);
    }
}

#[test]
fn pull_request_is_kept_for_the_selected_worktree() {
    let found = |title: &str| Some(PullRequest { title: title.to_owned(), url: "u".to_owned() });
    let arrives = |place: &str, title: &str| Msg::PullRequestLoaded {
        key: key("/a", place),
        pull_request: found(title),
    };
    let mut state = busy();
    assert_eq!(update(&mut state, arrives("/a-work", "early")), []);
    assert_eq!(state.pull_request, None);
    update(&mut state, Msg::WorktreeSelected(key("/a", "/a-work")));
    let result = Err("no base".to_owned());
    update(&mut state, Msg::DiffLoaded { key: key("/a", "/a-work"), result });
    update(&mut state, arrives("/a-clean", "stale"));
    assert_eq!(state.pull_request, None);
    assert_eq!(update(&mut state, arrives("/a-work", "wanted")), []);
    assert_eq!(state.pull_request, found("wanted"));
    assert_eq!(state.diff, DiffState::Error("no base".to_owned()));
    assert_eq!(arrives("/a-work", "x").clone(), arrives("/a-work", "x"));
    // It goes with the selection.
    update(&mut state, Msg::WorktreeSelected(key("/a", "/a-clean")));
    assert_eq!(state.pull_request, None);
    update(&mut state, arrives("/a-clean", "next"));
    update(&mut state, Msg::SelectRoot("/a".to_owned()));
    assert_eq!(state.pull_request, None);
}

#[test]
fn pull_request_is_opened() {
    let mut state = busy();
    let url = "https://github.com/x/botanic/pull/7".to_owned();
    assert_eq!(
        update(&mut state, Msg::OpenPullRequest(url.clone())),
        [Action::OpenUrl(url.clone())],
    );
    assert_eq!(update(&mut state, Msg::PullRequestOpened(Ok(()))), []);
    assert_eq!(state.banner, None);
    assert_eq!(update(&mut state, Msg::PullRequestOpened(Err("no browser".to_owned()))), []);
    assert_eq!(
        state.banner,
        banner(BannerLevel::Error, "Could not open the pull request: no browser"),
    );
    assert_eq!(Msg::OpenPullRequest(url.clone()).clone(), Msg::OpenPullRequest(url));
}

#[test]
fn one_repository_is_selected_unless_none_is_listed() {
    let (mut state, _) = boot();
    assert_eq!(state.selected_root, None);
    update(&mut state, Msg::RepositoryAdded(Ok(new("/a"))));
    assert_eq!(state.selected_root.as_deref(), Some("/a"));
    let none = LoadedRepositories { repositories: Vec::new(), warnings: Vec::new() };
    update(&mut state, Msg::ConfigLoaded(Ok(none)));
    assert_eq!(state.selected_root, None);
}
