use wtui::diff::{Diff, PullRequest};
use wtui::path::FilePath;
use wtui::state::{Action, Banner, BannerLevel, DiffState, Modal, Msg, NewRepository, Repository, State, Worktree, WorktreeKey};
use wtui::update::{boot, update};
use wtui::view::{action_button, banner_view, diff_panel, header, main_content, modal_view, tab_button, view, worktree_and_diff, worktree_card, worktree_status, Accent, Body, Button, Content, Panels, Removal};

fn path(text: &str) -> FilePath {
    FilePath::from_text(text)
}

fn key(root: &str, place: &str) -> WorktreeKey {
    WorktreeKey { root_id: root.to_owned(), path: path(place) }
}

fn plain(place: &str) -> Worktree {
    Worktree {
        path: path(place),
        branch: Some("topic".to_owned()),
        is_main: false,
        locked: false,
        dirty_files: 0,
        ignored_files: 0,
        upstream: None,
        ahead: None,
        behind: None,
        has_remote: false,
        error: None,
    }
}

fn listing(roots: &[&str]) -> State {
    let (mut state, _) = boot();
    for root in roots {
        let new = NewRepository { id: (*root).to_owned(), path: path(root) };
        state.repositories.push(Repository::listed(new));
    }
    state.selected_root = roots.first().map(|root| (*root).to_owned());
    state
}

fn panels(state: &State) -> Panels {
    match main_content(state) {
        Content::Repositories { body: Body::Selected(panels), .. } => panels,
        _ => panic!("expected a selected repository"),
    }
}

#[test]
fn header_offers_what_can_be_done() {
    let mut state = listing(&["/repos/botanic"]);
    let top = header(&state);
    assert_eq!(top.title, "wtui");
    assert_eq!(top.subtitle, "Manage Git worktrees without blocking your desktop.");
    assert_eq!(
        top.buttons,
        [
            action_button("Add repository", Accent::Primary, Some(Msg::ChooseRepository)),
            action_button("Refresh", Accent::Primary, Some(Msg::RefreshAll)),
            action_button("Add worktree", Accent::Success, Some(Msg::ShowAddWorktree)),
        ],
    );
    state.repositories[0].changing = true;
    assert_eq!(header(&state).buttons[2].on_press, None);
    assert_eq!(header(&listing(&[])).buttons[2].on_press, None);
    state.selected_root = Some("/x".to_owned());
    assert_eq!(header(&state).buttons[2].on_press, None);
}

#[test]
fn button_that_can_be_pressed_opens_the_dialog() {
    for changing in [false, true] {
        let mut state = listing(&["/a"]);
        state.repositories[0].changing = changing;
        let offered = header(&state).buttons[2].on_press.is_some();
        update(&mut state, Msg::ShowAddWorktree);
        assert_eq!(state.modal.is_some(), offered);
        assert_eq!(offered, !changing);
    }
}

#[test]
fn banner_has_the_colour_of_its_level() {
    for (level, accent) in [
        (BannerLevel::Success, Accent::Success),
        (BannerLevel::Error, Accent::Danger),
        (BannerLevel::Info, Accent::Primary),
    ] {
        let notice = banner_view(&Banner { level, message: "m".to_owned() });
        assert_eq!(notice.accent, accent);
        assert_eq!(notice.message, "m");
    }
}

#[test]
fn empty_list_says_so() {
    assert_eq!(
        main_content(&listing(&[])),
        Content::Welcome {
            title: "No repositories yet.".to_owned(),
            hint: "Select a checked-out Git repository to list and manage its worktrees."
                .to_owned(),
        },
    );
}

#[test]
fn tabs_show_names_and_the_selection() {
    let mut state = listing(&["/repos/botanic", "/"]);
    state.repositories[1].path = FilePath { bytes: b"/bot\xff".to_vec() };
    match main_content(&state) {
        Content::Repositories { tabs, .. } => {
            assert_eq!(
                tabs,
                [
                    tab_button("botanic", true, "/repos/botanic".to_owned()),
                    tab_button("repository", false, "/".to_owned()),
                ],
            );
            assert_eq!(tabs[1].on_press, Msg::SelectRoot("/".to_owned()));
        }
        Content::Welcome { .. } => panic!("expected tabs"),
    }
    state.selected_root = None;
    match main_content(&state) {
        Content::Repositories { tabs, body } => {
            assert!(tabs.iter().all(|tab| !tab.selected));
            assert_eq!(body, Body::Prompt("Select a repository.".to_owned()));
        }
        Content::Welcome { .. } => panic!("expected tabs"),
    }
}

#[test]
fn status_is_put_in_words() {
    let mut one = plain("/a");
    assert_eq!(worktree_status(&one), "clean · no remote");
    one.has_remote = true;
    assert_eq!(worktree_status(&one), "clean · no upstream branch");
    one.dirty_files = 3;
    one.ignored_files = 12;
    assert_eq!(worktree_status(&one), "3 uncommitted · 12 ignored · no upstream branch");
    one.upstream = Some("origin/topic".to_owned());
    assert_eq!(
        worktree_status(&one),
        "3 uncommitted · 12 ignored · origin/topic · upstream status unavailable",
    );
    one.dirty_files = 0;
    one.ignored_files = 0;
    one.ahead = Some(0);
    assert_eq!(worktree_status(&one), "clean · origin/topic · upstream status unavailable");
    one.behind = Some(0);
    assert_eq!(worktree_status(&one), "clean · origin/topic · pushed");
    one.ahead = Some(2);
    assert_eq!(worktree_status(&one), "clean · origin/topic · ↑2 ↓0");
    one.ahead = Some(0);
    one.behind = Some(4294967295);
    assert_eq!(worktree_status(&one), "clean · origin/topic · ↑0 ↓4294967295");
}

#[test]
fn card_tells_of_its_worktree() {
    let mut state = listing(&["/a"]);
    let mut one = plain("/a-topic");
    one.locked = true;
    one.error = Some("broken".to_owned());
    let card = worktree_card(&state, &state.repositories[0], &one);
    assert_eq!(card.name, "topic");
    assert_eq!(card.path, "/a-topic");
    assert_eq!(card.details, "clean · no remote · locked · broken");
    assert!(card.failed && !card.selected);
    assert_eq!(card.on_press, Msg::WorktreeSelected(key("/a", "/a-topic")));
    assert_eq!(
        card.removal,
        Removal::Offered(Button {
            label: "Remove".to_owned(),
            accent: Accent::Danger,
            on_press: Some(Msg::AskRemoveWorktree(key("/a", "/a-topic"))),
        }),
    );

    one.branch = None;
    one.error = None;
    state.selected_worktree = Some(key("/a", "/a-topic"));
    state.repositories[0].changing = true;
    let card = worktree_card(&state, &state.repositories[0], &one);
    assert_eq!(card.name, "(detached HEAD)");
    assert!(card.selected && !card.failed);
    match card.removal {
        Removal::Offered(button) => assert_eq!(button.on_press, None),
        Removal::Root(_) => panic!("expected a button"),
    }

    one.is_main = true;
    assert_eq!(worktree_card(&state, &state.repositories[0], &one).removal, Removal::Root("root".to_owned()));
}

#[test]
fn panel_tells_of_the_diff() {
    let mut state = listing(&["/a"]);
    let panel = diff_panel(&state);
    assert_eq!(panel.title, "Branch diff");
    assert_eq!(panel.caption.message, "Select a worktree to compare it with its PR base branch.");
    assert_eq!((panel.caption.accent, panel.contents), (Accent::Muted, None));
    state.diff = DiffState::Loading;
    let panel = diff_panel(&state);
    assert_eq!(panel.caption.message, "Loading diff…");
    assert_eq!((panel.caption.accent, panel.contents), (Accent::Primary, None));
    state.diff = DiffState::Error("bad".to_owned());
    let panel = diff_panel(&state);
    assert_eq!(panel.caption.message, "bad");
    assert_eq!((panel.caption.accent, panel.contents), (Accent::Danger, None));
    state.diff = DiffState::Loaded(Diff { base: "upstream branch".to_owned(), contents: "+x".to_owned() });
    let panel = diff_panel(&state);
    assert_eq!(panel.pull_request, None);
    assert_eq!(panel.caption.message, "Against upstream branch");
    assert_eq!((panel.caption.accent, panel.contents), (Accent::Muted, Some("+x".to_owned())));
}

#[test]
fn panel_shows_the_pull_request_and_opens_it() {
    let mut state = listing(&["/a"]);
    let url = "https://github.com/x/botanic/pull/7".to_owned();
    // It stands beside an error too.
    state.diff = DiffState::Error("no base".to_owned());
    state.pull_request =
        Some(PullRequest { title: "Grow ferns".to_owned(), url: url.clone() });
    let link = diff_panel(&state).pull_request.unwrap();
    assert_eq!((link.title.as_str(), &link.url), ("Grow ferns", &url));
    assert_eq!(
        link.open,
        action_button(
            "Open pull request",
            Accent::Primary,
            Some(Msg::OpenPullRequest(url.clone())),
        ),
    );
    assert_eq!(update(&mut state, link.open.on_press.unwrap()), [Action::OpenUrl(url)]);
    assert_eq!(diff_panel(&state).caption.message, "no base");
    state.pull_request = None;
    assert_eq!(diff_panel(&state).pull_request, None);
}

#[test]
fn worktrees_are_counted_and_listed() {
    let mut state = listing(&["/a"]);
    let shown = panels(&state);
    assert_eq!(shown.heading, "Worktrees (0)");
    assert_eq!(shown.activity, "");
    assert_eq!(shown.notice.as_deref(), Some("No worktrees found."));
    state.repositories[0].refreshing = true;
    let shown = panels(&state);
    assert_eq!((shown.activity.as_str(), shown.notice), ("Refreshing…", None));
    state.repositories[0].changing = true;
    assert_eq!(panels(&state).activity, "Working…");
    state.repositories[0].refreshing = false;
    state.repositories[0].error = Some("gone".to_owned());
    let shown = panels(&state);
    assert_eq!((shown.error.as_deref(), shown.notice), (Some("gone"), None));
    for _ in 0..12 {
        state.repositories[0].worktrees.push(plain("/a-topic"));
    }
    let shown = worktree_and_diff(&state, &state.repositories[0]);
    assert_eq!(shown.heading, "Worktrees (12)");
    assert_eq!(shown.cards.len(), 12);
    assert_eq!(shown.cards[11], worktree_card(&state, &state.repositories[0], &plain("/a-topic")));
}

#[test]
fn dialog_asks_for_a_name() {
    let shown = |branch: &str| {
        modal_view(&Modal::AddWorktree { root_id: "/a".to_owned(), branch: branch.to_owned() })
    };
    let dialog = shown(" x ");
    assert_eq!(dialog.title, "Add worktree");
    assert_eq!(dialog.subtitle, "The new directory is a sibling named <root>-<branch-slug>.");
    let field = dialog.field.unwrap();
    assert_eq!((field.placeholder.as_str(), field.value.as_str()), ("Branch name", " x "));
    assert_eq!(dialog.note, None);
    assert_eq!(dialog.warning, None);
    assert_eq!(dialog.cancel, action_button("Cancel", Accent::Primary, Some(Msg::DismissModal)));
    assert_eq!(
        dialog.confirm,
        action_button("Create", Accent::Success, Some(Msg::ConfirmAddWorktree)),
    );
    assert_eq!(dialog.on_dismiss, Msg::DismissModal);
    assert_eq!(shown(" \t").confirm.on_press, None);
}

#[test]
fn dialog_announces_force() {
    let shown = |dirty_files: usize, ignored_files: usize| {
        modal_view(&Modal::RemoveWorktree {
            root_id: "/a".to_owned(),
            path: path("/a-topic"),
            dirty_files,
            ignored_files,
        })
    };
    let dialog = shown(0, 0);
    assert_eq!(dialog.title, "Remove worktree");
    assert_eq!(dialog.subtitle, "/a-topic");
    assert_eq!(
        dialog.warning.as_deref(),
        Some("This removes the worktree through Git. The branch stays available unless its pull request was merged."),
    );
    assert_eq!(
        dialog.confirm,
        action_button("Remove", Accent::Danger, Some(Msg::ConfirmRemoveWorktree)),
    );
    let dialog = shown(2, 13);
    assert_eq!(
        dialog.warning.as_deref(),
        Some("This worktree has 2 uncommitted and 13 ignored file(s). Remove anyway? This runs Git with --force."),
    );
    assert_eq!(dialog.confirm.label, "Remove anyway");
    assert_eq!(
        dialog.note.as_deref(),
        Some("The branch stays available unless its pull request was merged."),
    );
    assert_eq!(shown(0, 0).note, None);
    assert_eq!(shown(0, 1).confirm.label, "Remove anyway");
    assert_eq!(shown(1, 0).confirm.label, "Remove anyway");
}

#[test]
fn screen_holds_all_parts() {
    let mut state = listing(&["/a"]);
    let screen = view(&state);
    assert_eq!(screen.header, header(&state));
    assert_eq!((screen.banner, screen.dialog), (None, None));
    assert_eq!(screen.content, main_content(&state));
    state.banner = Some(Banner { level: BannerLevel::Info, message: "m".to_owned() });
    update(&mut state, Msg::ShowAddWorktree);
    let screen = view(&state);
    assert_eq!(screen.banner.unwrap().message, "m");
    assert_eq!(screen.dialog.unwrap(), modal_view(state.modal.as_ref().unwrap()));
}
