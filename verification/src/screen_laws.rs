//! What each part of the screen shows of the state.
use vstd::prelude::*;
use vstd::utf8::{decode_utf8, valid_utf8};

use crate::encoding::lossy_text;
use crate::number::decimal;
use crate::path::{file_name, same_path};
use crate::state::{BannerLevel, BannerModel, DiffStateModel, ModalModel, MsgModel, RepositoryModel, StateModel, WorktreeKeyModel, WorktreeModel};
use crate::state_laws::{is_listed, lookup_finds};
use crate::text::{separated, trimmed};
use crate::update_laws::{is_first, lookups_find_the_first};
use crate::view::{banner_model, body_model, card_model, content_model, details, dialog_model, diff_panel_model, header_model, panels_model, screen_model, status_text, tab_models, tracking_text, Accent, BodyModel, ButtonModel, ContentModel, RemovalModel};

verus! {

/// Whether a button reads `label`, has this colour, and sends just this message.
pub open spec fn reads(
    button: ButtonModel,
    label: Seq<char>,
    accent: Accent,
    message: MsgModel,
) -> bool {
    button.label == label && button.accent == accent && button.on_press == Some(message)
}

// ── The header and the banner ─────────────────────────────────────────────

/// The header always offers to add a repository and to refresh. It offers to add a
/// worktree where a listed repository is selected that is not being changed.
pub proof fn header_offers_what_can_be_done(state: StateModel, root_id: Seq<char>, at: int)
    ensures
        ({
            let header = header_model(state);
            &&& header.title == "wtui"@
            &&& header.subtitle == "Manage Git worktrees without blocking your desktop."@
            &&& header.buttons.len() == 3
            &&& reads(
                header.buttons[0],
                "Add repository"@,
                Accent::Primary,
                MsgModel::ChooseRepository,
            )
            &&& reads(header.buttons[1], "Refresh"@, Accent::Primary, MsgModel::RefreshAll)
            &&& header.buttons[2].label == "Add worktree"@
            &&& header.buttons[2].accent == Accent::Success
            &&& state.selected_root is None ==> header.buttons[2].on_press is None
            &&& state.selected_root == Some(root_id) && !is_listed(state.repositories, root_id)
                ==> header.buttons[2].on_press is None
            &&& state.selected_root == Some(root_id) && is_first(state.repositories, root_id, at)
                ==> header.buttons[2].on_press == if state.repositories[at].changing {
                None
            } else {
                Some(MsgModel::ShowAddWorktree)
            }
        }),
{
    let key = WorktreeKeyModel { root_id, path: Seq::empty() };
    lookups_find_the_first(state, key, key, at, 0);
}

/// A banner shows its message. Success, failure and other news differ in colour.
pub proof fn banner_shows_its_message(banner: BannerModel)
    ensures
        banner_model(banner).message == banner.message,
        banner.level == BannerLevel::Success <==> banner_model(banner).accent == Accent::Success,
        banner.level == BannerLevel::Error <==> banner_model(banner).accent == Accent::Danger,
        banner.level == BannerLevel::Info <==> banner_model(banner).accent == Accent::Primary,
{
}

// ── Tabs ──────────────────────────────────────────────────────────────────

/// Each repository has its tab, in the order of the list. The tab has the name of the
/// directory, where that is Unicode, stands out where the repository is selected, and
/// selects it when it is pressed.
pub proof fn each_repository_has_its_tab(state: StateModel, at: int)
    ensures
        tab_models(state).len() == state.repositories.len(),
        0 <= at < state.repositories.len() ==> {
            let tab = tab_models(state)[at];
            let one = state.repositories[at];
            &&& tab.on_press == MsgModel::SelectRoot(one.id)
            &&& tab.selected <==> state.selected_root == Some(one.id)
            &&& file_name(one.path) is None ==> tab.label == "repository"@
            &&& file_name(one.path) matches Some(name) ==> tab.label == if valid_utf8(name) {
                decode_utf8(name)
            } else {
                "repository"@
            }
        },
{
}

// ── Worktrees ─────────────────────────────────────────────────────────────

/// The state of a worktree tells its number of uncommitted files, or that it is clean;
/// then its number of ignored files, if there are any; then how it stands to its
/// upstream branch.
pub proof fn status_tells_the_counts(worktree: WorktreeModel)
    ensures
        worktree.dirty_files == 0 && worktree.ignored_files == 0 ==> status_text(worktree)
            == "clean"@ + tracking_text(worktree),
        worktree.dirty_files > 0 && worktree.ignored_files == 0 ==> status_text(worktree)
            == decimal(worktree.dirty_files) + " uncommitted"@ + tracking_text(worktree),
        worktree.dirty_files == 0 && worktree.ignored_files > 0 ==> status_text(worktree)
            == "clean"@ + " · "@ + decimal(worktree.ignored_files) + " ignored"@ + tracking_text(
            worktree,
        ),
        worktree.dirty_files > 0 && worktree.ignored_files > 0 ==> status_text(worktree) == decimal(
            worktree.dirty_files,
        ) + " uncommitted"@ + " · "@ + decimal(worktree.ignored_files) + " ignored"@
            + tracking_text(worktree),
{
    let tail = tracking_text(worktree);
    let ignored = decimal(worktree.ignored_files);
    let dirty = if worktree.dirty_files == 0 {
        "clean"@
    } else {
        decimal(worktree.dirty_files) + " uncommitted"@
    };
    assert(dirty + Seq::<char>::empty() =~= dirty);
    assert(dirty + (" · "@ + ignored + " ignored"@) =~= dirty + " · "@ + ignored + " ignored"@);
}

/// Where a worktree has an upstream branch, that is named, with how many commits the
/// one has that the other lacks; where both have the same, it is pushed. Where it has
/// none, the line tells whether there is a remote.
pub proof fn tracking_tells_the_upstream(
    worktree: WorktreeModel,
    upstream: Seq<char>,
    ahead: u32,
    behind: u32,
)
    ensures
        worktree.upstream is None && worktree.has_remote ==> tracking_text(worktree)
            == " · no upstream branch"@,
        worktree.upstream is None && !worktree.has_remote ==> tracking_text(worktree)
            == " · no remote"@,
        worktree.upstream == Some(upstream) ==> {
            &&& worktree.ahead is None || worktree.behind is None ==> tracking_text(worktree)
                == " · "@ + upstream + " · upstream status unavailable"@
            &&& worktree.ahead == Some(ahead) && worktree.behind == Some(behind)
                ==> tracking_text(worktree) == if ahead == 0 && behind == 0 {
                " · "@ + upstream + " · pushed"@
            } else {
                " · "@ + upstream + " · ↑"@ + decimal(ahead as nat) + " ↓"@ + decimal(
                    behind as nat,
                )
            }
        },
{
    if worktree.ahead == Some(ahead) && worktree.behind == Some(behind) && worktree.upstream
        == Some(upstream) {
        let head = " · "@ + upstream;
        let up = decimal(ahead as nat);
        let down = decimal(behind as nat);
        assert(head + (" · ↑"@ + up + " ↓"@ + down) =~= head + " · ↑"@ + up + " ↓"@ + down);
    }
}

/// The card of a worktree has the name of its branch, its path and its state; whether
/// it is locked and its error follow, where there is something to tell. Pressing it
/// selects the worktree. Its removal can be asked for unless it is the root or its
/// repository is being changed.
pub proof fn card_tells_of_its_worktree(
    state: StateModel,
    repository: RepositoryModel,
    worktree: WorktreeModel,
    error: Seq<char>,
)
    ensures
        ({
            let card = card_model(state, repository, worktree);
            let key = WorktreeKeyModel { root_id: repository.id, path: worktree.path };
            let line = status_text(worktree);
            &&& worktree.branch is None ==> card.name == "(detached HEAD)"@
            &&& worktree.branch matches Some(branch) ==> card.name == branch
            &&& card.path == lossy_text(worktree.path)
            &&& card.failed <==> worktree.error is Some
            &&& card.on_press == MsgModel::WorktreeSelected(key)
            &&& card.selected <==> (state.selected_worktree matches Some(selected)
                && selected.root_id == repository.id && same_path(selected.path, worktree.path))
            &&& !worktree.locked && worktree.error is None ==> card.details == line
            &&& worktree.locked && worktree.error is None ==> card.details == line + " · "@
                + "locked"@
            &&& !worktree.locked && worktree.error == Some(error) ==> card.details == line
                + " · "@ + error
            &&& worktree.locked && worktree.error == Some(error) ==> card.details == line
                + " · "@ + "locked"@ + " · "@ + error
            &&& worktree.is_main ==> card.removal == RemovalModel::Root("root"@)
            &&& !worktree.is_main ==> {
                &&& card.removal is Offered
                &&& card.removal->Offered_0.label == "Remove"@
                &&& card.removal->Offered_0.accent == Accent::Danger
                &&& card.removal->Offered_0.on_press == if repository.changing {
                    None
                } else {
                    Some(MsgModel::AskRemoveWorktree(key))
                }
            }
        }),
{
    reveal_with_fuel(separated, 4);
    let line = status_text(worktree);
    let lines = details(worktree);
    if !worktree.locked && worktree.error is None {
        assert(lines =~= seq![line]);
    } else if worktree.locked && worktree.error is None {
        assert(lines =~= seq![line, "locked"@]);
        assert(lines.drop_last() =~= seq![line]);
    } else if !worktree.locked {
        let told = worktree.error->0;
        assert(lines =~= seq![line, told]);
        assert(lines.drop_last() =~= seq![line]);
    } else {
        let told = worktree.error->0;
        assert(lines =~= seq![line, "locked"@, told]);
        assert(lines.drop_last() =~= seq![line, "locked"@]);
        assert(lines.drop_last().drop_last() =~= seq![line]);
    }
}

// ── The diff ──────────────────────────────────────────────────────────────

/// The diff is shown as it was loaded, with the branch that it is against. Before that
/// the panel tells what is to be done or is under way, and where there is no diff, why.
pub proof fn loaded_diff_is_shown(state: StateModel)
    ensures
        ({
            let panel = diff_panel_model(state);
            &&& panel.title == "Branch diff"@
            &&& state.diff matches DiffStateModel::Loaded(diff) ==> {
                &&& panel.contents == Some(diff.contents)
                &&& panel.caption.message == "Against "@ + diff.base
                &&& panel.caption.accent == Accent::Muted
            }
            &&& !(state.diff is Loaded) ==> panel.contents is None
            &&& state.diff is Empty ==> panel.caption.message
                == "Select a worktree to compare it with its PR base branch."@
                && panel.caption.accent == Accent::Muted
            &&& state.diff is Loading ==> panel.caption.message == "Loading diff…"@
                && panel.caption.accent == Accent::Primary
            &&& state.diff matches DiffStateModel::Error(message) ==> panel.caption.message
                == message && panel.caption.accent == Accent::Danger
            &&& state.pull_request is None ==> panel.pull_request is None
            &&& state.pull_request matches Some(pull_request) ==> {
                &&& panel.pull_request is Some
                &&& panel.pull_request->0.title == pull_request.title
                &&& panel.pull_request->0.url == pull_request.url
                &&& reads(
                    panel.pull_request->0.open,
                    "Open pull request"@,
                    Accent::Primary,
                    MsgModel::OpenPullRequest(pull_request.url),
                )
            }
        }),
{
}

// ── A repository ──────────────────────────────────────────────────────────

/// The panels of a repository count its worktrees, show a card for each in the order of
/// the list, and tell its error and what is under way. That there are no worktrees is
/// told where none were found, and not while they are looked for or after a failure.
pub proof fn panels_show_the_repository(state: StateModel, repository: RepositoryModel, at: int)
    ensures
        ({
            let panels = panels_model(state, repository);
            let worktrees = repository.worktrees;
            &&& panels.heading == "Worktrees ("@ + decimal(worktrees.len()) + ")"@
            &&& panels.cards.len() == worktrees.len()
            &&& 0 <= at < worktrees.len() ==> panels.cards[at] == card_model(
                state,
                repository,
                worktrees[at],
            )
            &&& panels.error == repository.error
            &&& panels.diff == diff_panel_model(state)
            &&& repository.changing ==> panels.activity == "Working…"@
            &&& !repository.changing && repository.refreshing ==> panels.activity
                == "Refreshing…"@
            &&& !repository.changing && !repository.refreshing ==> panels.activity == ""@
            &&& worktrees.len() > 0 || repository.refreshing || repository.error is Some
                ==> panels.notice is None
            &&& worktrees.len() == 0 && !repository.refreshing && repository.error is None
                ==> panels.notice == Some("No worktrees found."@)
        }),
{
}

/// Without repositories the window welcomes. With some it shows their tabs, and below
/// them the selected repository, or that one is to be selected.
pub proof fn selected_repository_is_shown(state: StateModel, root_id: Seq<char>, at: int)
    ensures
        state.repositories.len() == 0 ==> content_model(state) == (ContentModel::Welcome {
            title: "No repositories yet."@,
            hint: "Select a checked-out Git repository to list and manage its worktrees."@,
        }),
        state.repositories.len() > 0 ==> content_model(state) == (ContentModel::Repositories {
            tabs: tab_models(state),
            body: body_model(state),
        }),
        state.selected_root is None ==> body_model(state) == BodyModel::Prompt(
            "Select a repository."@,
        ),
        state.selected_root == Some(root_id) && !is_listed(state.repositories, root_id)
            ==> body_model(state) == BodyModel::Prompt("Select a repository."@),
        state.selected_root == Some(root_id) && is_first(state.repositories, root_id, at)
            ==> body_model(state) == BodyModel::Selected(
            panels_model(state, state.repositories[at]),
        ),
{
    let key = WorktreeKeyModel { root_id, path: Seq::empty() };
    lookups_find_the_first(state, key, key, at, 0);
    lookup_finds(state.repositories, root_id);
}

// ── Dialogs ───────────────────────────────────────────────────────────────

/// The dialog for adding a worktree shows what was typed. It can be confirmed just
/// where that is not blank, and dismissed at any time.
pub proof fn addition_dialog_shows_the_name(root_id: Seq<char>, branch: Seq<char>)
    ensures
        ({
            let dialog = dialog_model(ModalModel::AddWorktree { root_id, branch });
            &&& dialog.title == "Add worktree"@
            &&& dialog.subtitle == "The new directory is a sibling named <root>-<branch-slug>."@
            &&& dialog.field is Some
            &&& dialog.field->0.placeholder == "Branch name"@
            &&& dialog.field->0.value == branch
            &&& dialog.warning is None
            &&& dialog.note is None
            &&& reads(dialog.cancel, "Cancel"@, Accent::Primary, MsgModel::DismissModal)
            &&& dialog.confirm.label == "Create"@
            &&& dialog.confirm.accent == Accent::Success
            &&& dialog.confirm.on_press == if trimmed(branch).len() == 0 {
                None
            } else {
                Some(MsgModel::ConfirmAddWorktree)
            }
            &&& dialog.on_dismiss == MsgModel::DismissModal
        }),
{
}

/// The dialog for removing a worktree names its path, and tells how many uncommitted
/// and ignored files would be lost, where there are any. It always tells what becomes
/// of the branch. It can be confirmed and dismissed at any time.
pub proof fn removal_dialog_warns(
    root_id: Seq<char>,
    path: Seq<u8>,
    dirty_files: nat,
    ignored_files: nat,
)
    ensures
        ({
            let dialog = dialog_model(
                ModalModel::RemoveWorktree { root_id, path, dirty_files, ignored_files },
            );
            &&& dialog.title == "Remove worktree"@
            &&& dialog.subtitle == lossy_text(path)
            &&& dialog.field is None
            &&& reads(dialog.cancel, "Cancel"@, Accent::Primary, MsgModel::DismissModal)
            &&& dialog.on_dismiss == MsgModel::DismissModal
            &&& dirty_files + ignored_files > 0 ==> {
                &&& dialog.warning == Some(
                    "This worktree has "@ + decimal(dirty_files) + " uncommitted and "@ + decimal(
                        ignored_files,
                    ) + " ignored file(s). Remove anyway? This runs Git with --force."@,
                )
                &&& dialog.note == Some(
                    "The branch stays available unless its pull request was merged."@,
                )
                &&& reads(
                    dialog.confirm,
                    "Remove anyway"@,
                    Accent::Danger,
                    MsgModel::ConfirmRemoveWorktree,
                )
            }
            &&& dirty_files + ignored_files == 0 ==> {
                &&& dialog.warning == Some(
                    "This removes the worktree through Git. The branch stays available unless its pull request was merged."@,
                )
                &&& dialog.note is None
                &&& reads(
                    dialog.confirm,
                    "Remove"@,
                    Accent::Danger,
                    MsgModel::ConfirmRemoveWorktree,
                )
            }
        }),
{
}

// ── The window ────────────────────────────────────────────────────────────

/// The window shows its header and its content, the banner where there is one, and the
/// dialog that is open.
pub proof fn screen_shows_the_state(state: StateModel)
    ensures
        ({
            let screen = screen_model(state);
            &&& screen.header == header_model(state)
            &&& screen.content == content_model(state)
            &&& screen.banner is Some <==> state.banner is Some
            &&& state.banner matches Some(banner) ==> screen.banner == Some(banner_model(banner))
            &&& screen.dialog is Some <==> state.modal is Some
            &&& state.modal matches Some(modal) ==> screen.dialog == Some(dialog_model(modal))
        }),
{
}

} // verus!
