//! What holds of the screen and of what its buttons do.
use vstd::prelude::*;

use crate::state::{find_repository, keyed_worktree, ActionModel, ModalModel, MsgModel, RepositoryModel, StateModel, WorktreeKeyModel, WorktreeModel};
use crate::state_laws::{in_order, is_listed, lookup_finds};
use crate::text::trimmed;
use crate::update::updated;
use crate::view::{card_model, dialog_model, diff_panel_model, header_model, tab_models, RemovalModel};

verus! {

// ── Removing ──────────────────────────────────────────────────────────────

/// The root worktree has no button for its removal, and asking for its removal
/// opens no dialog and starts nothing.
pub proof fn root_removal_is_not_offered(
    state: StateModel,
    repository: RepositoryModel,
    worktree: WorktreeModel,
    key: WorktreeKeyModel,
)
    ensures
        card_model(state, repository, worktree).removal is Root <==> worktree.is_main,
        keyed_worktree(state, key) matches Some(found) ==> found.is_main ==> {
            let after = updated(state, MsgModel::AskRemoveWorktree(key));
            after.0.modal == state.modal && after.1.len() == 0
        },
{
}

/// While a repository is being changed, no worktree of it can be asked to be
/// removed, and none can be added to it.
pub proof fn change_blocks_changes(
    state: StateModel,
    repository: RepositoryModel,
    worktree: WorktreeModel,
)
    requires
        repository.changing,
    ensures
        card_model(state, repository, worktree).removal matches RemovalModel::Offered(button)
            ==> button.on_press is None,
        state.selected_root matches Some(root_id) ==> find_repository(state, root_id) == Some(
            repository,
        ) ==> header_model(state).buttons[2].on_press is None,
{
}

/// A removal is forced just where the dialog says so: its button reads
/// "Remove anyway", and the worktree had uncommitted or ignored files.
pub proof fn force_is_announced(state: StateModel, modal: ModalModel)
    requires
        state.modal == Some(modal),
    ensures
        forall|root_id: Seq<char>, root: Seq<u8>, path: Seq<u8>, force: bool|
            updated(state, MsgModel::ConfirmRemoveWorktree).1.contains(
                #[trigger] removal(root_id, root, path, force),
            ) ==> {
                &&& dialog_model(modal).confirm.on_press == Some(MsgModel::ConfirmRemoveWorktree)
                &&& force <==> dialog_model(modal).confirm.label == "Remove anyway"@
                &&& modal matches ModalModel::RemoveWorktree { dirty_files, ignored_files, .. }
                &&& force <==> dirty_files > 0 || ignored_files > 0
            },
{
    reveal_strlit("Remove anyway");
    reveal_strlit("Remove");
    assert("Remove anyway"@.len() == 13);
    assert("Remove"@.len() == 6);
    let actions = updated(state, MsgModel::ConfirmRemoveWorktree).1;
    assert forall|root_id: Seq<char>, root: Seq<u8>, path: Seq<u8>, force: bool|
        actions.contains(#[trigger] removal(root_id, root, path, force)) implies {
        &&& dialog_model(modal).confirm.on_press == Some(MsgModel::ConfirmRemoveWorktree)
        &&& force <==> dialog_model(modal).confirm.label == "Remove anyway"@
        &&& modal matches ModalModel::RemoveWorktree { dirty_files, ignored_files, .. }
        &&& force <==> dirty_files > 0 || ignored_files > 0
    } by {
        assert(actions[0] == removal(root_id, root, path, force));
    }
}

/// The removal of a worktree.
pub open spec fn removal(root_id: Seq<char>, root: Seq<u8>, path: Seq<u8>, force: bool) -> ActionModel {
    ActionModel::RemoveWorktree { root_id, root, path, force }
}

// ── Adding ────────────────────────────────────────────────────────────────

/// In a state in order, the button for adding a worktree can be pressed just where
/// pressing it opens the dialog, with no name in it yet.
pub proof fn adding_is_offered_where_it_opens(state: StateModel)
    requires
        in_order(state),
        state.modal is None,
    ensures
        header_model(state).buttons[2].on_press is Some <==> updated(
            state,
            MsgModel::ShowAddWorktree,
        ).0.modal is Some,
        header_model(state).buttons[2].on_press is Some ==> updated(
            state,
            MsgModel::ShowAddWorktree,
        ).0.modal == Some(
            ModalModel::AddWorktree { root_id: state.selected_root->0, branch: Seq::empty() },
        ),
{
    if let Some(root_id) = state.selected_root {
        lookup_finds(state.repositories, root_id);
        assert(is_listed(state.repositories, root_id));
    }
}

/// The button that creates a worktree can be pressed just where a name is given.
/// Pressed for a listed repository that is not being changed, it starts to add that
/// branch and closes the dialog.
pub proof fn creating_is_offered_where_it_starts(
    state: StateModel,
    root_id: Seq<char>,
    branch: Seq<char>,
)
    requires
        state.modal == Some(ModalModel::AddWorktree { root_id, branch }),
    ensures
        dialog_model(state.modal->0).confirm.on_press is Some <==> trimmed(branch).len() > 0,
        trimmed(branch).len() > 0 ==> (find_repository(state, root_id) matches Some(repository)
            ==> !repository.changing ==> {
            let after = updated(state, MsgModel::ConfirmAddWorktree);
            &&& after.1 == seq![
                ActionModel::AddWorktree { root_id, root: repository.path, branch },
            ]
            &&& after.0.modal is None
        }),
{
}

// ── Pull requests ─────────────────────────────────────────────────────────

/// The pull request of the selected worktree is shown, whatever became of its diff,
/// with a button that starts to open its address and changes nothing else. Nothing
/// is shown where there is none.
pub proof fn shown_pull_request_opens(state: StateModel)
    ensures
        match (diff_panel_model(state).pull_request, state.pull_request) {
            (Some(shown), Some(pull_request)) => {
                &&& shown.title == pull_request.title
                &&& shown.url == pull_request.url
                &&& shown.open.on_press matches Some(msg)
                &&& updated(state, msg) == (state, seq![ActionModel::OpenUrl(pull_request.url)])
            },
            (None, None) => true,
            _ => false,
        },
{
}

// ── Tabs ──────────────────────────────────────────────────────────────────

/// In a state in order, one tab is selected where a repository is, and none
/// otherwise.
pub proof fn one_tab_is_selected(state: StateModel)
    requires
        in_order(state),
    ensures
        forall|i: int, j: int|
            0 <= i < tab_models(state).len() && 0 <= j < tab_models(state).len()
                && #[trigger] tab_models(state)[i].selected && #[trigger] tab_models(
                state,
            )[j].selected ==> i == j,
        state.selected_root is Some <==> exists|i: int|
            0 <= i < tab_models(state).len() && #[trigger] tab_models(state)[i].selected,
{
    let repositories = state.repositories;
    let tabs = tab_models(state);
    assert forall|i: int, j: int|
        0 <= i < tabs.len() && 0 <= j < tabs.len() && #[trigger] tabs[i].selected
            && #[trigger] tabs[j].selected implies i == j by {
        assert(repositories[i].id == repositories[j].id);
        if i < j {
            assert(repositories[i].id != repositories[j].id);
        } else if j < i {
            assert(repositories[j].id != repositories[i].id);
        }
    }
    if let Some(root_id) = state.selected_root {
        let at = choose|at: int|
            0 <= at < repositories.len() && (#[trigger] repositories[at]).id == root_id;
        assert(tabs[at].selected);
    }
}

} // verus!
