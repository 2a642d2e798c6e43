//! What each message does to the state, and the work that it starts.
use vstd::prelude::*;

use crate::diff::{DiffModel, PullRequestModel};
use crate::encoding::lossy_text;
use crate::path::same_path;
use crate::state::{find_repository, keyed_worktree, listed, repository_at, same_key, worktree_at, ActionModel, BannerLevel, BannerModel, DiffStateModel, LoadedModel, ModalModel, MsgModel, NewRepositoryModel, RepositoryModel, StateModel, WorktreeKeyModel, WorktreeModel};
use crate::state_laws::{is_listed, lookup_finds};
use crate::text::{separated, trimmed};
use crate::update::{initial_state, refresh_one, request_save, saved_roots, updated};
use crate::views::{position_is, position_is_none, position_tells};

verus! {

// ── Looking things up ─────────────────────────────────────────────────────

/// Whether the first repository called `root_id` stands at `at`.
pub open spec fn is_first(repositories: Seq<RepositoryModel>, root_id: Seq<char>, at: int) -> bool {
    &&& 0 <= at < repositories.len()
    &&& repositories[at].id == root_id
    &&& forall|i: int| 0 <= i < at ==> (#[trigger] repositories[i]).id != root_id
}

/// Whether the first worktree at `path` stands at `at`.
pub open spec fn is_first_worktree(worktrees: Seq<WorktreeModel>, path: Seq<u8>, at: int) -> bool {
    &&& 0 <= at < worktrees.len()
    &&& same_path(worktrees[at].path, path)
    &&& forall|i: int| 0 <= i < at ==> !same_path((#[trigger] worktrees[i]).path, path)
}

/// Whether a worktree at `path` is among these.
pub open spec fn has_worktree(worktrees: Seq<WorktreeModel>, path: Seq<u8>) -> bool {
    exists|i: int| 0 <= i < worktrees.len() && same_path((#[trigger] worktrees[i]).path, path)
}

/// A repository is found by its name, a worktree by its path in the repository that
/// its key names. The first that fits counts; where none does, nothing is found. Two
/// keys are the same where they name one repository and one path.
pub proof fn lookups_find_the_first(
    state: StateModel,
    key: WorktreeKeyModel,
    other: WorktreeKeyModel,
    at: int,
    place: int,
)
    ensures
        is_first(state.repositories, key.root_id, at) ==> {
            &&& repository_at(state.repositories, key.root_id) == Some(at)
            &&& find_repository(state, key.root_id) == Some(state.repositories[at])
            &&& is_first_worktree(state.repositories[at].worktrees, key.path, place) ==> {
                &&& worktree_at(state.repositories[at].worktrees, key.path) == Some(place)
                &&& keyed_worktree(state, key) == Some(state.repositories[at].worktrees[place])
            }
            &&& !has_worktree(state.repositories[at].worktrees, key.path) ==> keyed_worktree(
                state,
                key,
            ) is None && worktree_at(state.repositories[at].worktrees, key.path) is None
        },
        !is_listed(state.repositories, key.root_id) ==> {
            &&& repository_at(state.repositories, key.root_id) is None
            &&& find_repository(state, key.root_id) is None
            &&& keyed_worktree(state, key) is None
        },
        same_key(key, other) <==> key.root_id == other.root_id && same_path(key.path, other.path),
{
    let named = |repository: RepositoryModel| repository.id == key.root_id;
    let there = |worktree: WorktreeModel| same_path(worktree.path, key.path);
    if is_first(state.repositories, key.root_id, at) {
        assert forall|i: int| 0 <= i < at implies !named(#[trigger] state.repositories[i]) by {}
        position_is(state.repositories, named, at);
        let worktrees = state.repositories[at].worktrees;
        if is_first_worktree(worktrees, key.path, place) {
            assert forall|i: int| 0 <= i < place implies !there(#[trigger] worktrees[i]) by {}
            position_is(worktrees, there, place);
        }
        if !has_worktree(worktrees, key.path) {
            assert forall|i: int| 0 <= i < worktrees.len() implies !there(
                #[trigger] worktrees[i],
            ) by {}
            position_is_none(worktrees, there);
        }
    }
    if !is_listed(state.repositories, key.root_id) {
        lookup_finds(state.repositories, key.root_id);
    }
}

/// A repository is found where it stands first.
proof fn found_at(state: StateModel, root_id: Seq<char>, at: int)
    requires
        is_first(state.repositories, root_id, at),
    ensures
        repository_at(state.repositories, root_id) == Some(at),
        find_repository(state, root_id) == Some(state.repositories[at]),
{
    let key = WorktreeKeyModel { root_id, path: Seq::empty() };
    lookups_find_the_first(state, key, key, at, 0);
}

/// A repository that is not listed is not found.
proof fn found_nowhere(state: StateModel, root_id: Seq<char>)
    requires
        !is_listed(state.repositories, root_id),
    ensures
        repository_at(state.repositories, root_id) is None,
        find_repository(state, root_id) is None,
{
    lookup_finds(state.repositories, root_id);
}

/// A state that shows a message.
pub open spec fn told(state: StateModel, level: BannerLevel, message: Seq<char>) -> StateModel {
    StateModel { banner: Some(BannerModel { level, message }), ..state }
}

/// A state with the repository at `at` changed.
pub open spec fn changed(state: StateModel, at: int, repository: RepositoryModel) -> StateModel {
    StateModel { repositories: state.repositories.update(at, repository), ..state }
}

/// A state in which no worktree is selected.
pub open spec fn deselected(state: StateModel) -> StateModel {
    StateModel {
        selected_worktree: None,
        diff: DiffStateModel::Empty,
        pull_request: None,
        ..state
    }
}

/// Whether nothing is started, and the state becomes `new`.
pub open spec fn only_becomes(outcome: (StateModel, Seq<ActionModel>), new: StateModel) -> bool {
    outcome.0 == new && outcome.1.len() == 0
}

// ── Refreshing and saving ─────────────────────────────────────────────────

/// A refresh of a listed repository starts unless one is under way or its worktrees
/// are being changed; then it counts as refreshing. Otherwise nothing happens.
pub proof fn refresh_starts_where_idle(state: StateModel, root_id: Seq<char>, at: int)
    ensures
        is_first(state.repositories, root_id, at) ==> {
            let one = state.repositories[at];
            if one.refreshing || one.changing {
                only_becomes(refresh_one(state, root_id), state)
            } else {
                &&& refresh_one(state, root_id).0 == changed(
                    state,
                    at,
                    RepositoryModel { refreshing: true, ..one },
                )
                &&& refresh_one(state, root_id).1 == seq![
                    ActionModel::RefreshRepository { root_id, path: one.path },
                ]
            }
        },
        !is_listed(state.repositories, root_id) ==> only_becomes(
            refresh_one(state, root_id),
            state,
        ),
{
    if is_first(state.repositories, root_id, at) {
        found_at(state, root_id, at);
    }
    if !is_listed(state.repositories, root_id) {
        found_nowhere(state, root_id);
    }
}

/// A save writes the path of each repository, in the order of the list. While one is
/// under way, the list only counts as changed.
pub proof fn save_writes_the_list(state: StateModel, at: int)
    ensures
        saved_roots(state.repositories).len() == state.repositories.len(),
        0 <= at < state.repositories.len() ==> saved_roots(state.repositories)[at] == lossy_text(
            state.repositories[at].path,
        ),
        state.config_saving ==> only_becomes(
            request_save(state),
            StateModel { config_dirty: true, ..state },
        ),
        !state.config_saving ==> {
            &&& request_save(state).0 == (StateModel {
                config_saving: true,
                config_dirty: false,
                ..state
            })
            &&& request_save(state).1 == seq![
                ActionModel::SaveConfig(saved_roots(state.repositories)),
            ]
        },
{
}

/// When a save has ended, none is under way, and a failure is told. Where the list was
/// changed meanwhile, it is saved again at once.
pub proof fn ended_save_is_followed_up(state: StateModel, result: Result<(), Seq<char>>)
    ensures
        ({
            let ended = StateModel { config_saving: false, ..state };
            let shown = match result {
                Ok(_) => ended,
                Err(error) => told(
                    ended,
                    BannerLevel::Error,
                    "Could not save repositories: "@ + error,
                ),
            };
            let outcome = updated(state, MsgModel::ConfigSaved(result));
            if state.config_dirty {
                &&& outcome.0 == (StateModel { config_saving: true, config_dirty: false, ..shown })
                &&& outcome.1 == seq![ActionModel::SaveConfig(saved_roots(state.repositories))]
            } else {
                only_becomes(outcome, shown)
            }
        }),
{
}

// ── Repositories ──────────────────────────────────────────────────────────

/// At the start nothing is listed, selected, shown, asked or being saved.
pub proof fn start_is_empty()
    ensures
        initial_state().repositories.len() == 0,
        initial_state().selected_root is None,
        initial_state().selected_worktree is None,
        initial_state().diff is Empty,
        initial_state().pull_request is None,
        initial_state().modal is None,
        initial_state().banner is None,
        !initial_state().config_saving,
        !initial_state().config_dirty,
{
}

/// A repository of which nothing is known yet has its name and its place, and no
/// worktrees; nothing is under way in it.
pub proof fn fresh_repository_is_idle(new: NewRepositoryModel)
    ensures
        listed(new).id == new.id,
        listed(new).path == new.path,
        listed(new).worktrees.len() == 0,
        !listed(new).refreshing,
        !listed(new).changing,
        listed(new).error is None,
{
}

/// The loaded repositories take the place of the list, the first of them is selected,
/// their warnings are shown one after the other, and all of them are refreshed. A
/// failure is told.
pub proof fn loaded_list_is_taken(state: StateModel, loaded: LoadedModel, error: Seq<char>)
    ensures
        updated(state, MsgModel::ConfigLoaded(Ok(loaded))) == updated(
            StateModel {
                repositories: loaded.repositories,
                selected_root: if loaded.repositories.len() == 0 {
                    None
                } else {
                    Some(loaded.repositories[0].id)
                },
                banner: if loaded.warnings.len() == 0 {
                    state.banner
                } else {
                    Some(
                        BannerModel {
                            level: BannerLevel::Info,
                            message: separated(loaded.warnings, " "@),
                        },
                    )
                },
                ..state
            },
            MsgModel::RefreshAll,
        ),
        only_becomes(
            updated(state, MsgModel::ConfigLoaded(Err(error))),
            told(state, BannerLevel::Error, "Could not load saved repositories: "@ + error),
        ),
{
}

/// The user picks a directory, and what was picked is looked at.
pub proof fn picked_directory_is_looked_at(state: StateModel, path: Seq<u8>)
    ensures
        updated(state, MsgModel::ChooseRepository) == (state, seq![ActionModel::PickRepository]),
        only_becomes(updated(state, MsgModel::RepositoryPicked(None)), state),
        updated(state, MsgModel::RepositoryPicked(Some(path))) == (
            state,
            seq![ActionModel::ValidateRepository(path)],
        ),
{
}

/// A repository that is new is listed behind the others and selected, with its refresh
/// under way; the list is saved. One that is listed stays as it is, and that is told.
/// A failure is told.
pub proof fn added_repository_is_listed(
    state: StateModel,
    new: NewRepositoryModel,
    error: Seq<char>,
)
    ensures
        is_listed(state.repositories, new.id) ==> only_becomes(
            updated(state, MsgModel::RepositoryAdded(Ok(new))),
            told(state, BannerLevel::Info, "That repository is already listed."@),
        ),
        !is_listed(state.repositories, new.id) ==> {
            let outcome = updated(state, MsgModel::RepositoryAdded(Ok(new)));
            let list = state.repositories.push(
                RepositoryModel {
                    id: new.id,
                    path: new.path,
                    worktrees: Seq::empty(),
                    refreshing: true,
                    changing: false,
                    error: None,
                },
            );
            &&& outcome.0 == (StateModel {
                repositories: list,
                selected_root: Some(new.id),
                banner: None,
                config_saving: true,
                config_dirty: state.config_saving,
                ..state
            })
            &&& outcome.1 == if state.config_saving {
                seq![ActionModel::RefreshRepository { root_id: new.id, path: new.path }]
            } else {
                seq![
                    ActionModel::SaveConfig(
                        saved_roots(state.repositories).push(lossy_text(new.path)),
                    ),
                    ActionModel::RefreshRepository { root_id: new.id, path: new.path },
                ]
            }
        },
        only_becomes(
            updated(state, MsgModel::RepositoryAdded(Err(error))),
            told(state, BannerLevel::Error, "Not a Git repository: "@ + error),
        ),
{
    lookup_finds(state.repositories, new.id);
    if is_listed(state.repositories, new.id) {
        let i = choose|i: int|
            0 <= i < state.repositories.len() && (#[trigger] state.repositories[i]).id == new.id;
        let named = |repository: RepositoryModel| repository.id == new.id;
        position_tells(state.repositories, named);
        assert(named(state.repositories[i]));
    } else {
        let fresh = RepositoryModel {
            id: new.id,
            path: new.path,
            worktrees: Seq::empty(),
            refreshing: false,
            changing: false,
            error: None,
        };
        let longer = StateModel {
            repositories: state.repositories.push(fresh),
            selected_root: Some(new.id),
            banner: None,
            ..state
        };
        let (saved, save) = request_save(longer);
        let at = state.repositories.len() as int;
        assert forall|i: int| 0 <= i < at implies (#[trigger] saved.repositories[i]).id
            != new.id by {
            assert(saved.repositories[i] == state.repositories[i]);
        }
        refresh_starts_where_idle(saved, new.id, at);
        let outcome = updated(state, MsgModel::RepositoryAdded(Ok(new)));
        assert(saved.repositories.update(at, RepositoryModel { refreshing: true, ..fresh })
            =~= state.repositories.push(RepositoryModel { refreshing: true, ..fresh }));
        assert(saved_roots(longer.repositories) =~= saved_roots(state.repositories).push(
            lossy_text(new.path),
        ));
        assert(outcome.1 =~= save + refresh_one(saved, new.id).1);
    }
}

/// A listed repository can be selected, which selects no worktree of it yet. Another
/// cannot.
pub proof fn listed_repository_is_selected(state: StateModel, root_id: Seq<char>)
    ensures
        is_listed(state.repositories, root_id) ==> only_becomes(
            updated(state, MsgModel::SelectRoot(root_id)),
            deselected(StateModel { selected_root: Some(root_id), ..state }),
        ),
        !is_listed(state.repositories, root_id) ==> only_becomes(
            updated(state, MsgModel::SelectRoot(root_id)),
            state,
        ),
{
    lookup_finds(state.repositories, root_id);
    if is_listed(state.repositories, root_id) {
        let i = choose|i: int|
            0 <= i < state.repositories.len() && (#[trigger] state.repositories[i]).id == root_id;
        let named = |repository: RepositoryModel| repository.id == root_id;
        position_tells(state.repositories, named);
        assert(named(state.repositories[i]));
    }
}

/// A refresh that has ended gives its repository the worktrees that it found, and
/// clears its error; one that failed leaves the worktrees and tells the error. Either
/// way no refresh is under way. The selection goes just where its worktree is gone.
/// What comes for a repository that is not listed is dropped.
pub proof fn ended_refresh_is_taken(
    state: StateModel,
    root_id: Seq<char>,
    result: Result<Seq<WorktreeModel>, Seq<char>>,
    at: int,
)
    ensures
        ({
            let outcome = updated(state, MsgModel::RepositoryRefreshed { root_id, result });
            &&& !is_listed(state.repositories, root_id) ==> only_becomes(outcome, state)
            &&& is_first(state.repositories, root_id, at) ==> {
                let one = state.repositories[at];
                match result {
                    Err(error) => only_becomes(
                        outcome,
                        changed(
                            state,
                            at,
                            RepositoryModel { refreshing: false, error: Some(error), ..one },
                        ),
                    ),
                    Ok(worktrees) => {
                        let new = changed(
                            state,
                            at,
                            RepositoryModel { worktrees, refreshing: false, error: None, ..one },
                        );
                        let gone = state.selected_worktree matches Some(key) && key.root_id
                            == root_id && !has_worktree(worktrees, key.path);
                        only_becomes(
                            outcome,
                            if gone {
                                deselected(new)
                            } else {
                                new
                            },
                        )
                    },
                }
            }
        }),
{
    if !is_listed(state.repositories, root_id) {
        found_nowhere(state, root_id);
    }
    if is_first(state.repositories, root_id, at) {
        found_at(state, root_id, at);
        if let Ok(worktrees) = result {
            if let Some(key) = state.selected_worktree {
                let there = |worktree: WorktreeModel| same_path(worktree.path, key.path);
                position_tells(worktrees, there);
                if has_worktree(worktrees, key.path) {
                    let i = choose|i: int|
                        0 <= i < worktrees.len() && same_path(
                            (#[trigger] worktrees[i]).path,
                            key.path,
                        );
                    assert(there(worktrees[i]));
                }
            }
        }
    }
}

// ── Adding a worktree ─────────────────────────────────────────────────────

/// Adding a worktree opens an empty dialog for the selected repository, unless that
/// one is listed and being changed. Without one, that is told.
pub proof fn adding_opens_a_dialog(state: StateModel, root_id: Seq<char>, at: int)
    ensures
        state.selected_root is None ==> only_becomes(
            updated(state, MsgModel::ShowAddWorktree),
            told(state, BannerLevel::Info, "Select a repository first."@),
        ),
        state.selected_root == Some(root_id) && !is_listed(state.repositories, root_id)
            ==> only_becomes(
            updated(state, MsgModel::ShowAddWorktree),
            StateModel {
                modal: Some(ModalModel::AddWorktree { root_id, branch: Seq::empty() }),
                ..state
            },
        ),
        state.selected_root == Some(root_id) && is_first(state.repositories, root_id, at)
            ==> only_becomes(
            updated(state, MsgModel::ShowAddWorktree),
            if state.repositories[at].changing {
                state
            } else {
                StateModel {
                    modal: Some(ModalModel::AddWorktree { root_id, branch: Seq::empty() }),
                    ..state
                }
            },
        ),
{
    if is_first(state.repositories, root_id, at) {
        found_at(state, root_id, at);
    }
    if !is_listed(state.repositories, root_id) {
        found_nowhere(state, root_id);
    }
}

/// What is typed stands in the dialog for adding a worktree, and nowhere else.
pub proof fn typed_name_stands_in_the_dialog(state: StateModel, typed: Seq<char>)
    ensures
        only_becomes(
            updated(state, MsgModel::BranchChanged(typed)),
            match state.modal {
                Some(ModalModel::AddWorktree { root_id, branch }) => StateModel {
                    modal: Some(ModalModel::AddWorktree { root_id, branch: typed }),
                    ..state
                },
                _ => state,
            },
        ),
{
}

/// A confirmed addition starts for the repository of the dialog, with the name as it
/// was typed, and closes the dialog; the repository counts as being changed. A blank
/// name is refused. Where the repository is being changed already, is not listed, or
/// there is no such dialog, nothing happens.
pub proof fn confirmed_addition_starts(
    state: StateModel,
    root_id: Seq<char>,
    branch: Seq<char>,
    at: int,
)
    ensures
        !(state.modal matches Some(ModalModel::AddWorktree { .. })) ==> only_becomes(
            updated(state, MsgModel::ConfirmAddWorktree),
            state,
        ),
        state.modal == Some(ModalModel::AddWorktree { root_id, branch }) ==> {
            let outcome = updated(state, MsgModel::ConfirmAddWorktree);
            &&& trimmed(branch).len() == 0 ==> only_becomes(
                outcome,
                told(state, BannerLevel::Error, "Enter a branch name."@),
            )
            &&& trimmed(branch).len() > 0 && !is_listed(state.repositories, root_id)
                ==> only_becomes(outcome, state)
            &&& trimmed(branch).len() > 0 && is_first(state.repositories, root_id, at) ==> {
                let one = state.repositories[at];
                if one.changing {
                    only_becomes(outcome, state)
                } else {
                    &&& outcome.0 == (StateModel {
                        modal: None,
                        banner: None,
                        ..changed(state, at, RepositoryModel { changing: true, ..one })
                    })
                    &&& outcome.1 == seq![
                        ActionModel::AddWorktree { root_id, root: one.path, branch },
                    ]
                }
            }
        },
{
    if is_first(state.repositories, root_id, at) {
        found_at(state, root_id, at);
    }
    if !is_listed(state.repositories, root_id) {
        found_nowhere(state, root_id);
    }
}

/// When a worktree has been added, that is told with its path, its repository no longer
/// counts as being changed, and is refreshed unless a refresh is under way. A failure
/// is told, and starts nothing.
pub proof fn ended_addition_is_told(
    state: StateModel,
    root_id: Seq<char>,
    path: Seq<u8>,
    error: Seq<char>,
    at: int,
)
    requires
        is_first(state.repositories, root_id, at),
    ensures
        ({
            let one = RepositoryModel { changing: false, ..state.repositories[at] };
            let shown = told(
                state,
                BannerLevel::Success,
                "Created worktree at "@ + lossy_text(path) + "."@,
            );
            let outcome = updated(state, MsgModel::WorktreeAdded { root_id, result: Ok(path) });
            &&& outcome.0 == changed(shown, at, RepositoryModel { refreshing: true, ..one })
            &&& outcome.1 == if one.refreshing {
                Seq::empty()
            } else {
                seq![ActionModel::RefreshRepository { root_id, path: one.path }]
            }
            &&& only_becomes(
                updated(state, MsgModel::WorktreeAdded { root_id, result: Err(error) }),
                changed(
                    told(state, BannerLevel::Error, "Could not add worktree: "@ + error),
                    at,
                    one,
                ),
            )
        }),
{
    found_at(state, root_id, at);
    let one = RepositoryModel { changing: false, ..state.repositories[at] };
    let shown = told(
        state,
        BannerLevel::Success,
        "Created worktree at "@ + lossy_text(path) + "."@,
    );
    let ended = changed(shown, at, one);
    assert forall|i: int| 0 <= i < at implies (#[trigger] ended.repositories[i]).id != root_id by {
        assert(ended.repositories[i] == state.repositories[i]);
    }
    refresh_starts_where_idle(ended, root_id, at);
    assert(ended.repositories.update(at, RepositoryModel { refreshing: true, ..one })
        =~= state.repositories.update(at, RepositoryModel { refreshing: true, ..one }));
}

// ── The selected worktree ─────────────────────────────────────────────────

/// Selecting a worktree shows that its diff is being loaded, and starts to load it and
/// its pull request.
pub proof fn selected_worktree_is_looked_at(state: StateModel, key: WorktreeKeyModel)
    ensures
        updated(state, MsgModel::WorktreeSelected(key)) == (
            StateModel {
                selected_worktree: Some(key),
                diff: DiffStateModel::Loading,
                pull_request: None,
                ..state
            },
            seq![ActionModel::LoadDiff(key), ActionModel::LoadPullRequest(key)],
        ),
{
}

/// What comes for the selected worktree is taken: its diff, or why there is none, and
/// its pull request. What comes for another is dropped.
pub proof fn only_the_selected_worktree_counts(
    state: StateModel,
    key: WorktreeKeyModel,
    result: Result<DiffModel, Seq<char>>,
    pull_request: Option<PullRequestModel>,
)
    ensures
        ({
            let selected = state.selected_worktree matches Some(current) && current.root_id
                == key.root_id && same_path(current.path, key.path);
            &&& only_becomes(
                updated(state, MsgModel::DiffLoaded { key, result }),
                if selected {
                    StateModel {
                        diff: match result {
                            Ok(diff) => DiffStateModel::Loaded(diff),
                            Err(message) => DiffStateModel::Error(message),
                        },
                        ..state
                    }
                } else {
                    state
                },
            )
            &&& only_becomes(
                updated(state, MsgModel::PullRequestLoaded { key, pull_request }),
                if selected {
                    StateModel { pull_request, ..state }
                } else {
                    state
                },
            )
        }),
{
}

/// Opening a pull request starts to open its address. A failure is told.
pub proof fn pull_request_is_opened(state: StateModel, url: Seq<char>, error: Seq<char>)
    ensures
        updated(state, MsgModel::OpenPullRequest(url)) == (
            state,
            seq![ActionModel::OpenUrl(url)],
        ),
        only_becomes(updated(state, MsgModel::PullRequestOpened(Ok(()))), state),
        only_becomes(
            updated(state, MsgModel::PullRequestOpened(Err(error))),
            told(state, BannerLevel::Error, "Could not open the pull request: "@ + error),
        ),
{
}

// ── Removing a worktree ───────────────────────────────────────────────────

/// Asking to remove a listed worktree that is not the root opens the dialog for it,
/// with its numbers of uncommitted and ignored files, whatever they are. For the root
/// that is refused. For a worktree that is not listed nothing happens.
pub proof fn removal_dialog_tells_what_is_at_stake(
    state: StateModel,
    key: WorktreeKeyModel,
    at: int,
    place: int,
)
    ensures
        ({
            let outcome = updated(state, MsgModel::AskRemoveWorktree(key));
            &&& !is_listed(state.repositories, key.root_id) ==> only_becomes(outcome, state)
            &&& is_first(state.repositories, key.root_id, at) ==> {
                let worktrees = state.repositories[at].worktrees;
                &&& !has_worktree(worktrees, key.path) ==> only_becomes(outcome, state)
                &&& is_first_worktree(worktrees, key.path, place) ==> only_becomes(
                    outcome,
                    if worktrees[place].is_main {
                        told(state, BannerLevel::Info, "The root worktree cannot be removed."@)
                    } else {
                        StateModel {
                            modal: Some(
                                ModalModel::RemoveWorktree {
                                    root_id: key.root_id,
                                    path: key.path,
                                    dirty_files: worktrees[place].dirty_files,
                                    ignored_files: worktrees[place].ignored_files,
                                },
                            ),
                            ..state
                        }
                    },
                )
            }
        }),
{
    lookups_find_the_first(state, key, key, at, place);
}

/// A confirmed removal starts for the worktree of the dialog, and closes the dialog;
/// the repository counts as being changed. It is forced just where the dialog told of
/// files that would be lost. Where the repository is being changed already, is not
/// listed, or there is no such dialog, nothing happens.
pub proof fn confirmed_removal_starts(
    state: StateModel,
    root_id: Seq<char>,
    path: Seq<u8>,
    dirty_files: nat,
    ignored_files: nat,
    at: int,
)
    ensures
        !(state.modal matches Some(ModalModel::RemoveWorktree { .. })) ==> only_becomes(
            updated(state, MsgModel::ConfirmRemoveWorktree),
            state,
        ),
        state.modal == Some(
            ModalModel::RemoveWorktree { root_id, path, dirty_files, ignored_files },
        ) ==> {
            let outcome = updated(state, MsgModel::ConfirmRemoveWorktree);
            &&& !is_listed(state.repositories, root_id) ==> only_becomes(outcome, state)
            &&& is_first(state.repositories, root_id, at) ==> {
                let one = state.repositories[at];
                if one.changing {
                    only_becomes(outcome, state)
                } else {
                    &&& outcome.0 == (StateModel {
                        modal: None,
                        banner: None,
                        ..changed(state, at, RepositoryModel { changing: true, ..one })
                    })
                    &&& outcome.1 == seq![
                        ActionModel::RemoveWorktree {
                            root_id,
                            root: one.path,
                            path,
                            force: dirty_files + ignored_files > 0,
                        },
                    ]
                }
            }
        },
{
    if is_first(state.repositories, root_id, at) {
        found_at(state, root_id, at);
    }
    if !is_listed(state.repositories, root_id) {
        found_nowhere(state, root_id);
    }
}

/// When a worktree has been removed, that is told with its path, the selection goes if
/// it was that worktree, the repository no longer counts as being changed, and is
/// refreshed unless a refresh is under way. A failure is told, and starts nothing.
pub proof fn ended_removal_is_told(
    state: StateModel,
    root_id: Seq<char>,
    path: Seq<u8>,
    error: Seq<char>,
    at: int,
)
    requires
        is_first(state.repositories, root_id, at),
    ensures
        ({
            let one = RepositoryModel { changing: false, ..state.repositories[at] };
            let selected = state.selected_worktree matches Some(current) && current.root_id
                == root_id && same_path(current.path, path);
            let shown = told(
                if selected {
                    deselected(state)
                } else {
                    state
                },
                BannerLevel::Success,
                "Removed worktree at "@ + lossy_text(path) + "."@,
            );
            let outcome = updated(
                state,
                MsgModel::WorktreeRemoved { root_id, path, result: Ok(()) },
            );
            &&& outcome.0 == changed(shown, at, RepositoryModel { refreshing: true, ..one })
            &&& outcome.1 == if one.refreshing {
                Seq::empty()
            } else {
                seq![ActionModel::RefreshRepository { root_id, path: one.path }]
            }
            &&& only_becomes(
                updated(state, MsgModel::WorktreeRemoved { root_id, path, result: Err(error) }),
                changed(
                    told(state, BannerLevel::Error, "Could not remove worktree: "@ + error),
                    at,
                    one,
                ),
            )
        }),
{
    found_at(state, root_id, at);
    let one = RepositoryModel { changing: false, ..state.repositories[at] };
    let selected = state.selected_worktree matches Some(current) && current.root_id == root_id
        && same_path(current.path, path);
    let shown = told(
        if selected {
            deselected(state)
        } else {
            state
        },
        BannerLevel::Success,
        "Removed worktree at "@ + lossy_text(path) + "."@,
    );
    let ended = changed(shown, at, one);
    assert forall|i: int| 0 <= i < at implies (#[trigger] ended.repositories[i]).id != root_id by {
        assert(ended.repositories[i] == state.repositories[i]);
    }
    refresh_starts_where_idle(ended, root_id, at);
    assert(ended.repositories.update(at, RepositoryModel { refreshing: true, ..one })
        =~= state.repositories.update(at, RepositoryModel { refreshing: true, ..one }));
}

/// What ends for a repository that is not listed any more is told all the same, and
/// changes no repository.
pub proof fn end_for_unlisted_is_told(
    state: StateModel,
    root_id: Seq<char>,
    path: Seq<u8>,
    error: Seq<char>,
)
    requires
        !is_listed(state.repositories, root_id),
    ensures
        only_becomes(
            updated(state, MsgModel::WorktreeAdded { root_id, result: Ok(path) }),
            told(
                state,
                BannerLevel::Success,
                "Created worktree at "@ + lossy_text(path) + "."@,
            ),
        ),
        only_becomes(
            updated(state, MsgModel::WorktreeAdded { root_id, result: Err(error) }),
            told(state, BannerLevel::Error, "Could not add worktree: "@ + error),
        ),
        only_becomes(
            updated(state, MsgModel::WorktreeRemoved { root_id, path, result: Err(error) }),
            told(state, BannerLevel::Error, "Could not remove worktree: "@ + error),
        ),
        ({
            let outcome = updated(
                state,
                MsgModel::WorktreeRemoved { root_id, path, result: Ok(()) },
            );
            let selected = state.selected_worktree matches Some(current) && current.root_id
                == root_id && same_path(current.path, path);
            only_becomes(
                outcome,
                told(
                    if selected {
                        deselected(state)
                    } else {
                        state
                    },
                    BannerLevel::Success,
                    "Removed worktree at "@ + lossy_text(path) + "."@,
                ),
            )
        }),
{
    found_nowhere(state, root_id);
}

/// A dialog that is dismissed is gone, and nothing else changes.
pub proof fn dismissed_dialog_is_gone(state: StateModel)
    ensures
        only_becomes(
            updated(state, MsgModel::DismissModal),
            StateModel { modal: None, ..state },
        ),
{
}

} // verus!
