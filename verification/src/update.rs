//! How messages change the state, and the work that they start.
use vstd::prelude::*;
use vstd::string::*;

use crate::diff::{Diff, DiffModel, PullRequest, PullRequestModel};
use crate::encoding::lossy_text;
use crate::path::{same_path, FilePath};
use crate::state::{find_repository, find_worktree, keyed_worktree, listed, repository, repository_at, repository_index, same_key, worktree_at, worktree_index, Action, ActionModel, Banner, BannerLevel, BannerModel, DiffState, DiffStateModel, LoadedModel, LoadedRepositories, Modal, ModalModel, Msg, MsgModel, NewRepository, NewRepositoryModel, Refresh, Repository, RepositoryModel, State, StateModel, WorktreeKey, WorktreeKeyModel, WorktreeModel};
use crate::text::{is_blank, join, join2, join3, separated, trimmed};
use crate::views::{option_view, result_view, views, views_push, views_update};

verus! {

/// How often the repositories are refreshed, in seconds.
pub const POLL_INTERVAL_SECONDS: u64 = 5;

/// A state, and the work to start.
pub type Outcome = (StateModel, Seq<ActionModel>);

/// A state, and no work to start.
pub open spec fn idle(state: StateModel) -> Outcome {
    (state, Seq::empty())
}

/// `state` with another banner.
pub open spec fn with_banner(state: StateModel, level: BannerLevel, message: Seq<char>) -> StateModel {
    StateModel { banner: Some(BannerModel { level, message }), ..state }
}

/// `state` with another repository at `at`.
pub open spec fn with_repository(state: StateModel, at: int, repository: RepositoryModel) -> StateModel {
    StateModel { repositories: state.repositories.update(at, repository), ..state }
}

/// `state` with no worktree selected.
pub open spec fn without_selection(state: StateModel) -> StateModel {
    StateModel {
        selected_worktree: None,
        diff: DiffStateModel::Empty,
        pull_request: None,
        ..state
    }
}

/// The state in which wtui starts.
pub open spec fn initial_state() -> StateModel {
    StateModel {
        repositories: Seq::empty(),
        selected_root: None,
        selected_worktree: None,
        diff: DiffStateModel::Empty,
        pull_request: None,
        modal: None,
        banner: None,
        config_saving: false,
        config_dirty: false,
    }
}

/// The state in which wtui starts, and the work that it starts with.
pub fn boot() -> (start: (State, Vec<Action>))
    ensures
        start.0@ == initial_state(),
        views(start.1@) == seq![ActionModel::LoadConfig],
{
    let state = State {
        repositories: Vec::new(),
        selected_root: None,
        selected_worktree: None,
        diff: DiffState::Empty,
        pull_request: None,
        modal: None,
        banner: None,
        config_saving: false,
        config_dirty: false,
    };
    assert(state@.repositories =~= initial_state().repositories);
    let actions = vec![Action::LoadConfig];
    assert(views(actions@) =~= seq![ActionModel::LoadConfig]);
    (state, actions)
}

/// The repository called `root_id`, to be changed.
pub fn repository_mut<'a>(state: &'a mut State, root_id: &str) -> (found: Option<
    &'a mut Repository,
>)
    ensures
        match found {
            Some(repository) => {
                let at = repository_at(old(state)@.repositories, root_id@)->0;
                &&& repository_at(old(state)@.repositories, root_id@) is Some
                &&& 0 <= at < old(state)@.repositories.len()
                &&& repository@ == old(state)@.repositories[at]
                &&& final(state)@ == with_repository(old(state)@, at, final(repository)@)
            },
            None => repository_at(old(state)@.repositories, root_id@) is None && final(state)@
                == old(state)@,
        },
{
    match repository_index(&state.repositories, root_id) {
        Some(at) => {
            proof {
                views_update(state.repositories@, at as int);
            }
            let repository = &mut state.repositories[at];
            Some(repository)
        },
        None => None,
    }
}

/// No work.
fn nothing() -> (actions: Vec<Action>)
    ensures
        views(actions@) == Seq::<ActionModel>::empty(),
{
    let actions: Vec<Action> = Vec::new();
    assert(views(actions@) =~= Seq::<ActionModel>::empty());
    actions
}

/// One piece of work.
fn only(action: Action) -> (actions: Vec<Action>)
    ensures
        views(actions@) == seq![action@],
{
    let actions = vec![action];
    assert(views(actions@) =~= seq![action@]);
    actions
}

/// Shows a banner.
fn show_banner(state: &mut State, level: BannerLevel, message: String)
    ensures
        final(state)@ == with_banner(old(state)@, level, message@),
{
    state.banner = Some(Banner { level, message });
}

/// Selects no worktree.
fn clear_selection(state: &mut State)
    ensures
        final(state)@ == without_selection(old(state)@),
{
    state.selected_worktree = None;
    state.diff = DiffState::Empty;
    state.pull_request = None;
}

// ── Refreshing ────────────────────────────────────────────────────────────

/// Starts a refresh of the repository called `root_id`, unless it is busy.
pub open spec fn refresh_one(state: StateModel, root_id: Seq<char>) -> Outcome {
    match repository_at(state.repositories, root_id) {
        None => idle(state),
        Some(at) => {
            let repository = state.repositories[at];
            if repository.refreshing || repository.changing {
                idle(state)
            } else {
                (
                    with_repository(state, at, RepositoryModel { refreshing: true, ..repository }),
                    seq![
                        ActionModel::RefreshRepository {
                            root_id: repository.id,
                            path: repository.path,
                        },
                    ],
                )
            }
        },
    }
}

/// Starts a refresh of each repository called by one of the `ids`, in turn.
pub open spec fn refresh_each(state: StateModel, ids: Seq<Seq<char>>) -> Outcome
    decreases ids.len(),
{
    if ids.len() == 0 {
        idle(state)
    } else {
        let before = refresh_each(state, ids.drop_last());
        let last = refresh_one(before.0, ids.last());
        (last.0, before.1 + last.1)
    }
}

/// The ids of the repositories.
pub open spec fn ids(repositories: Seq<RepositoryModel>) -> Seq<Seq<char>> {
    repositories.map_values(|repository: RepositoryModel| repository.id)
}

/// Starts a refresh of each repository that is not busy.
pub open spec fn refresh_every(state: StateModel) -> Outcome {
    refresh_each(state, ids(state.repositories))
}

/// Starts a refresh of the repository called `root_id`, unless it is busy.
pub fn request_refresh(state: &mut State, root_id: &str) -> (actions: Vec<Action>)
    ensures
        (final(state)@, views(actions@)) == refresh_one(old(state)@, root_id@),
{
    match repository_mut(state, root_id) {
        None => nothing(),
        Some(repository) => {
            if repository.refreshing || repository.changing {
                assert(old(state)@.repositories.update(
                    repository_at(old(state)@.repositories, root_id@)->0,
                    repository@,
                ) =~= old(state)@.repositories);
                return nothing();
            }
            repository.refreshing = true;
            only(
                Action::RefreshRepository {
                    root_id: repository.id.clone(),
                    path: repository.path.clone(),
                },
            )
        },
    }
}

/// Starts a refresh of each repository that is not busy.
pub fn refresh_all(state: &mut State) -> (actions: Vec<Action>)
    ensures
        (final(state)@, views(actions@)) == refresh_every(old(state)@),
{
    let ghost all = ids(state@.repositories);
    let mut names: Vec<String> = Vec::new();
    for i in 0..state.repositories.len()
        invariant
            all == ids(state@.repositories),
            views(names@) == all.take(i as int),
            *state == *old(state),
    {
        let name = state.repositories[i].id.clone();
        proof {
            views_push(names@, name);
        }
        names.push(name);
        assert(all.take(i + 1) == all.take(i as int).push(name@));
    }
    assert(all.take(all.len() as int) == all);
    let mut actions = nothing();
    for i in 0..names.len()
        invariant
            views(names@) == all,
            (state@, views(actions@)) == refresh_each(old(state)@, all.take(i as int)),
    {
        assert(all.take(i + 1).drop_last() == all.take(i as int));
        let ghost before = actions@;
        let mut more = request_refresh(state, names[i].as_str());
        let ghost added = more@;
        actions.append(&mut more);
        assert(views(actions@) == views(before) + views(added));
    }
    assert(all.take(names@.len() as int) == all);
    actions
}

// ── Saving ────────────────────────────────────────────────────────────────

/// The paths of the repositories as they are saved.
pub open spec fn saved_roots(repositories: Seq<RepositoryModel>) -> Seq<Seq<char>> {
    repositories.map_values(|repository: RepositoryModel| lossy_text(repository.path))
}

/// Starts to save the list of repositories. While a save is under way, the list is
/// only marked as changed, to be saved again afterwards.
pub open spec fn request_save(state: StateModel) -> Outcome {
    if state.config_saving {
        idle(StateModel { config_dirty: true, ..state })
    } else {
        (
            StateModel { config_saving: true, config_dirty: false, ..state },
            seq![ActionModel::SaveConfig(saved_roots(state.repositories))],
        )
    }
}

/// The work that saves the list of repositories.
pub fn save_repositories_task(repositories: &Vec<Repository>) -> (action: Action)
    ensures
        action@ == ActionModel::SaveConfig(saved_roots(views(repositories@))),
{
    let mut roots: Vec<String> = Vec::new();
    let ghost all = saved_roots(views(repositories@));
    for i in 0..repositories.len()
        invariant
            all == saved_roots(views(repositories@)),
            views(roots@) == all.take(i as int),
    {
        let root = repositories[i].path.to_text();
        proof {
            views_push(roots@, root);
        }
        roots.push(root);
        assert(all.take(i + 1) == all.take(i as int).push(root@));
    }
    assert(all.take(all.len() as int) == all);
    Action::SaveConfig(roots)
}

/// Starts to save the list of repositories, or marks it as changed. At most one
/// save runs at once, so a stale list cannot be written after a newer one.
pub fn request_config_save(state: &mut State) -> (actions: Vec<Action>)
    ensures
        (final(state)@, views(actions@)) == request_save(old(state)@),
{
    state.config_dirty = true;
    if state.config_saving {
        return nothing();
    }
    state.config_saving = true;
    state.config_dirty = false;
    only(save_repositories_task(&state.repositories))
}

// ── The saved repositories ────────────────────────────────────────────────

/// The state with the loaded repositories in place of its own. The first of them is
/// selected, and the warnings are shown.
pub open spec fn list_replaced(state: StateModel, loaded: LoadedModel) -> StateModel {
    let replaced = StateModel {
        repositories: loaded.repositories,
        selected_root: if loaded.repositories.len() > 0 {
            Some(loaded.repositories[0].id)
        } else {
            None
        },
        ..state
    };
    if loaded.warnings.len() > 0 {
        with_banner(replaced, BannerLevel::Info, separated(loaded.warnings, " "@))
    } else {
        replaced
    }
}

/// The saved repositories have been loaded, or could not be.
pub open spec fn config_loaded(state: StateModel, result: Result<LoadedModel, Seq<char>>) -> Outcome {
    match result {
        Ok(loaded) => refresh_every(list_replaced(state, loaded)),
        Err(error) => idle(
            with_banner(state, BannerLevel::Error, "Could not load saved repositories: "@ + error),
        ),
    }
}

/// A save has ended. If the list has changed meanwhile, it is saved again.
pub open spec fn config_saved(state: StateModel, result: Result<(), Seq<char>>) -> Outcome {
    let saved = StateModel { config_saving: false, ..state };
    let told = match result {
        Ok(_) => saved,
        Err(error) => with_banner(
            saved,
            BannerLevel::Error,
            "Could not save repositories: "@ + error,
        ),
    };
    if told.config_dirty {
        request_save(told)
    } else {
        idle(told)
    }
}

/// A directory has been found to be a repository, or not. A new one is listed,
/// selected, saved and refreshed.
pub open spec fn repository_added(
    state: StateModel,
    result: Result<NewRepositoryModel, Seq<char>>,
) -> Outcome {
    match result {
        Ok(new) => if repository_at(state.repositories, new.id) is Some {
            idle(with_banner(state, BannerLevel::Info, "That repository is already listed."@))
        } else {
            let added = StateModel {
                repositories: state.repositories.push(listed(new)),
                selected_root: Some(new.id),
                banner: None,
                ..state
            };
            let saved = request_save(added);
            let refreshed = refresh_one(saved.0, new.id);
            (refreshed.0, saved.1 + refreshed.1)
        },
        Err(error) => idle(
            with_banner(state, BannerLevel::Error, "Not a Git repository: "@ + error),
        ),
    }
}

/// The saved repositories have been loaded, or could not be.
fn on_config_loaded(state: &mut State, result: Result<LoadedRepositories, String>) -> (actions: Vec<
    Action,
>)
    ensures
        (final(state)@, views(actions@)) == config_loaded(old(state)@, result_view(result)),
{
    match result {
        Ok(loaded) => {
            state.selected_root = if loaded.repositories.len() > 0 {
                Some(loaded.repositories[0].id.clone())
            } else {
                None
            };
            state.repositories = loaded.repositories;
            if loaded.warnings.len() > 0 {
                show_banner(state, BannerLevel::Info, join(&loaded.warnings, " "));
            }
            refresh_all(state)
        },
        Err(error) => {
            let message = join2("Could not load saved repositories: ", error.as_str());
            show_banner(state, BannerLevel::Error, message);
            nothing()
        },
    }
}

/// A save has ended.
fn on_config_saved(state: &mut State, result: Result<(), String>) -> (actions: Vec<Action>)
    ensures
        (final(state)@, views(actions@)) == config_saved(old(state)@, result_view(result)),
{
    state.config_saving = false;
    if let Err(error) = result {
        let message = join2("Could not save repositories: ", error.as_str());
        show_banner(state, BannerLevel::Error, message);
    }
    if state.config_dirty {
        request_config_save(state)
    } else {
        nothing()
    }
}

/// A directory has been found to be a repository, or not.
fn on_repository_added(state: &mut State, result: Result<NewRepository, String>) -> (actions: Vec<
    Action,
>)
    ensures
        (final(state)@, views(actions@)) == repository_added(old(state)@, result_view(result)),
{
    match result {
        Ok(new) => {
            if repository_index(&state.repositories, new.id.as_str()).is_some() {
                show_banner(
                    state,
                    BannerLevel::Info,
                    "That repository is already listed.".to_owned(),
                );
                return nothing();
            }
            let root_id = new.id.clone();
            let repository = Repository::listed(new);
            proof {
                views_push(state.repositories@, repository);
            }
            state.repositories.push(repository);
            state.selected_root = Some(root_id.clone());
            state.banner = None;
            let mut actions = request_config_save(state);
            let mut refresh = request_refresh(state, root_id.as_str());
            let ghost saved = actions@;
            let ghost refreshed = refresh@;
            actions.append(&mut refresh);
            assert(views(actions@) == views(saved) + views(refreshed));
            actions
        },
        Err(error) => {
            let message = join2("Not a Git repository: ", error.as_str());
            show_banner(state, BannerLevel::Error, message);
            nothing()
        },
    }
}

// ── Selecting and refreshing ──────────────────────────────────────────────

/// A listed repository is selected, and no worktree with it.
pub open spec fn root_selected(state: StateModel, root_id: Seq<char>) -> StateModel {
    if repository_at(state.repositories, root_id) is Some {
        without_selection(StateModel { selected_root: Some(root_id), ..state })
    } else {
        state
    }
}

/// A refresh has ended. If the selected worktree is gone, it is no longer selected.
pub open spec fn repository_refreshed(
    state: StateModel,
    root_id: Seq<char>,
    result: Result<Seq<WorktreeModel>, Seq<char>>,
) -> StateModel {
    match repository_at(state.repositories, root_id) {
        None => state,
        Some(at) => {
            let repository = RepositoryModel { refreshing: false, ..state.repositories[at] };
            match result {
                Err(error) => with_repository(
                    state,
                    at,
                    RepositoryModel { error: Some(error), ..repository },
                ),
                Ok(worktrees) => {
                    let refreshed = with_repository(
                        state,
                        at,
                        RepositoryModel { worktrees, error: None, ..repository },
                    );
                    match state.selected_worktree {
                        Some(key) => if key.root_id == root_id && worktree_at(worktrees, key.path) is None {
                            without_selection(refreshed)
                        } else {
                            refreshed
                        },
                        None => refreshed,
                    }
                },
            }
        },
    }
}

/// A listed repository is selected.
fn on_root_selected(state: &mut State, root_id: String)
    ensures
        final(state)@ == root_selected(old(state)@, root_id@),
{
    if repository_index(&state.repositories, root_id.as_str()).is_some() {
        state.selected_root = Some(root_id);
        clear_selection(state);
    }
}

/// A refresh has ended.
fn on_repository_refreshed(state: &mut State, root_id: String, result: Result<Refresh, String>)
    ensures
        final(state)@ == repository_refreshed(old(state)@, root_id@, result_view(result)),
{
    let mut removed_selection = false;
    match result {
        Ok(refresh) => {
            let known = repository_index(&state.repositories, root_id.as_str()).is_some();
            if let Some(key) = &state.selected_worktree {
                if known && key.root_id == root_id {
                    removed_selection = worktree_index(&refresh.worktrees, &key.path).is_none();
                }
            }
            if let Some(repository) = repository_mut(state, root_id.as_str()) {
                repository.worktrees = refresh.worktrees;
                repository.refreshing = false;
                repository.error = None;
            }
        },
        Err(error) => {
            if let Some(repository) = repository_mut(state, root_id.as_str()) {
                repository.refreshing = false;
                repository.error = Some(error);
            }
        },
    }
    if removed_selection {
        clear_selection(state);
    }
}

// ── Adding worktrees ──────────────────────────────────────────────────────

/// The dialog for a new worktree of the selected repository is opened, unless a
/// worktree of that one is being added or removed.
pub open spec fn add_shown(state: StateModel) -> StateModel {
    match state.selected_root {
        None => with_banner(state, BannerLevel::Info, "Select a repository first."@),
        Some(root_id) => if find_repository(state, root_id) matches Some(repository)
            && repository.changing {
            state
        } else {
            StateModel {
                modal: Some(ModalModel::AddWorktree { root_id, branch: Seq::empty() }),
                ..state
            }
        },
    }
}

/// The name of the branch in the dialog has been edited.
pub open spec fn branch_changed(state: StateModel, branch: Seq<char>) -> StateModel {
    match state.modal {
        Some(ModalModel::AddWorktree { root_id, .. }) => StateModel {
            modal: Some(ModalModel::AddWorktree { root_id, branch }),
            ..state
        },
        _ => state,
    }
}

/// A change to the worktrees of the repository at `at` begins.
pub open spec fn change_begun(state: StateModel, at: int) -> StateModel {
    StateModel {
        modal: None,
        banner: None,
        ..with_repository(
            state,
            at,
            RepositoryModel { changing: true, ..state.repositories[at] },
        )
    }
}

/// A change to the worktrees of the repository called `root_id` has ended.
pub open spec fn change_ended(state: StateModel, root_id: Seq<char>) -> StateModel {
    match repository_at(state.repositories, root_id) {
        Some(at) => with_repository(
            state,
            at,
            RepositoryModel { changing: false, ..state.repositories[at] },
        ),
        None => state,
    }
}

/// The new worktree is wanted.
pub open spec fn add_confirmed(state: StateModel) -> Outcome {
    match state.modal {
        Some(ModalModel::AddWorktree { root_id, branch }) => if trimmed(branch).len() == 0 {
            idle(with_banner(state, BannerLevel::Error, "Enter a branch name."@))
        } else {
            match repository_at(state.repositories, root_id) {
                None => idle(state),
                Some(at) => if state.repositories[at].changing {
                    idle(state)
                } else {
                    (
                        change_begun(state, at),
                        seq![
                            ActionModel::AddWorktree {
                                root_id,
                                root: state.repositories[at].path,
                                branch,
                            },
                        ],
                    )
                },
            }
        },
        _ => idle(state),
    }
}

/// A worktree has been added, or could not be.
pub open spec fn worktree_added(
    state: StateModel,
    root_id: Seq<char>,
    result: Result<Seq<u8>, Seq<char>>,
) -> Outcome {
    let ended = change_ended(state, root_id);
    match result {
        Ok(path) => refresh_one(
            with_banner(
                ended,
                BannerLevel::Success,
                "Created worktree at "@ + lossy_text(path) + "."@,
            ),
            root_id,
        ),
        Err(error) => idle(
            with_banner(ended, BannerLevel::Error, "Could not add worktree: "@ + error),
        ),
    }
}

/// The dialog for a new worktree is wanted.
fn on_add_shown(state: &mut State)
    ensures
        final(state)@ == add_shown(old(state)@),
{
    let root_id = match &state.selected_root {
        Some(root_id) => root_id.clone(),
        None => {
            show_banner(state, BannerLevel::Info, "Select a repository first.".to_owned());
            return;
        },
    };
    if let Some(repository) = repository(state, root_id.as_str()) {
        if repository.changing {
            return;
        }
    }
    state.modal = Some(Modal::AddWorktree { root_id, branch: String::new() });
}

/// The name of the branch in the dialog has been edited.
fn on_branch_changed(state: &mut State, branch: String)
    ensures
        final(state)@ == branch_changed(old(state)@, branch@),
{
    let root_id = match &state.modal {
        Some(Modal::AddWorktree { root_id, .. }) => root_id.clone(),
        _ => return,
    };
    state.modal = Some(Modal::AddWorktree { root_id, branch });
}

/// The new worktree is wanted.
fn on_add_confirmed(state: &mut State) -> (actions: Vec<Action>)
    ensures
        (final(state)@, views(actions@)) == add_confirmed(old(state)@),
{
    let (root_id, branch) = match &state.modal {
        Some(Modal::AddWorktree { root_id, branch }) => (root_id.clone(), branch.clone()),
        _ => return nothing(),
    };
    if is_blank(branch.as_str()) {
        show_banner(state, BannerLevel::Error, "Enter a branch name.".to_owned());
        return nothing();
    }
    let root = match begin_change(state, root_id.as_str()) {
        Some(root) => root,
        None => return nothing(),
    };
    only(Action::AddWorktree { root_id, root, branch })
}

/// Begins a change to the worktrees of the repository called `root_id`, and gives
/// its path, unless there is no such repository or it is changing already.
fn begin_change(state: &mut State, root_id: &str) -> (root: Option<FilePath>)
    ensures
        match repository_at(old(state)@.repositories, root_id@) {
            Some(at) => if old(state)@.repositories[at].changing {
                root is None && final(state)@ == old(state)@
            } else {
                option_view(root) == Some(old(state)@.repositories[at].path) && final(state)@
                    == change_begun(old(state)@, at)
            },
            None => root is None && final(state)@ == old(state)@,
        },
{
    let root = match repository_mut(state, root_id) {
        None => return None,
        Some(repository) => {
            if repository.changing {
                assert(old(state)@.repositories.update(
                    repository_at(old(state)@.repositories, root_id@)->0,
                    repository@,
                ) =~= old(state)@.repositories);
                return None;
            }
            repository.changing = true;
            repository.path.clone()
        },
    };
    state.modal = None;
    state.banner = None;
    Some(root)
}

/// Ends a change to the worktrees of the repository called `root_id`.
fn end_change(state: &mut State, root_id: &str)
    ensures
        final(state)@ == change_ended(old(state)@, root_id@),
{
    if let Some(repository) = repository_mut(state, root_id) {
        repository.changing = false;
    }
}

/// A worktree has been added, or could not be.
fn on_worktree_added(state: &mut State, root_id: String, result: Result<FilePath, String>) -> (actions: Vec<
    Action,
>)
    ensures
        (final(state)@, views(actions@)) == worktree_added(
            old(state)@,
            root_id@,
            result_view(result),
        ),
{
    end_change(state, root_id.as_str());
    match result {
        Ok(path) => {
            let message = join3("Created worktree at ", path.to_text().as_str(), ".");
            show_banner(state, BannerLevel::Success, message);
            request_refresh(state, root_id.as_str())
        },
        Err(error) => {
            let message = join2("Could not add worktree: ", error.as_str());
            show_banner(state, BannerLevel::Error, message);
            nothing()
        },
    }
}

// ── Diffs and pull requests ───────────────────────────────────────────────

/// A worktree is selected, and its diff and its pull request wanted.
pub open spec fn worktree_selected(state: StateModel, key: WorktreeKeyModel) -> Outcome {
    (
        StateModel {
            selected_worktree: Some(key),
            diff: DiffStateModel::Loading,
            pull_request: None,
            ..state
        },
        seq![ActionModel::LoadDiff(key), ActionModel::LoadPullRequest(key)],
    )
}

/// A diff has been loaded, or could not be. It counts only while its worktree is
/// the selected one.
pub open spec fn diff_loaded(
    state: StateModel,
    key: WorktreeKeyModel,
    result: Result<DiffModel, Seq<char>>,
) -> StateModel {
    match state.selected_worktree {
        Some(selected) => if same_key(selected, key) {
            StateModel {
                diff: match result {
                    Ok(diff) => DiffStateModel::Loaded(diff),
                    Err(message) => DiffStateModel::Error(message),
                },
                ..state
            }
        } else {
            state
        },
        None => state,
    }
}

/// A pull request has been found, or none has. It counts only while its worktree is
/// the selected one.
pub open spec fn pull_request_loaded(
    state: StateModel,
    key: WorktreeKeyModel,
    pull_request: Option<PullRequestModel>,
) -> StateModel {
    match state.selected_worktree {
        Some(selected) => if same_key(selected, key) {
            StateModel { pull_request, ..state }
        } else {
            state
        },
        None => state,
    }
}

/// A worktree is selected.
fn on_worktree_selected(state: &mut State, key: WorktreeKey) -> (actions: Vec<Action>)
    ensures
        (final(state)@, views(actions@)) == worktree_selected(old(state)@, key@),
{
    state.selected_worktree = Some(key.clone());
    state.diff = DiffState::Loading;
    state.pull_request = None;
    let actions = vec![Action::LoadDiff(key.clone()), Action::LoadPullRequest(key)];
    assert(views(actions@) =~= worktree_selected(old(state)@, key@).1);
    actions
}

/// Whether `key` stands for the selected worktree.
fn is_selected(state: &State, key: &WorktreeKey) -> (selected: bool)
    ensures
        selected == (state@.selected_worktree matches Some(current) && same_key(current, key@)),
{
    match &state.selected_worktree {
        Some(current) => current.same_key(key),
        None => false,
    }
}

/// A pull request has been found, or none has.
fn on_pull_request_loaded(
    state: &mut State,
    key: WorktreeKey,
    pull_request: Option<PullRequest>,
)
    ensures
        final(state)@ == pull_request_loaded(old(state)@, key@, option_view(pull_request)),
{
    if is_selected(state, &key) {
        state.pull_request = pull_request;
    }
}

/// A diff has been loaded, or could not be.
fn on_diff_loaded(state: &mut State, key: WorktreeKey, result: Result<Diff, String>)
    ensures
        final(state)@ == diff_loaded(old(state)@, key@, result_view(result)),
{
    if !is_selected(state, &key) {
        return;
    }
    state.diff = match result {
        Ok(diff) => DiffState::Loaded(diff),
        Err(message) => DiffState::Error(message),
    };
}

// ── Removing worktrees ────────────────────────────────────────────────────

/// The removal of a worktree is wanted. The dialog tells what would be lost; the
/// root worktree is not to be removed.
pub open spec fn remove_asked(state: StateModel, key: WorktreeKeyModel) -> StateModel {
    match keyed_worktree(state, key) {
        None => state,
        Some(worktree) => if worktree.is_main {
            with_banner(state, BannerLevel::Info, "The root worktree cannot be removed."@)
        } else {
            StateModel {
                modal: Some(
                    ModalModel::RemoveWorktree {
                        root_id: key.root_id,
                        path: key.path,
                        dirty_files: worktree.dirty_files,
                        ignored_files: worktree.ignored_files,
                    },
                ),
                ..state
            }
        },
    }
}

/// The removal is confirmed. It is forced where the dialog told of files that
/// would be lost.
pub open spec fn remove_confirmed(state: StateModel) -> Outcome {
    match state.modal {
        Some(ModalModel::RemoveWorktree { root_id, path, dirty_files, ignored_files }) => {
            match repository_at(state.repositories, root_id) {
                None => idle(state),
                Some(at) => if state.repositories[at].changing {
                    idle(state)
                } else {
                    (
                        change_begun(state, at),
                        seq![
                            ActionModel::RemoveWorktree {
                                root_id,
                                root: state.repositories[at].path,
                                path,
                                force: dirty_files > 0 || ignored_files > 0,
                            },
                        ],
                    )
                },
            }
        },
        _ => idle(state),
    }
}

/// A worktree has been removed, or could not be. If it was selected, it no longer is.
pub open spec fn worktree_removed(
    state: StateModel,
    root_id: Seq<char>,
    path: Seq<u8>,
    result: Result<(), Seq<char>>,
) -> Outcome {
    let ended = change_ended(state, root_id);
    match result {
        Ok(_) => {
            let cleared = match ended.selected_worktree {
                Some(selected) => if same_key(selected, WorktreeKeyModel { root_id, path }) {
                    without_selection(ended)
                } else {
                    ended
                },
                None => ended,
            };
            refresh_one(
                with_banner(
                    cleared,
                    BannerLevel::Success,
                    "Removed worktree at "@ + lossy_text(path) + "."@,
                ),
                root_id,
            )
        },
        Err(error) => idle(
            with_banner(ended, BannerLevel::Error, "Could not remove worktree: "@ + error),
        ),
    }
}

/// The removal of a worktree is wanted.
fn on_remove_asked(state: &mut State, key: WorktreeKey)
    ensures
        final(state)@ == remove_asked(old(state)@, key@),
{
    let (is_main, dirty_files, ignored_files) = match find_worktree(state, &key) {
        Some(worktree) => (worktree.is_main, worktree.dirty_files, worktree.ignored_files),
        None => return,
    };
    if is_main {
        show_banner(state, BannerLevel::Info, "The root worktree cannot be removed.".to_owned());
    } else {
        state.modal = Some(
            Modal::RemoveWorktree {
                root_id: key.root_id,
                path: key.path,
                dirty_files,
                ignored_files,
            },
        );
    }
}

/// The removal is confirmed.
fn on_remove_confirmed(state: &mut State) -> (actions: Vec<Action>)
    ensures
        (final(state)@, views(actions@)) == remove_confirmed(old(state)@),
{
    let (root_id, path, force) = match &state.modal {
        Some(Modal::RemoveWorktree { root_id, path, dirty_files, ignored_files }) => (
            root_id.clone(),
            path.clone(),
            *dirty_files > 0 || *ignored_files > 0,
        ),
        _ => return nothing(),
    };
    let root = match begin_change(state, root_id.as_str()) {
        Some(root) => root,
        None => return nothing(),
    };
    only(Action::RemoveWorktree { root_id, root, path, force })
}

/// A worktree has been removed, or could not be.
fn on_worktree_removed(
    state: &mut State,
    root_id: String,
    path: FilePath,
    result: Result<(), String>,
) -> (actions: Vec<Action>)
    ensures
        (final(state)@, views(actions@)) == worktree_removed(
            old(state)@,
            root_id@,
            path@,
            result_view(result),
        ),
{
    end_change(state, root_id.as_str());
    match result {
        Ok(()) => {
            let selected = match &state.selected_worktree {
                Some(selected) => selected.root_id == root_id && selected.path.same_path(&path),
                None => false,
            };
            if selected {
                clear_selection(state);
            }
            let message = join3("Removed worktree at ", path.to_text().as_str(), ".");
            show_banner(state, BannerLevel::Success, message);
            request_refresh(state, root_id.as_str())
        },
        Err(error) => {
            let message = join2("Could not remove worktree: ", error.as_str());
            show_banner(state, BannerLevel::Error, message);
            nothing()
        },
    }
}

// ── Any message ───────────────────────────────────────────────────────────

/// What a message makes of the state, and the work that it starts.
pub open spec fn updated(state: StateModel, msg: MsgModel) -> Outcome {
    match msg {
        MsgModel::ConfigLoaded(result) => config_loaded(state, result),
        MsgModel::ConfigSaved(result) => config_saved(state, result),
        MsgModel::ChooseRepository => (state, seq![ActionModel::PickRepository]),
        MsgModel::RepositoryPicked(None) => idle(state),
        MsgModel::RepositoryPicked(Some(path)) => (
            state,
            seq![ActionModel::ValidateRepository(path)],
        ),
        MsgModel::RepositoryAdded(result) => repository_added(state, result),
        MsgModel::SelectRoot(root_id) => idle(root_selected(state, root_id)),
        MsgModel::RefreshAll => refresh_every(state),
        MsgModel::Poll => refresh_every(state),
        MsgModel::RepositoryRefreshed { root_id, result } => idle(
            repository_refreshed(state, root_id, result),
        ),
        MsgModel::ShowAddWorktree => idle(add_shown(state)),
        MsgModel::BranchChanged(branch) => idle(branch_changed(state, branch)),
        MsgModel::ConfirmAddWorktree => add_confirmed(state),
        MsgModel::WorktreeAdded { root_id, result } => worktree_added(state, root_id, result),
        MsgModel::WorktreeSelected(key) => worktree_selected(state, key),
        MsgModel::DiffLoaded { key, result } => idle(diff_loaded(state, key, result)),
        MsgModel::AskRemoveWorktree(key) => idle(remove_asked(state, key)),
        MsgModel::ConfirmRemoveWorktree => remove_confirmed(state),
        MsgModel::WorktreeRemoved { root_id, path, result } => worktree_removed(
            state,
            root_id,
            path,
            result,
        ),
        MsgModel::DismissModal => idle(StateModel { modal: None, ..state }),
        MsgModel::PullRequestLoaded { key, pull_request } => idle(
            pull_request_loaded(state, key, pull_request),
        ),
        MsgModel::OpenPullRequest(url) => (state, seq![ActionModel::OpenUrl(url)]),
        MsgModel::PullRequestOpened(Ok(_)) => idle(state),
        MsgModel::PullRequestOpened(Err(error)) => idle(
            with_banner(state, BannerLevel::Error, "Could not open the pull request: "@ + error),
        ),
    }
}

/// Takes in a message, and gives the work to start.
pub fn update(state: &mut State, msg: Msg) -> (actions: Vec<Action>)
    ensures
        (final(state)@, views(actions@)) == updated(old(state)@, msg@),
{
    match msg {
        Msg::ConfigLoaded(result) => on_config_loaded(state, result),
        Msg::ConfigSaved(result) => on_config_saved(state, result),
        Msg::ChooseRepository => only(Action::PickRepository),
        Msg::RepositoryPicked(None) => nothing(),
        Msg::RepositoryPicked(Some(path)) => only(Action::ValidateRepository(path)),
        Msg::RepositoryAdded(result) => on_repository_added(state, result),
        Msg::SelectRoot(root_id) => {
            on_root_selected(state, root_id);
            nothing()
        },
        Msg::RefreshAll => refresh_all(state),
        Msg::Poll => refresh_all(state),
        Msg::RepositoryRefreshed { root_id, result } => {
            on_repository_refreshed(state, root_id, result);
            nothing()
        },
        Msg::ShowAddWorktree => {
            on_add_shown(state);
            nothing()
        },
        Msg::BranchChanged(branch) => {
            on_branch_changed(state, branch);
            nothing()
        },
        Msg::ConfirmAddWorktree => on_add_confirmed(state),
        Msg::WorktreeAdded { root_id, result } => on_worktree_added(state, root_id, result),
        Msg::WorktreeSelected(key) => on_worktree_selected(state, key),
        Msg::DiffLoaded { key, result } => {
            on_diff_loaded(state, key, result);
            nothing()
        },
        Msg::AskRemoveWorktree(key) => {
            on_remove_asked(state, key);
            nothing()
        },
        Msg::ConfirmRemoveWorktree => on_remove_confirmed(state),
        Msg::WorktreeRemoved { root_id, path, result } => on_worktree_removed(
            state,
            root_id,
            path,
            result,
        ),
        Msg::DismissModal => {
            state.modal = None;
            nothing()
        },
        Msg::PullRequestLoaded { key, pull_request } => {
            on_pull_request_loaded(state, key, pull_request);
            nothing()
        },
        Msg::OpenPullRequest(url) => only(Action::OpenUrl(url)),
        Msg::PullRequestOpened(Ok(())) => nothing(),
        Msg::PullRequestOpened(Err(error)) => {
            show_banner(
                state,
                BannerLevel::Error,
                join2("Could not open the pull request: ", error.as_str()),
            );
            nothing()
        },
    }
}

} // verus!
