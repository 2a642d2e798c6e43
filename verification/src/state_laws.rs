//! What holds of the state and of the work that messages start.
use vstd::prelude::*;

use crate::config::{load_config_step, load_repositories_step, load_roots_step, nothing_loaded, with_root};
use crate::diff::{DiffModel, PullRequestModel};
use crate::encoding::lossy_text;
use crate::operations::validate_step;
use crate::state::{find_repository, listed, repository_at, same_key, ActionModel, BannerLevel, DiffStateModel, LoadedModel, ModalModel, MsgModel, RepositoryModel, StateModel, WorktreeKeyModel};
use crate::step::{Step, TranscriptModel};
use crate::update::{change_ended, idle, ids, initial_state, list_replaced, refresh_each, refresh_one, request_save, saved_roots, updated, with_banner, with_repository, without_selection};
use crate::views::{position_is, position_tells};

verus! {

// ── The state stays in order ──────────────────────────────────────────────

/// Whether no two repositories have one id.
pub open spec fn distinct(repositories: Seq<RepositoryModel>) -> bool {
    forall|i: int, j: int|
        0 <= i < j < repositories.len() ==> (#[trigger] repositories[i]).id != (
        #[trigger] repositories[j]).id
}

/// Whether a repository called `root_id` is listed.
pub open spec fn is_listed(repositories: Seq<RepositoryModel>, root_id: Seq<char>) -> bool {
    exists|i: int| 0 <= i < repositories.len() && (#[trigger] repositories[i]).id == root_id
}

/// Whether a state is in order: no repository is listed twice, one is selected
/// unless none is listed, the selected one is listed, a diff is shown just where a
/// worktree is selected, a pull request only there, and the list counts as changed
/// only while a save is under way.
pub open spec fn in_order(state: StateModel) -> bool {
    &&& distinct(state.repositories)
    &&& state.selected_root is None <==> state.repositories.len() == 0
    &&& state.selected_root matches Some(root_id) ==> is_listed(state.repositories, root_id)
    &&& state.selected_worktree is None <==> state.diff is Empty
    &&& state.selected_worktree is None ==> state.pull_request is None
    &&& state.config_dirty ==> state.config_saving
}

/// Whether a message can come: the repositories that it loads are distinct.
pub open spec fn can_come(msg: MsgModel) -> bool {
    msg matches MsgModel::ConfigLoaded(Ok(loaded)) ==> distinct(loaded.repositories)
}

/// Looking up an id finds it just where it is listed.
pub proof fn lookup_finds(repositories: Seq<RepositoryModel>, root_id: Seq<char>)
    ensures
        match repository_at(repositories, root_id) {
            Some(at) => 0 <= at < repositories.len() && repositories[at].id == root_id,
            None => !is_listed(repositories, root_id),
        },
{
    position_tells(repositories, |repository: RepositoryModel| repository.id == root_id);
}

/// A repository that keeps its id keeps the state in order.
proof fn same_ids_keep_order(state: StateModel, at: int, repository: RepositoryModel)
    requires
        in_order(state),
        0 <= at < state.repositories.len(),
        repository.id == state.repositories[at].id,
    ensures
        in_order(with_repository(state, at, repository)),
{
    let new = with_repository(state, at, repository);
    if let Some(root_id) = state.selected_root {
        let i = choose|i: int|
            0 <= i < state.repositories.len() && (#[trigger] state.repositories[i]).id == root_id;
        assert(new.repositories[i].id == root_id);
    }
}

/// Starting a refresh keeps the state in order.
proof fn refresh_one_keeps_order(state: StateModel, root_id: Seq<char>)
    requires
        in_order(state),
    ensures
        in_order(refresh_one(state, root_id).0),
{
    lookup_finds(state.repositories, root_id);
    if let Some(at) = repository_at(state.repositories, root_id) {
        same_ids_keep_order(
            state,
            at,
            RepositoryModel { refreshing: true, ..state.repositories[at] },
        );
    }
}

/// Starting refreshes keeps the state in order.
proof fn refresh_each_keeps_order(state: StateModel, names: Seq<Seq<char>>)
    requires
        in_order(state),
    ensures
        in_order(refresh_each(state, names).0),
    decreases names.len(),
{
    if names.len() > 0 {
        refresh_each_keeps_order(state, names.drop_last());
        refresh_one_keeps_order(refresh_each(state, names.drop_last()).0, names.last());
    }
}

/// The end of a change keeps the state in order.
proof fn change_ended_keeps_order(state: StateModel, root_id: Seq<char>)
    requires
        in_order(state),
    ensures
        in_order(change_ended(state, root_id)),
{
    lookup_finds(state.repositories, root_id);
    if let Some(at) = repository_at(state.repositories, root_id) {
        same_ids_keep_order(
            state,
            at,
            RepositoryModel { changing: false, ..state.repositories[at] },
        );
    }
}

/// wtui starts in order.
pub proof fn start_is_in_order()
    ensures
        in_order(initial_state()),
{
}

/// A new repository keeps the state in order.
proof fn repository_added_keeps_order(state: StateModel, msg: MsgModel)
    requires
        in_order(state),
        msg is RepositoryAdded,
    ensures
        in_order(updated(state, msg).0),
{
    if let MsgModel::RepositoryAdded(Ok(new)) = msg {
        lookup_finds(state.repositories, new.id);
        if repository_at(state.repositories, new.id) is None {
            let added = StateModel {
                repositories: state.repositories.push(crate::state::listed(new)),
                selected_root: Some(new.id),
                banner: None,
                ..state
            };
            assert(added.repositories[state.repositories.len() as int].id == new.id);
            assert(in_order(added));
            refresh_one_keeps_order(request_save(added).0, new.id);
        }
    }
}

/// A message leaves the state in order.
pub proof fn update_keeps_order(state: StateModel, msg: MsgModel)
    requires
        in_order(state),
        can_come(msg),
    ensures
        in_order(updated(state, msg).0),
{
    match msg {
        MsgModel::ConfigLoaded(Ok(loaded)) => {
            let new = StateModel {
                repositories: loaded.repositories,
                selected_root: if loaded.repositories.len() > 0 {
                    Some(loaded.repositories[0].id)
                } else {
                    None
                },
                ..state
            };
            assert(in_order(new));
            let told = with_banner(
                new,
                BannerLevel::Info,
                crate::text::separated(loaded.warnings, " "@),
            );
            refresh_each_keeps_order(new, ids(new.repositories));
            refresh_each_keeps_order(told, ids(told.repositories));
        },
        MsgModel::RepositoryAdded(_) => {
            repository_added_keeps_order(state, msg);
        },
        MsgModel::SelectRoot(root_id) => {
            lookup_finds(state.repositories, root_id);
            if let Some(at) = repository_at(state.repositories, root_id) {
                assert(state.repositories[at].id == root_id);
            }
        },
        MsgModel::RefreshAll => {
            refresh_each_keeps_order(state, ids(state.repositories));
        },
        MsgModel::Poll => {
            refresh_each_keeps_order(state, ids(state.repositories));
        },
        MsgModel::RepositoryRefreshed { root_id, result } => {
            lookup_finds(state.repositories, root_id);
            if let Some(at) = repository_at(state.repositories, root_id) {
                let repository = RepositoryModel { refreshing: false, ..state.repositories[at] };
                match result {
                    Ok(worktrees) => {
                        same_ids_keep_order(
                            state,
                            at,
                            RepositoryModel { worktrees, error: None, ..repository },
                        );
                    },
                    Err(error) => {
                        same_ids_keep_order(
                            state,
                            at,
                            RepositoryModel { error: Some(error), ..repository },
                        );
                    },
                }
            }
        },
        MsgModel::ConfirmAddWorktree => {
            if let Some(ModalModel::AddWorktree { root_id, .. }) = state.modal {
                lookup_finds(state.repositories, root_id);
                if let Some(at) = repository_at(state.repositories, root_id) {
                    same_ids_keep_order(
                        state,
                        at,
                        RepositoryModel { changing: true, ..state.repositories[at] },
                    );
                }
            }
        },
        MsgModel::ConfirmRemoveWorktree => {
            if let Some(ModalModel::RemoveWorktree { root_id, .. }) = state.modal {
                lookup_finds(state.repositories, root_id);
                if let Some(at) = repository_at(state.repositories, root_id) {
                    same_ids_keep_order(
                        state,
                        at,
                        RepositoryModel { changing: true, ..state.repositories[at] },
                    );
                }
            }
        },
        MsgModel::WorktreeAdded { root_id, result } => {
            change_ended_keeps_order(state, root_id);
            if let Ok(path) = result {
                refresh_one_keeps_order(
                    with_banner(
                        change_ended(state, root_id),
                        BannerLevel::Success,
                        "Created worktree at "@ + lossy_text(path) + "."@,
                    ),
                    root_id,
                );
            }
        },
        MsgModel::WorktreeRemoved { root_id, path, result } => {
            change_ended_keeps_order(state, root_id);
            let ended = change_ended(state, root_id);
            let message = "Removed worktree at "@ + lossy_text(path) + "."@;
            let told = with_banner(ended, BannerLevel::Success, message);
            refresh_one_keeps_order(told, root_id);
            refresh_one_keeps_order(without_selection(told), root_id);
            assert(without_selection(told) == with_banner(
                without_selection(ended),
                BannerLevel::Success,
                message,
            ));
        },
        _ => {},
    }
}

// ── Loading gives each repository once ────────────────────────────────────

/// One more saved path leaves the loaded repositories distinct.
proof fn with_root_keeps_distinct(
    loaded: LoadedModel,
    root: Seq<char>,
    check: Result<crate::state::NewRepositoryModel, Seq<char>>,
)
    requires
        distinct(loaded.repositories),
    ensures
        distinct(with_root(loaded, root, check).repositories),
{
    if let Ok(new) = check {
        lookup_finds(loaded.repositories, new.id);
    }
}

/// Loading more paths leaves the repositories distinct.
proof fn load_roots_keeps_distinct(
    roots: Seq<Seq<char>>,
    answers: TranscriptModel,
    report_at: nat,
    resolved_at: nat,
    loaded: LoadedModel,
)
    requires
        distinct(loaded.repositories),
    ensures
        load_roots_step(roots, answers, report_at, resolved_at, loaded) matches Step::Done(Ok(all))
            ==> distinct(all.repositories),
    decreases roots.len(),
{
    if roots.len() > 0 {
        if let Step::Done(check) = validate_step(
            vstd::utf8::encode_utf8(roots.first()),
            answers,
            report_at,
            resolved_at,
        ) {
            with_root_keeps_distinct(loaded, roots.first(), check);
            load_roots_keeps_distinct(
                roots.drop_first(),
                answers,
                report_at + 1,
                if answers.reports[report_at as int] is Ok {
                    resolved_at + 1
                } else {
                    resolved_at
                },
                with_root(loaded, roots.first(), check),
            );
        }
    }
}

/// The message that brings the saved repositories can come: loading lists no
/// repository twice, however often it was saved.
pub proof fn loaded_repositories_are_distinct(directory: Option<Seq<u8>>, answers: TranscriptModel)
    ensures
        load_repositories_step(directory, answers) matches Step::Done(result) ==> can_come(
            MsgModel::ConfigLoaded(result),
        ),
{
    if let Step::Done(Ok(roots)) = load_config_step(directory, answers) {
        load_roots_keeps_distinct(roots, answers, 0, 0, nothing_loaded());
    }
}

// ── One piece of work of a kind at a time ─────────────────────────────────

/// How many of the `actions` pass `test`.
pub open spec fn tally(actions: Seq<ActionModel>, test: spec_fn(ActionModel) -> bool) -> nat {
    actions.filter(test).len()
}

/// Nothing passes among no actions.
proof fn tally_none(test: spec_fn(ActionModel) -> bool)
    ensures
        tally(Seq::empty(), test) == 0,
{
    reveal(Seq::filter);
}

/// One action passes or not.
proof fn tally_one(action: ActionModel, test: spec_fn(ActionModel) -> bool)
    ensures
        tally(seq![action], test) == if test(action) {
            1nat
        } else {
            0
        },
{
    reveal(Seq::filter);
    assert(seq![action].drop_last() =~= Seq::<ActionModel>::empty());
    assert(Seq::<ActionModel>::empty().filter(test).len() == 0);
}

/// What passes among two rows of actions.
proof fn tally_both(a: Seq<ActionModel>, b: Seq<ActionModel>, test: spec_fn(ActionModel) -> bool)
    ensures
        tally(a + b, test) == tally(a, test) + tally(b, test),
{
    Seq::filter_distributes_over_add(a, b, test);
}

/// One for true, and none for false.
pub open spec fn one_if(truth: bool) -> nat {
    if truth {
        1
    } else {
        0
    }
}

/// What passes of two actions.
proof fn tally_two(a: ActionModel, b: ActionModel, test: spec_fn(ActionModel) -> bool)
    ensures
        tally(seq![a, b], test) == one_if(test(a)) + one_if(test(b)),
{
    assert(seq![a, b] =~= seq![a] + seq![b]);
    tally_both(seq![a], seq![b], test);
    tally_one(a, test);
    tally_one(b, test);
}

/// A repository among distinct ones is found by its id.
proof fn lookup_unique(repositories: Seq<RepositoryModel>, at: int)
    requires
        distinct(repositories),
        0 <= at < repositories.len(),
    ensures
        repository_at(repositories, repositories[at].id) == Some(at),
{
    let id = repositories[at].id;
    let test = |repository: RepositoryModel| repository.id == id;
    assert forall|i: int| 0 <= i < at implies !test(#[trigger] repositories[i]) by {
        assert(repositories[i].id != repositories[at].id);
    }
    position_is(repositories, test, at);
}

/// What is found after one repository has changed, but for its id.
proof fn lookup_after_change(
    state: StateModel,
    at: int,
    repository: RepositoryModel,
    root_id: Seq<char>,
)
    requires
        distinct(state.repositories),
        0 <= at < state.repositories.len(),
        repository.id == state.repositories[at].id,
    ensures
        find_repository(with_repository(state, at, repository), root_id) == if root_id
            == repository.id {
            Some(repository)
        } else {
            find_repository(state, root_id)
        },
        distinct(with_repository(state, at, repository).repositories),
{
    let new = with_repository(state, at, repository).repositories;
    assert(distinct(new));
    lookup_finds(state.repositories, root_id);
    lookup_finds(new, root_id);
    if root_id == repository.id {
        assert(new[at].id == root_id);
        lookup_unique(new, at);
    } else {
        match repository_at(state.repositories, root_id) {
            Some(i) => {
                assert(new[i].id == root_id);
                lookup_unique(new, i);
            },
            None => {
                if let Some(i) = repository_at(new, root_id) {
                    assert(state.repositories[i].id == root_id);
                }
            },
        }
    }
}

/// What is found after one more repository is listed.
proof fn lookup_after_push(
    repositories: Seq<RepositoryModel>,
    new: RepositoryModel,
    root_id: Seq<char>,
)
    requires
        distinct(repositories),
        !is_listed(repositories, new.id),
    ensures
        distinct(repositories.push(new)),
        repository_at(repositories.push(new), root_id) == if root_id == new.id {
            Some(repositories.len() as int)
        } else {
            repository_at(repositories, root_id)
        },
{
    let more = repositories.push(new);
    assert(distinct(more));
    lookup_finds(repositories, root_id);
    lookup_finds(more, root_id);
    if root_id == new.id {
        lookup_unique(more, repositories.len() as int);
    } else if let Some(i) = repository_at(repositories, root_id) {
        assert(more[i].id == root_id);
        lookup_unique(more, i);
    } else if let Some(i) = repository_at(more, root_id) {
        assert(repositories[i].id == root_id);
    }
}

/// Whether a refresh of the repository called `root_id` is under way.
pub open spec fn refreshing(state: StateModel, root_id: Seq<char>) -> bool {
    find_repository(state, root_id) matches Some(repository) && repository.refreshing
}

/// Whether a worktree of the repository called `root_id` is being added or removed.
pub open spec fn changing(state: StateModel, root_id: Seq<char>) -> bool {
    find_repository(state, root_id) matches Some(repository) && repository.changing
}

/// Whether an action refreshes the repository called `root_id`.
pub open spec fn refreshes(root_id: Seq<char>) -> spec_fn(ActionModel) -> bool {
    |action: ActionModel|
        action matches ActionModel::RefreshRepository { root_id: id, .. } && id == root_id
}

/// Whether an action adds or removes a worktree of the repository called `root_id`.
pub open spec fn changes(root_id: Seq<char>) -> spec_fn(ActionModel) -> bool {
    |action: ActionModel|
        {
            ||| action matches ActionModel::AddWorktree { root_id: id, .. } && id == root_id
            ||| action matches ActionModel::RemoveWorktree { root_id: id, .. } && id == root_id
        }
}

/// Whether a message ends a refresh of the repository called `root_id`.
pub open spec fn ends_refresh(msg: MsgModel, root_id: Seq<char>) -> bool {
    msg matches MsgModel::RepositoryRefreshed { root_id: id, .. } && id == root_id
}

/// Whether a message ends a change to the repository called `root_id`.
pub open spec fn ends_change(msg: MsgModel, root_id: Seq<char>) -> bool {
    ||| msg matches MsgModel::WorktreeAdded { root_id: id, .. } && id == root_id
    ||| msg matches MsgModel::WorktreeRemoved { root_id: id, .. } && id == root_id
}

/// What starting a refresh of `name` does to the work on `root_id`, and that it
/// does nothing else.
proof fn refresh_one_counts(state: StateModel, name: Seq<char>, root_id: Seq<char>)
    requires
        distinct(state.repositories),
    ensures
        ({
            let (new, actions) = refresh_one(state, name);
            &&& distinct(new.repositories)
            &&& tally(actions, refreshes(root_id)) + one_if(refreshing(state, root_id)) == one_if(
                refreshing(new, root_id),
            )
            &&& tally(actions, changes(root_id)) == 0
            &&& changing(new, root_id) == changing(state, root_id)
            &&& forall|i: int| 0 <= i < actions.len() ==> actions[i] is RefreshRepository
            &&& saved_roots(new.repositories) == saved_roots(state.repositories)
            &&& new == (StateModel { repositories: new.repositories, ..state })
        }),
{
    lookup_finds(state.repositories, name);
    lookup_finds(state.repositories, root_id);
    tally_none(refreshes(root_id));
    tally_none(changes(root_id));
    if let Some(at) = repository_at(state.repositories, name) {
        let repository = state.repositories[at];
        let begun = RepositoryModel { refreshing: true, ..repository };
        let action = ActionModel::RefreshRepository {
            root_id: repository.id,
            path: repository.path,
        };
        lookup_after_change(state, at, begun, root_id);
        tally_one(action, refreshes(root_id));
        tally_one(action, changes(root_id));
        assert(saved_roots(state.repositories.update(at, begun)) =~= saved_roots(
            state.repositories,
        ));
    }
}

/// What starting refreshes of `names` does to the work on `root_id`, and that it
/// does nothing else.
proof fn refresh_each_counts(state: StateModel, names: Seq<Seq<char>>, root_id: Seq<char>)
    requires
        distinct(state.repositories),
    ensures
        ({
            let (new, actions) = refresh_each(state, names);
            &&& distinct(new.repositories)
            &&& tally(actions, refreshes(root_id)) + one_if(refreshing(state, root_id)) == one_if(
                refreshing(new, root_id),
            )
            &&& tally(actions, changes(root_id)) == 0
            &&& changing(new, root_id) == changing(state, root_id)
            &&& forall|i: int| 0 <= i < actions.len() ==> actions[i] is RefreshRepository
            &&& saved_roots(new.repositories) == saved_roots(state.repositories)
            &&& new == (StateModel { repositories: new.repositories, ..state })
        }),
    decreases names.len(),
{
    tally_none(refreshes(root_id));
    tally_none(changes(root_id));
    if names.len() > 0 {
        let (before, first) = refresh_each(state, names.drop_last());
        let (_, second) = refresh_one(before, names.last());
        refresh_each_counts(state, names.drop_last(), root_id);
        refresh_one_counts(before, names.last(), root_id);
        tally_both(first, second, refreshes(root_id));
        tally_both(first, second, changes(root_id));
    }
}

/// What the end of a change does to the work on `root_id`.
proof fn change_ended_counts(state: StateModel, name: Seq<char>, root_id: Seq<char>)
    requires
        distinct(state.repositories),
    ensures
        distinct(change_ended(state, name).repositories),
        refreshing(change_ended(state, name), root_id) == refreshing(state, root_id),
        changing(change_ended(state, name), root_id) == (changing(state, root_id) && name
            != root_id),
        saved_roots(change_ended(state, name).repositories) == saved_roots(state.repositories),
{
    lookup_finds(state.repositories, name);
    lookup_finds(state.repositories, root_id);
    if let Some(at) = repository_at(state.repositories, name) {
        let ended = RepositoryModel { changing: false, ..state.repositories[at] };
        lookup_after_change(state, at, ended, root_id);
        assert(saved_roots(state.repositories.update(at, ended)) =~= saved_roots(
            state.repositories,
        ));
    }
}

/// At most one refresh of a repository is under way at a time, and at most one
/// change to its worktrees. A repository counts as refreshing just while the
/// refresh that was started for it has not ended: what was under way and what a
/// message starts, less what it ends, makes what is under way afterwards. The
/// same holds of changes. A message that replaces the list of repositories must
/// not list a repository as idle that is not, or the other way round.
pub proof fn one_refresh_and_one_change_at_a_time(
    state: StateModel,
    msg: MsgModel,
    root_id: Seq<char>,
)
    requires
        in_order(state),
        can_come(msg),
        msg matches MsgModel::ConfigLoaded(Ok(loaded)) ==> {
            &&& refreshing(list_replaced(state, loaded), root_id) == refreshing(state, root_id)
            &&& changing(list_replaced(state, loaded), root_id) == changing(state, root_id)
        },
    ensures
        ({
            let (new, actions) = updated(state, msg);
            &&& tally(actions, refreshes(root_id)) + one_if(
                refreshing(state, root_id) && !ends_refresh(msg, root_id),
            ) == one_if(refreshing(new, root_id))
            &&& tally(actions, changes(root_id)) + one_if(
                changing(state, root_id) && !ends_change(msg, root_id),
            ) == one_if(changing(new, root_id))
        }),
{
    let (new, actions) = updated(state, msg);
    tally_none(refreshes(root_id));
    tally_none(changes(root_id));
    lookup_finds(state.repositories, root_id);
    if actions.len() == 1 {
        assert(actions =~= seq![actions[0]]);
        tally_one(actions[0], refreshes(root_id));
        tally_one(actions[0], changes(root_id));
    }
    match msg {
        MsgModel::WorktreeSelected(key) => {
            let (diff, request) = (ActionModel::LoadDiff(key), ActionModel::LoadPullRequest(key));
            tally_two(diff, request, refreshes(root_id));
            tally_two(diff, request, changes(root_id));
        },
        MsgModel::ConfigLoaded(Ok(loaded)) => {
            refresh_each_counts(
                list_replaced(state, loaded),
                ids(loaded.repositories),
                root_id,
            );
        },
        MsgModel::RepositoryAdded(Ok(added)) => {
            lookup_finds(state.repositories, added.id);
            if repository_at(state.repositories, added.id) is None {
                let longer = StateModel {
                    repositories: state.repositories.push(listed(added)),
                    selected_root: Some(added.id),
                    banner: None,
                    ..state
                };
                let (saved, save) = request_save(longer);
                lookup_after_push(state.repositories, listed(added), root_id);
                refresh_one_counts(saved, added.id, root_id);
                if save.len() == 1 {
                    tally_one(save[0], refreshes(root_id));
                    tally_one(save[0], changes(root_id));
                }
                tally_both(save, refresh_one(saved, added.id).1, refreshes(root_id));
                tally_both(save, refresh_one(saved, added.id).1, changes(root_id));
            }
        },
        MsgModel::RefreshAll => {
            refresh_each_counts(state, ids(state.repositories), root_id);
        },
        MsgModel::Poll => {
            refresh_each_counts(state, ids(state.repositories), root_id);
        },
        MsgModel::RepositoryRefreshed { root_id: id, result } => {
            lookup_finds(state.repositories, id);
            if let Some(at) = repository_at(state.repositories, id) {
                let repository = RepositoryModel { refreshing: false, ..state.repositories[at] };
                match result {
                    Ok(worktrees) => {
                        lookup_after_change(
                            state,
                            at,
                            RepositoryModel { worktrees, error: None, ..repository },
                            root_id,
                        );
                    },
                    Err(error) => {
                        lookup_after_change(
                            state,
                            at,
                            RepositoryModel { error: Some(error), ..repository },
                            root_id,
                        );
                    },
                }
            }
        },
        MsgModel::ConfirmAddWorktree => {
            if let Some(ModalModel::AddWorktree { root_id: id, .. }) = state.modal {
                lookup_finds(state.repositories, id);
                if let Some(at) = repository_at(state.repositories, id) {
                    lookup_after_change(
                        state,
                        at,
                        RepositoryModel { changing: true, ..state.repositories[at] },
                        root_id,
                    );
                }
            }
        },
        MsgModel::ConfirmRemoveWorktree => {
            if let Some(ModalModel::RemoveWorktree { root_id: id, .. }) = state.modal {
                lookup_finds(state.repositories, id);
                if let Some(at) = repository_at(state.repositories, id) {
                    lookup_after_change(
                        state,
                        at,
                        RepositoryModel { changing: true, ..state.repositories[at] },
                        root_id,
                    );
                }
            }
        },
        MsgModel::WorktreeAdded { root_id: id, result } => {
            change_ended_counts(state, id, root_id);
            if let Ok(path) = result {
                refresh_one_counts(
                    with_banner(
                        change_ended(state, id),
                        BannerLevel::Success,
                        "Created worktree at "@ + lossy_text(path) + "."@,
                    ),
                    id,
                    root_id,
                );
            }
        },
        MsgModel::WorktreeRemoved { root_id: id, path, result } => {
            change_ended_counts(state, id, root_id);
            let ended = change_ended(state, id);
            let message = "Removed worktree at "@ + lossy_text(path) + "."@;
            refresh_one_counts(
                with_banner(ended, BannerLevel::Success, message),
                id,
                root_id,
            );
            refresh_one_counts(
                with_banner(
                    without_selection(ended),
                    BannerLevel::Success,
                    message,
                ),
                id,
                root_id,
            );
        },
        _ => {},
    }
}

// ── A refresh of every repository ─────────────────────────────────────────

/// Whether nothing is under way in a repository.
pub open spec fn is_idle(repository: RepositoryModel) -> bool {
    !repository.refreshing && !repository.changing
}

/// A repository whose refresh is under way, unless it was busy.
pub open spec fn refresh_begun(repository: RepositoryModel) -> RepositoryModel {
    RepositoryModel { refreshing: repository.refreshing || is_idle(repository), ..repository }
}

/// The work that refreshes a repository.
pub open spec fn refresh_action(repository: RepositoryModel) -> ActionModel {
    ActionModel::RefreshRepository { root_id: repository.id, path: repository.path }
}

/// The first repositories have been asked for a refresh.
proof fn refresh_first(state: StateModel, count: nat)
    requires
        distinct(state.repositories),
        count <= state.repositories.len(),
    ensures
        ({
            let (new, actions) = refresh_each(state, ids(state.repositories).take(count as int));
            &&& new.repositories == Seq::new(
                state.repositories.len(),
                |i: int|
                    if i < count {
                        refresh_begun(state.repositories[i])
                    } else {
                        state.repositories[i]
                    },
            )
            &&& actions == state.repositories.take(count as int).filter(
                |repository: RepositoryModel| is_idle(repository),
            ).map_values(|repository: RepositoryModel| refresh_action(repository))
            &&& new == (StateModel { repositories: new.repositories, ..state })
        }),
    decreases count,
{
    let names = ids(state.repositories);
    let keep = |repository: RepositoryModel| is_idle(repository);
    let make = |repository: RepositoryModel| refresh_action(repository);
    if count == 0 {
        assert(state.repositories.take(0).filter(keep) =~= Seq::<RepositoryModel>::empty()) by {
            reveal(Seq::filter);
        }
        assert(refresh_each(state, names.take(0)).0.repositories =~= Seq::new(
            state.repositories.len(),
            |i: int|
                if i < count {
                    refresh_begun(state.repositories[i])
                } else {
                    state.repositories[i]
                },
        ));
        assert(Seq::<RepositoryModel>::empty().map_values(make) =~= Seq::<ActionModel>::empty());
    } else {
        let last = count - 1;
        refresh_first(state, last as nat);
        let (before, first) = refresh_each(state, names.take(last));
        let (new, second) = refresh_one(before, names[last]);
        assert(names.take(count as int).drop_last() =~= names.take(last));
        assert forall|i: int, j: int| 0 <= i < j < before.repositories.len() implies (
        #[trigger] before.repositories[i]).id != (#[trigger] before.repositories[j]).id by {
            assert(state.repositories[i].id != state.repositories[j].id);
        }
        lookup_unique(before.repositories, last);
        assert(before.repositories[last] == state.repositories[last]);
        let repository = state.repositories[last];
        crate::views::filter_step(state.repositories, keep, last);
        let kept = state.repositories.take(last).filter(keep);
        assert(kept.push(repository).map_values(make) =~= kept.map_values(make).push(
            make(repository),
        ));
        assert(new.repositories =~= Seq::new(
            state.repositories.len(),
            |i: int|
                if i < count {
                    refresh_begun(state.repositories[i])
                } else {
                    state.repositories[i]
                },
        ));
        assert(first + second =~= state.repositories.take(count as int).filter(keep).map_values(
            make,
        ));
    }
}

/// A refresh of all repositories, by hand or by the clock, starts one for each
/// that is idle, in the order of the list, and changes nothing else.
pub proof fn refresh_reaches_each_idle_repository(state: StateModel, msg: MsgModel)
    requires
        in_order(state),
        msg is RefreshAll || msg is Poll,
    ensures
        updated(state, msg) == (
            StateModel {
                repositories: state.repositories.map_values(
                    |repository: RepositoryModel| refresh_begun(repository),
                ),
                ..state
            },
            state.repositories.filter(
                |repository: RepositoryModel| is_idle(repository),
            ).map_values(|repository: RepositoryModel| refresh_action(repository)),
        ),
{
    let count = state.repositories.len();
    refresh_first(state, count);
    assert(ids(state.repositories).take(count as int) =~= ids(state.repositories));
    assert(state.repositories.take(count as int) =~= state.repositories);
    assert(updated(state, msg).0.repositories =~= state.repositories.map_values(
        |repository: RepositoryModel| refresh_begun(repository),
    ));
}

// ── Saving ────────────────────────────────────────────────────────────────

/// Whether an action saves the list of repositories.
pub open spec fn saves() -> spec_fn(ActionModel) -> bool {
    |action: ActionModel| action is SaveConfig
}

/// The list that the last save among the `actions` writes, or else `written`.
pub open spec fn last_saved(actions: Seq<ActionModel>, written: Seq<Seq<char>>) -> Seq<Seq<char>>
    decreases actions.len(),
{
    if actions.len() == 0 {
        written
    } else {
        match actions.last() {
            ActionModel::SaveConfig(roots) => roots,
            _ => last_saved(actions.drop_last(), written),
        }
    }
}

/// Whether the save that is under way writes the list as it stands, or the list
/// is marked to be saved again.
pub open spec fn keeps_up(state: StateModel, written: Seq<Seq<char>>) -> bool {
    state.config_saving && !state.config_dirty ==> written == saved_roots(state.repositories)
}

/// Refreshes save nothing.
proof fn refreshes_save_nothing(actions: Seq<ActionModel>, written: Seq<Seq<char>>)
    requires
        forall|i: int| 0 <= i < actions.len() ==> actions[i] is RefreshRepository,
    ensures
        tally(actions, saves()) == 0,
        last_saved(actions, written) == written,
    decreases actions.len(),
{
    tally_none(saves());
    if actions.len() > 0 {
        refreshes_save_nothing(actions.drop_last(), written);
        assert(actions =~= actions.drop_last() + seq![actions.last()]);
        tally_both(actions.drop_last(), seq![actions.last()], saves());
        tally_one(actions.last(), saves());
    }
}

/// The part of a message that asks for refreshes leaves the saving alone.
proof fn refreshing_leaves_saving(state: StateModel, name: Seq<char>, written: Seq<Seq<char>>)
    requires
        distinct(state.repositories),
    ensures
        ({
            let (new, actions) = refresh_one(state, name);
            &&& tally(actions, saves()) == 0
            &&& last_saved(actions, written) == written
            &&& saved_roots(new.repositories) == saved_roots(state.repositories)
            &&& new.config_saving == state.config_saving
            &&& new.config_dirty == state.config_dirty
        }),
{
    refresh_one_counts(state, name, name);
    refreshes_save_nothing(refresh_one(state, name).1, written);
}

/// At most one save is under way at a time, and none is missed. The list counts
/// as being saved just while the save that was started has not ended. Where
/// `written` is the list that the last save was started with, then either that is
/// the list as it stands, or it will be saved again: no repository that was added
/// during a save is lost. A message that replaces the list of repositories must
/// not come during a save of another list.
pub proof fn one_save_at_a_time_and_none_missed(
    state: StateModel,
    msg: MsgModel,
    written: Seq<Seq<char>>,
)
    requires
        in_order(state),
        can_come(msg),
        keeps_up(state, written),
        msg matches MsgModel::ConfigLoaded(Ok(loaded)) ==> keeps_up(
            list_replaced(state, loaded),
            written,
        ),
    ensures
        ({
            let (new, actions) = updated(state, msg);
            &&& tally(actions, saves()) + one_if(state.config_saving && !(msg is ConfigSaved))
                == one_if(new.config_saving)
            &&& keeps_up(new, last_saved(actions, written))
            &&& !(msg is ConfigLoaded) && saved_roots(new.repositories) != saved_roots(
                state.repositories,
            ) ==> new.config_saving
        }),
{
    let (new, actions) = updated(state, msg);
    tally_none(saves());
    if actions.len() == 1 {
        assert(actions =~= seq![actions[0]]);
        tally_one(actions[0], saves());
        assert(last_saved(actions.drop_last(), written) == written);
    }
    match msg {
        MsgModel::WorktreeSelected(key) => {
            let (diff, request) = (ActionModel::LoadDiff(key), ActionModel::LoadPullRequest(key));
            tally_two(diff, request, saves());
            assert(actions.drop_last() =~= seq![diff]);
            assert(seq![diff].drop_last() =~= Seq::<ActionModel>::empty());
            reveal_with_fuel(last_saved, 3);
        },
        MsgModel::ConfigLoaded(Ok(loaded)) => {
            refresh_each_counts(
                list_replaced(state, loaded),
                ids(loaded.repositories),
                Seq::empty(),
            );
            refreshes_save_nothing(actions, written);
        },
        MsgModel::RepositoryAdded(Ok(added)) => {
            lookup_finds(state.repositories, added.id);
            if repository_at(state.repositories, added.id) is None {
                let longer = StateModel {
                    repositories: state.repositories.push(listed(added)),
                    selected_root: Some(added.id),
                    banner: None,
                    ..state
                };
                let (saved, save) = request_save(longer);
                let (_, refresh) = refresh_one(saved, added.id);
                lookup_after_push(state.repositories, listed(added), added.id);
                refreshing_leaves_saving(saved, added.id, written);
                tally_both(save, refresh, saves());
                if save.len() == 1 {
                    tally_one(save[0], saves());
                }
                refresh_one_counts(saved, added.id, added.id);
                last_saved_before_refreshes(save, refresh, written);
            }
        },
        MsgModel::RefreshAll => {
            refresh_each_counts(state, ids(state.repositories), Seq::empty());
            refreshes_save_nothing(actions, written);
        },
        MsgModel::Poll => {
            refresh_each_counts(state, ids(state.repositories), Seq::empty());
            refreshes_save_nothing(actions, written);
        },
        MsgModel::RepositoryRefreshed { root_id: id, result } => {
            lookup_finds(state.repositories, id);
            assert(saved_roots(new.repositories) =~= saved_roots(state.repositories));
        },
        MsgModel::ConfirmAddWorktree => {
            if let Some(ModalModel::AddWorktree { root_id: id, .. }) = state.modal {
                lookup_finds(state.repositories, id);
            }
            assert(saved_roots(new.repositories) =~= saved_roots(state.repositories));
        },
        MsgModel::ConfirmRemoveWorktree => {
            if let Some(ModalModel::RemoveWorktree { root_id: id, .. }) = state.modal {
                lookup_finds(state.repositories, id);
            }
            assert(saved_roots(new.repositories) =~= saved_roots(state.repositories));
        },
        MsgModel::WorktreeAdded { root_id: id, result } => {
            change_ended_counts(state, id, id);
            if let Ok(path) = result {
                refreshing_leaves_saving(
                    with_banner(
                        change_ended(state, id),
                        BannerLevel::Success,
                        "Created worktree at "@ + lossy_text(path) + "."@,
                    ),
                    id,
                    written,
                );
            }
        },
        MsgModel::WorktreeRemoved { root_id: id, path, result } => {
            change_ended_counts(state, id, id);
            let ended = change_ended(state, id);
            let message = "Removed worktree at "@ + lossy_text(path) + "."@;
            refreshing_leaves_saving(
                with_banner(ended, BannerLevel::Success, message),
                id,
                written,
            );
            refreshing_leaves_saving(
                with_banner(
                    without_selection(ended),
                    BannerLevel::Success,
                    message,
                ),
                id,
                written,
            );
        },
        _ => {},
    }
}

/// Refreshes after a save do not change which list was saved last.
proof fn last_saved_before_refreshes(
    save: Seq<ActionModel>,
    refresh: Seq<ActionModel>,
    written: Seq<Seq<char>>,
)
    requires
        forall|i: int| 0 <= i < refresh.len() ==> refresh[i] is RefreshRepository,
    ensures
        last_saved(save + refresh, written) == last_saved(save, written),
    decreases refresh.len(),
{
    if refresh.len() == 0 {
        assert(save + refresh =~= save);
    } else {
        last_saved_before_refreshes(save, refresh.drop_last(), written);
        assert((save + refresh).drop_last() =~= save + refresh.drop_last());
        assert((save + refresh).last() == refresh.last());
    }
}

// ── Diffs and pull requests ───────────────────────────────────────────────

/// A diff that arrives after another worktree has been selected is dropped.
pub proof fn stale_diff_is_dropped(
    state: StateModel,
    key: WorktreeKeyModel,
    result: Result<DiffModel, Seq<char>>,
)
    requires
        state.selected_worktree matches Some(selected) ==> !same_key(selected, key),
    ensures
        updated(state, MsgModel::DiffLoaded { key, result }) == idle(state),
{
}

/// The diff that is asked for by selecting a worktree is shown when it arrives,
/// whatever happened to the rest of the state meanwhile.
pub proof fn wanted_diff_is_shown(
    state: StateModel,
    key: WorktreeKeyModel,
    later: StateModel,
    diff: DiffModel,
)
    requires
        later.selected_worktree == updated(
            state,
            MsgModel::WorktreeSelected(key),
        ).0.selected_worktree,
    ensures
        updated(state, MsgModel::WorktreeSelected(key)).1.contains(ActionModel::LoadDiff(key)),
        updated(later, MsgModel::DiffLoaded { key, result: Ok(diff) }).0.diff
            == DiffStateModel::Loaded(diff),
{
    assert(updated(state, MsgModel::WorktreeSelected(key)).1[0] == ActionModel::LoadDiff(key));
}

/// A pull request that arrives after another worktree has been selected is dropped.
pub proof fn stale_pull_request_is_dropped(
    state: StateModel,
    key: WorktreeKeyModel,
    pull_request: Option<PullRequestModel>,
)
    requires
        state.selected_worktree matches Some(selected) ==> !same_key(selected, key),
    ensures
        updated(state, MsgModel::PullRequestLoaded { key, pull_request }) == idle(state),
{
}

/// The pull request that is asked for by selecting a worktree is kept when it
/// arrives, whatever happened to the rest of the state meanwhile, and also where
/// there is no diff. Until then, none is shown.
pub proof fn wanted_pull_request_is_kept(
    state: StateModel,
    key: WorktreeKeyModel,
    later: StateModel,
    pull_request: Option<PullRequestModel>,
)
    requires
        later.selected_worktree == updated(
            state,
            MsgModel::WorktreeSelected(key),
        ).0.selected_worktree,
    ensures
        updated(state, MsgModel::WorktreeSelected(key)).0.pull_request is None,
        updated(state, MsgModel::WorktreeSelected(key)).1.contains(
            ActionModel::LoadPullRequest(key),
        ),
        updated(later, MsgModel::PullRequestLoaded { key, pull_request }) == idle(
            StateModel { pull_request, ..later },
        ),
{
    assert(updated(state, MsgModel::WorktreeSelected(key)).1[1] == ActionModel::LoadPullRequest(
        key,
    ));
}

} // verus!
