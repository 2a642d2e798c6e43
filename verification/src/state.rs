//! What wtui knows, and the messages that change it.
use vstd::prelude::*;

use crate::diff::{Diff, DiffModel, PullRequest, PullRequestModel};
use crate::path::{same_path, FilePath};
use crate::views::{option_view, position, position_is, position_is_none, result_view, views};

verus! {

// ── Worktrees ─────────────────────────────────────────────────────────────

/// A worktree of a repository, and its state.
#[derive(Debug, PartialEq, Eq)]
pub struct Worktree {
    pub path: FilePath,
    pub branch: Option<String>,
    pub is_main: bool,
    pub locked: bool,
    pub dirty_files: usize,
    pub ignored_files: usize,
    pub upstream: Option<String>,
    pub ahead: Option<u32>,
    pub behind: Option<u32>,
    pub has_remote: bool,
    pub error: Option<String>,
}

/// What a `Worktree` holds.
pub struct WorktreeModel {
    pub path: Seq<u8>,
    pub branch: Option<Seq<char>>,
    pub is_main: bool,
    pub locked: bool,
    pub dirty_files: nat,
    pub ignored_files: nat,
    pub upstream: Option<Seq<char>>,
    pub ahead: Option<u32>,
    pub behind: Option<u32>,
    pub has_remote: bool,
    pub error: Option<Seq<char>>,
}

impl View for Worktree {
    type V = WorktreeModel;

    open spec fn view(&self) -> WorktreeModel {
        WorktreeModel {
            path: self.path@,
            branch: option_view(self.branch),
            is_main: self.is_main,
            locked: self.locked,
            dirty_files: self.dirty_files as nat,
            ignored_files: self.ignored_files as nat,
            upstream: option_view(self.upstream),
            ahead: self.ahead,
            behind: self.behind,
            has_remote: self.has_remote,
            error: option_view(self.error),
        }
    }
}

impl Clone for Worktree {
    fn clone(&self) -> (copy: Self)
        ensures
            copy@ == self@,
    {
        Worktree {
            path: self.path.clone(),
            branch: self.branch.clone(),
            is_main: self.is_main,
            locked: self.locked,
            dirty_files: self.dirty_files,
            ignored_files: self.ignored_files,
            upstream: self.upstream.clone(),
            ahead: self.ahead,
            behind: self.behind,
            has_remote: self.has_remote,
            error: self.error.clone(),
        }
    }
}

/// What a refresh found: the worktrees of a repository.
#[derive(Debug, PartialEq, Eq)]
pub struct Refresh {
    pub worktrees: Vec<Worktree>,
}

impl View for Refresh {
    type V = Seq<WorktreeModel>;

    open spec fn view(&self) -> Seq<WorktreeModel> {
        views(self.worktrees@)
    }
}

impl Clone for Refresh {
    fn clone(&self) -> (copy: Self)
        ensures
            copy@ == self@,
    {
        let copy = Refresh { worktrees: self.worktrees.clone() };
        assert(copy@ =~= self@);
        copy
    }
}

/// Which worktree of which repository.
#[derive(Debug)]
pub struct WorktreeKey {
    pub root_id: String,
    pub path: FilePath,
}

/// What a `WorktreeKey` holds.
pub struct WorktreeKeyModel {
    pub root_id: Seq<char>,
    pub path: Seq<u8>,
}

impl View for WorktreeKey {
    type V = WorktreeKeyModel;

    open spec fn view(&self) -> WorktreeKeyModel {
        WorktreeKeyModel { root_id: self.root_id@, path: self.path@ }
    }
}

/// Whether two keys stand for one worktree.
pub open spec fn same_key(a: WorktreeKeyModel, b: WorktreeKeyModel) -> bool {
    a.root_id == b.root_id && same_path(a.path, b.path)
}

impl WorktreeKey {
    /// Whether two keys stand for one worktree.
    pub fn same_key(&self, other: &WorktreeKey) -> (same: bool)
        ensures
            same == same_key(self@, other@),
    {
        self.root_id == other.root_id && self.path.same_path(&other.path)
    }
}

impl Clone for WorktreeKey {
    fn clone(&self) -> (copy: Self)
        ensures
            copy@ == self@,
    {
        WorktreeKey { root_id: self.root_id.clone(), path: self.path.clone() }
    }
}

impl PartialEq for WorktreeKey {
    fn eq(&self, other: &Self) -> (same: bool) {
        self.same_key(other)
    }
}

impl vstd::std_specs::cmp::PartialEqSpecImpl for WorktreeKey {
    open spec fn obeys_eq_spec() -> bool {
        true
    }

    open spec fn eq_spec(&self, other: &Self) -> bool {
        same_key(self@, other@)
    }
}

impl Eq for WorktreeKey {

}

// ── Repositories ──────────────────────────────────────────────────────────

/// A repository that has been found to be one.
#[derive(Debug, PartialEq, Eq)]
pub struct NewRepository {
    pub id: String,
    pub path: FilePath,
}

/// What a `NewRepository` holds.
pub struct NewRepositoryModel {
    pub id: Seq<char>,
    pub path: Seq<u8>,
}

impl View for NewRepository {
    type V = NewRepositoryModel;

    open spec fn view(&self) -> NewRepositoryModel {
        NewRepositoryModel { id: self.id@, path: self.path@ }
    }
}

impl Clone for NewRepository {
    fn clone(&self) -> (copy: Self)
        ensures
            copy@ == self@,
    {
        NewRepository { id: self.id.clone(), path: self.path.clone() }
    }
}

/// A listed repository.
#[derive(Debug, PartialEq, Eq)]
pub struct Repository {
    pub id: String,
    pub path: FilePath,
    pub worktrees: Vec<Worktree>,
    /// Whether a refresh is under way.
    pub refreshing: bool,
    /// Whether a worktree is being added or removed.
    pub changing: bool,
    pub error: Option<String>,
}

/// What a `Repository` holds.
pub struct RepositoryModel {
    pub id: Seq<char>,
    pub path: Seq<u8>,
    pub worktrees: Seq<WorktreeModel>,
    pub refreshing: bool,
    pub changing: bool,
    pub error: Option<Seq<char>>,
}

impl View for Repository {
    type V = RepositoryModel;

    open spec fn view(&self) -> RepositoryModel {
        RepositoryModel {
            id: self.id@,
            path: self.path@,
            worktrees: views(self.worktrees@),
            refreshing: self.refreshing,
            changing: self.changing,
            error: option_view(self.error),
        }
    }
}

impl Clone for Repository {
    fn clone(&self) -> (copy: Self)
        ensures
            copy@ == self@,
    {
        let copy = Repository {
            id: self.id.clone(),
            path: self.path.clone(),
            worktrees: self.worktrees.clone(),
            refreshing: self.refreshing,
            changing: self.changing,
            error: self.error.clone(),
        };
        assert(copy@.worktrees =~= self@.worktrees);
        copy
    }
}

/// A repository of which nothing but its place is known yet.
pub open spec fn listed(new: NewRepositoryModel) -> RepositoryModel {
    RepositoryModel {
        id: new.id,
        path: new.path,
        worktrees: Seq::empty(),
        refreshing: false,
        changing: false,
        error: None,
    }
}

impl Repository {
    /// A repository of which nothing but its place is known yet.
    pub fn listed(new: NewRepository) -> (repository: Repository)
        ensures
            repository@ == listed(new@),
    {
        let repository = Repository {
            id: new.id,
            path: new.path,
            worktrees: Vec::new(),
            refreshing: false,
            changing: false,
            error: None,
        };
        assert(repository@.worktrees =~= Seq::<WorktreeModel>::empty());
        repository
    }
}

/// The saved repositories that are still there, and a warning for each other one.
#[derive(Debug, PartialEq, Eq)]
pub struct LoadedRepositories {
    pub repositories: Vec<Repository>,
    pub warnings: Vec<String>,
}

/// What a `LoadedRepositories` holds.
pub struct LoadedModel {
    pub repositories: Seq<RepositoryModel>,
    pub warnings: Seq<Seq<char>>,
}

impl View for LoadedRepositories {
    type V = LoadedModel;

    open spec fn view(&self) -> LoadedModel {
        LoadedModel {
            repositories: views(self.repositories@),
            warnings: views(self.warnings@),
        }
    }
}

impl Clone for LoadedRepositories {
    fn clone(&self) -> (copy: Self)
        ensures
            copy@ == self@,
    {
        let copy = LoadedRepositories {
            repositories: self.repositories.clone(),
            warnings: self.warnings.clone(),
        };
        assert(copy@.repositories =~= self@.repositories);
        assert(copy@.warnings =~= self@.warnings);
        copy
    }
}

// ── The rest of the state ─────────────────────────────────────────────────

/// The diff of the selected worktree.
#[derive(Debug, PartialEq, Eq)]
pub enum DiffState {
    Empty,
    Loading,
    Loaded(Diff),
    Error(String),
}

/// What a `DiffState` holds.
pub enum DiffStateModel {
    Empty,
    Loading,
    Loaded(DiffModel),
    Error(Seq<char>),
}

impl View for DiffState {
    type V = DiffStateModel;

    open spec fn view(&self) -> DiffStateModel {
        match *self {
            DiffState::Empty => DiffStateModel::Empty,
            DiffState::Loading => DiffStateModel::Loading,
            DiffState::Loaded(diff) => DiffStateModel::Loaded(diff@),
            DiffState::Error(message) => DiffStateModel::Error(message@),
        }
    }
}

/// A dialog that waits for an answer.
#[derive(Debug, PartialEq, Eq)]
pub enum Modal {
    AddWorktree { root_id: String, branch: String },
    RemoveWorktree {
        root_id: String,
        path: FilePath,
        dirty_files: usize,
        ignored_files: usize,
    },
}

/// What a `Modal` holds.
pub enum ModalModel {
    AddWorktree { root_id: Seq<char>, branch: Seq<char> },
    RemoveWorktree { root_id: Seq<char>, path: Seq<u8>, dirty_files: nat, ignored_files: nat },
}

impl View for Modal {
    type V = ModalModel;

    open spec fn view(&self) -> ModalModel {
        match *self {
            Modal::AddWorktree { root_id, branch } => ModalModel::AddWorktree {
                root_id: root_id@,
                branch: branch@,
            },
            Modal::RemoveWorktree { root_id, path, dirty_files, ignored_files } => {
                ModalModel::RemoveWorktree {
                    root_id: root_id@,
                    path: path@,
                    dirty_files: dirty_files as nat,
                    ignored_files: ignored_files as nat,
                }
            },
        }
    }
}

/// How a banner is meant.
#[derive(Debug, Clone, Copy, PartialEq, Eq, Structural)]
pub enum BannerLevel {
    Success,
    Error,
    Info,
}

/// A message across the top of the window.
#[derive(Debug, PartialEq, Eq)]
pub struct Banner {
    pub level: BannerLevel,
    pub message: String,
}

/// What a `Banner` holds.
pub struct BannerModel {
    pub level: BannerLevel,
    pub message: Seq<char>,
}

impl View for Banner {
    type V = BannerModel;

    open spec fn view(&self) -> BannerModel {
        BannerModel { level: self.level, message: self.message@ }
    }
}

/// What wtui knows.
#[derive(Debug)]
pub struct State {
    pub repositories: Vec<Repository>,
    pub selected_root: Option<String>,
    pub selected_worktree: Option<WorktreeKey>,
    pub diff: DiffState,
    /// The pull request of the selected worktree, once it is known.
    pub pull_request: Option<PullRequest>,
    pub modal: Option<Modal>,
    pub banner: Option<Banner>,
    /// Whether the list of repositories is being saved.
    pub config_saving: bool,
    /// Whether the list has changed since the save that is under way began.
    pub config_dirty: bool,
}

/// What a `State` holds.
pub struct StateModel {
    pub repositories: Seq<RepositoryModel>,
    pub selected_root: Option<Seq<char>>,
    pub selected_worktree: Option<WorktreeKeyModel>,
    pub diff: DiffStateModel,
    pub pull_request: Option<PullRequestModel>,
    pub modal: Option<ModalModel>,
    pub banner: Option<BannerModel>,
    pub config_saving: bool,
    pub config_dirty: bool,
}

impl View for State {
    type V = StateModel;

    open spec fn view(&self) -> StateModel {
        StateModel {
            repositories: views(self.repositories@),
            selected_root: option_view(self.selected_root),
            selected_worktree: option_view(self.selected_worktree),
            diff: self.diff@,
            pull_request: option_view(self.pull_request),
            modal: option_view(self.modal),
            banner: option_view(self.banner),
            config_saving: self.config_saving,
            config_dirty: self.config_dirty,
        }
    }
}

// ── Messages and actions ──────────────────────────────────────────────────

/// What has happened.
#[derive(Debug, PartialEq, Eq)]
#[allow(inconsistent_fields)]
pub enum Msg {
    ConfigLoaded(Result<LoadedRepositories, String>),
    ConfigSaved(Result<(), String>),
    ChooseRepository,
    RepositoryPicked(Option<FilePath>),
    RepositoryAdded(Result<NewRepository, String>),
    SelectRoot(String),
    RefreshAll,
    Poll,
    RepositoryRefreshed { root_id: String, result: Result<Refresh, String> },
    ShowAddWorktree,
    BranchChanged(String),
    ConfirmAddWorktree,
    WorktreeAdded { root_id: String, result: Result<FilePath, String> },
    WorktreeSelected(WorktreeKey),
    DiffLoaded { key: WorktreeKey, result: Result<Diff, String> },
    AskRemoveWorktree(WorktreeKey),
    ConfirmRemoveWorktree,
    WorktreeRemoved { root_id: String, path: FilePath, result: Result<(), String> },
    DismissModal,
    PullRequestLoaded { key: WorktreeKey, pull_request: Option<PullRequest> },
    OpenPullRequest(String),
    PullRequestOpened(Result<(), String>),
}

/// What a `Msg` holds.
#[allow(inconsistent_fields)]
pub enum MsgModel {
    ConfigLoaded(Result<LoadedModel, Seq<char>>),
    ConfigSaved(Result<(), Seq<char>>),
    ChooseRepository,
    RepositoryPicked(Option<Seq<u8>>),
    RepositoryAdded(Result<NewRepositoryModel, Seq<char>>),
    SelectRoot(Seq<char>),
    RefreshAll,
    Poll,
    RepositoryRefreshed { root_id: Seq<char>, result: Result<Seq<WorktreeModel>, Seq<char>> },
    ShowAddWorktree,
    BranchChanged(Seq<char>),
    ConfirmAddWorktree,
    WorktreeAdded { root_id: Seq<char>, result: Result<Seq<u8>, Seq<char>> },
    WorktreeSelected(WorktreeKeyModel),
    DiffLoaded { key: WorktreeKeyModel, result: Result<DiffModel, Seq<char>> },
    AskRemoveWorktree(WorktreeKeyModel),
    ConfirmRemoveWorktree,
    WorktreeRemoved { root_id: Seq<char>, path: Seq<u8>, result: Result<(), Seq<char>> },
    DismissModal,
    PullRequestLoaded { key: WorktreeKeyModel, pull_request: Option<PullRequestModel> },
    OpenPullRequest(Seq<char>),
    PullRequestOpened(Result<(), Seq<char>>),
}

impl View for Msg {
    type V = MsgModel;

    open spec fn view(&self) -> MsgModel {
        match *self {
            Msg::ConfigLoaded(result) => MsgModel::ConfigLoaded(result_view(result)),
            Msg::ConfigSaved(result) => MsgModel::ConfigSaved(result_view(result)),
            Msg::ChooseRepository => MsgModel::ChooseRepository,
            Msg::RepositoryPicked(path) => MsgModel::RepositoryPicked(option_view(path)),
            Msg::RepositoryAdded(result) => MsgModel::RepositoryAdded(result_view(result)),
            Msg::SelectRoot(root_id) => MsgModel::SelectRoot(root_id@),
            Msg::RefreshAll => MsgModel::RefreshAll,
            Msg::Poll => MsgModel::Poll,
            Msg::RepositoryRefreshed { root_id, result } => MsgModel::RepositoryRefreshed {
                root_id: root_id@,
                result: result_view(result),
            },
            Msg::ShowAddWorktree => MsgModel::ShowAddWorktree,
            Msg::BranchChanged(branch) => MsgModel::BranchChanged(branch@),
            Msg::ConfirmAddWorktree => MsgModel::ConfirmAddWorktree,
            Msg::WorktreeAdded { root_id, result } => MsgModel::WorktreeAdded {
                root_id: root_id@,
                result: result_view(result),
            },
            Msg::WorktreeSelected(key) => MsgModel::WorktreeSelected(key@),
            Msg::DiffLoaded { key, result } => MsgModel::DiffLoaded {
                key: key@,
                result: result_view(result),
            },
            Msg::AskRemoveWorktree(key) => MsgModel::AskRemoveWorktree(key@),
            Msg::ConfirmRemoveWorktree => MsgModel::ConfirmRemoveWorktree,
            Msg::WorktreeRemoved { root_id, path, result } => MsgModel::WorktreeRemoved {
                root_id: root_id@,
                path: path@,
                result: result_view(result),
            },
            Msg::DismissModal => MsgModel::DismissModal,
            Msg::PullRequestLoaded { key, pull_request } => MsgModel::PullRequestLoaded {
                key: key@,
                pull_request: option_view(pull_request),
            },
            Msg::OpenPullRequest(url) => MsgModel::OpenPullRequest(url@),
            Msg::PullRequestOpened(result) => MsgModel::PullRequestOpened(result_view(result)),
        }
    }
}

/// A copy of a result.
fn copy_result<T: Clone, E: Clone>(result: &Result<T, E>) -> (copy: Result<T, E>)
    ensures
        match (*result, copy) {
            (Ok(a), Ok(b)) => cloned(a, b),
            (Err(a), Err(b)) => cloned(a, b),
            _ => false,
        },
{
    match result {
        Ok(value) => Ok(value.clone()),
        Err(error) => Err(error.clone()),
    }
}

impl Clone for Msg {
    fn clone(&self) -> (copy: Self)
        ensures
            copy@ == self@,
    {
        match self {
            Msg::ConfigLoaded(result) => Msg::ConfigLoaded(copy_result(result)),
            Msg::ConfigSaved(result) => Msg::ConfigSaved(copy_result(result)),
            Msg::ChooseRepository => Msg::ChooseRepository,
            Msg::RepositoryPicked(path) => Msg::RepositoryPicked(path.clone()),
            Msg::RepositoryAdded(result) => Msg::RepositoryAdded(copy_result(result)),
            Msg::SelectRoot(root_id) => Msg::SelectRoot(root_id.clone()),
            Msg::RefreshAll => Msg::RefreshAll,
            Msg::Poll => Msg::Poll,
            Msg::RepositoryRefreshed { root_id, result } => Msg::RepositoryRefreshed {
                root_id: root_id.clone(),
                result: copy_result(result),
            },
            Msg::ShowAddWorktree => Msg::ShowAddWorktree,
            Msg::BranchChanged(branch) => Msg::BranchChanged(branch.clone()),
            Msg::ConfirmAddWorktree => Msg::ConfirmAddWorktree,
            Msg::WorktreeAdded { root_id, result } => Msg::WorktreeAdded {
                root_id: root_id.clone(),
                result: copy_result(result),
            },
            Msg::WorktreeSelected(key) => Msg::WorktreeSelected(key.clone()),
            Msg::DiffLoaded { key, result } => Msg::DiffLoaded {
                key: key.clone(),
                result: copy_result(result),
            },
            Msg::AskRemoveWorktree(key) => Msg::AskRemoveWorktree(key.clone()),
            Msg::ConfirmRemoveWorktree => Msg::ConfirmRemoveWorktree,
            Msg::WorktreeRemoved { root_id, path, result } => Msg::WorktreeRemoved {
                root_id: root_id.clone(),
                path: path.clone(),
                result: copy_result(result),
            },
            Msg::DismissModal => Msg::DismissModal,
            Msg::PullRequestLoaded { key, pull_request } => Msg::PullRequestLoaded {
                key: key.clone(),
                pull_request: pull_request.clone(),
            },
            Msg::OpenPullRequest(url) => Msg::OpenPullRequest(url.clone()),
            Msg::PullRequestOpened(result) => Msg::PullRequestOpened(copy_result(result)),
        }
    }
}

/// Work to start in the background. What comes of it returns as a message.
#[derive(Debug, PartialEq, Eq)]
pub enum Action {
    /// Load the saved repositories; answered by `ConfigLoaded`.
    LoadConfig,
    /// Save the list of repositories; answered by `ConfigSaved`.
    SaveConfig(Vec<String>),
    /// Let the user pick a directory; answered by `RepositoryPicked`.
    PickRepository,
    /// See whether a directory is a repository; answered by `RepositoryAdded`.
    ValidateRepository(FilePath),
    /// Look at a repository again; answered by `RepositoryRefreshed`.
    RefreshRepository { root_id: String, path: FilePath },
    /// Add a worktree; answered by `WorktreeAdded`.
    AddWorktree { root_id: String, root: FilePath, branch: String },
    /// Remove a worktree; answered by `WorktreeRemoved`.
    RemoveWorktree { root_id: String, root: FilePath, path: FilePath, force: bool },
    /// Load the diff of a worktree; answered by `DiffLoaded`.
    LoadDiff(WorktreeKey),
    /// Look for the pull request of a worktree; answered by `PullRequestLoaded`.
    LoadPullRequest(WorktreeKey),
    /// Open an address in the browser; answered by `PullRequestOpened`.
    OpenUrl(String),
}

/// What an `Action` holds.
pub enum ActionModel {
    LoadConfig,
    SaveConfig(Seq<Seq<char>>),
    PickRepository,
    ValidateRepository(Seq<u8>),
    RefreshRepository { root_id: Seq<char>, path: Seq<u8> },
    AddWorktree { root_id: Seq<char>, root: Seq<u8>, branch: Seq<char> },
    RemoveWorktree { root_id: Seq<char>, root: Seq<u8>, path: Seq<u8>, force: bool },
    LoadDiff(WorktreeKeyModel),
    LoadPullRequest(WorktreeKeyModel),
    OpenUrl(Seq<char>),
}

impl View for Action {
    type V = ActionModel;

    open spec fn view(&self) -> ActionModel {
        match *self {
            Action::LoadConfig => ActionModel::LoadConfig,
            Action::SaveConfig(roots) => ActionModel::SaveConfig(views(roots@)),
            Action::PickRepository => ActionModel::PickRepository,
            Action::ValidateRepository(path) => ActionModel::ValidateRepository(path@),
            Action::RefreshRepository { root_id, path } => ActionModel::RefreshRepository {
                root_id: root_id@,
                path: path@,
            },
            Action::AddWorktree { root_id, root, branch } => ActionModel::AddWorktree {
                root_id: root_id@,
                root: root@,
                branch: branch@,
            },
            Action::RemoveWorktree { root_id, root, path, force } => ActionModel::RemoveWorktree {
                root_id: root_id@,
                root: root@,
                path: path@,
                force,
            },
            Action::LoadDiff(key) => ActionModel::LoadDiff(key@),
            Action::LoadPullRequest(key) => ActionModel::LoadPullRequest(key@),
            Action::OpenUrl(url) => ActionModel::OpenUrl(url@),
        }
    }
}

// ── Looking things up ─────────────────────────────────────────────────────

/// Where the repository called `root_id` stands.
pub open spec fn repository_at(repositories: Seq<RepositoryModel>, root_id: Seq<char>) -> Option<
    int,
> {
    position(repositories, |repository: RepositoryModel| repository.id == root_id)
}

/// Where the worktree at `path` stands.
pub open spec fn worktree_at(worktrees: Seq<WorktreeModel>, path: Seq<u8>) -> Option<int> {
    position(worktrees, |worktree: WorktreeModel| same_path(worktree.path, path))
}

/// The repository called `root_id`.
pub open spec fn find_repository(state: StateModel, root_id: Seq<char>) -> Option<
    RepositoryModel,
> {
    match repository_at(state.repositories, root_id) {
        Some(at) => Some(state.repositories[at]),
        None => None,
    }
}

/// The worktree that `key` stands for.
pub open spec fn keyed_worktree(state: StateModel, key: WorktreeKeyModel) -> Option<
    WorktreeModel,
> {
    match find_repository(state, key.root_id) {
        Some(repository) => match worktree_at(repository.worktrees, key.path) {
            Some(at) => Some(repository.worktrees[at]),
            None => None,
        },
        None => None,
    }
}

/// Where the repository called `root_id` stands.
pub fn repository_index(repositories: &Vec<Repository>, root_id: &str) -> (at: Option<usize>)
    ensures
        match at {
            Some(i) => i < repositories@.len() && repository_at(views(repositories@), root_id@)
                == Some(i as int),
            None => repository_at(views(repositories@), root_id@) is None,
        },
{
    let ghost test = |repository: RepositoryModel| repository.id == root_id@;
    for i in 0..repositories.len()
        invariant
            test == (|repository: RepositoryModel| repository.id == root_id@),
            forall|j: int| 0 <= j < i ==> !test(#[trigger] views(repositories@)[j]),
    {
        if crate::text::same_text(repositories[i].id.as_str(), root_id) {
            proof {
                position_is(views(repositories@), test, i as int);
            }
            return Some(i);
        }
        assert(!test(views(repositories@)[i as int]));
    }
    proof {
        position_is_none(views(repositories@), test);
    }
    None
}

/// Where the worktree at `path` stands.
pub fn worktree_index(worktrees: &Vec<Worktree>, path: &FilePath) -> (at: Option<usize>)
    ensures
        match at {
            Some(i) => i < worktrees@.len() && worktree_at(views(worktrees@), path@) == Some(
                i as int,
            ),
            None => worktree_at(views(worktrees@), path@) is None,
        },
{
    let ghost test = |worktree: WorktreeModel| same_path(worktree.path, path@);
    for i in 0..worktrees.len()
        invariant
            test == (|worktree: WorktreeModel| same_path(worktree.path, path@)),
            forall|j: int| 0 <= j < i ==> !test(#[trigger] views(worktrees@)[j]),
    {
        if worktrees[i].path.same_path(path) {
            proof {
                position_is(views(worktrees@), test, i as int);
            }
            return Some(i);
        }
        assert(!test(views(worktrees@)[i as int]));
    }
    proof {
        position_is_none(views(worktrees@), test);
    }
    None
}

/// The repository called `root_id`.
pub fn repository<'a>(state: &'a State, root_id: &str) -> (found: Option<&'a Repository>)
    ensures
        match found {
            Some(repository) => find_repository(state@, root_id@) == Some(repository@),
            None => find_repository(state@, root_id@) is None,
        },
{
    match repository_index(&state.repositories, root_id) {
        Some(at) => Some(&state.repositories[at]),
        None => None,
    }
}

/// The worktree that `key` stands for.
pub fn find_worktree<'a>(state: &'a State, key: &WorktreeKey) -> (found: Option<&'a Worktree>)
    ensures
        match found {
            Some(worktree) => keyed_worktree(state@, key@) == Some(worktree@),
            None => keyed_worktree(state@, key@) is None,
        },
{
    match repository(state, key.root_id.as_str()) {
        Some(repository) => match worktree_index(&repository.worktrees, &key.path) {
            Some(at) => Some(&repository.worktrees[at]),
            None => None,
        },
        None => None,
    }
}

} // verus!
