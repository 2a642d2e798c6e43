//! That the models tell each part of what they stand for.
use vstd::prelude::*;

use crate::command::Command;
use crate::config::directory_view;
use crate::diff::{Diff, DiffBase, FoundBase, FoundReference, PullRequest};
use crate::path::FilePath;
use crate::porcelain::{RawWorktree, StatusSummary};
use crate::state::{Action, ActionModel, Banner, DiffState, DiffStateModel, LoadedRepositories, Modal, Msg, MsgModel, NewRepository, Refresh, Repository, State, Worktree, WorktreeKey};
use crate::step::{blank_transcript, result_views, step_option_view, step_result_view, step_view, ConfigFile, ConfigFileModel, Request, RequestModel, SavedConfig, Step, Transcript};
use crate::view::{Body, BodyModel, Button, Card, Content, ContentModel, Dialog, DiffPanel, Field, Header, Notice, Panels, PullRequestLink, Removal, RemovalModel, Screen, Tab};
use crate::views::{list_result_view, option_view, result_view, views};

verus! {

// ── Compound values ───────────────────────────────────────────────────────

/// Whether `models` tell `items` one by one, in the same order.
pub open spec fn tell<T: View>(models: Seq<T::V>, items: Seq<T>) -> bool {
    &&& models.len() == items.len()
    &&& forall|i: int| 0 <= i < items.len() ==> #[trigger] models[i] == items[i]@
}

/// Whether `model` tells an optional value.
pub open spec fn tells<T: View>(model: Option<T::V>, value: Option<T>) -> bool {
    &&& model is Some <==> value is Some
    &&& value is Some ==> model->0 == value->0@
}

/// Whether `model` tells a result.
pub open spec fn tells_result<T: View, E: View>(
    model: Result<T::V, E::V>,
    value: Result<T, E>,
) -> bool {
    &&& model is Ok <==> value is Ok
    &&& value is Ok ==> model->Ok_0 == value->Ok_0@
    &&& value is Err ==> model->Err_0 == value->Err_0@
}

/// The models of lists, optional values and results tell what these hold.
pub proof fn compound_values_are_told<T: View, E: View>(
    items: Seq<T>,
    value: Option<T>,
    result: Result<T, E>,
    list: Result<Vec<T>, E>,
    results: Seq<Result<T, E>>,
    at: int,
)
    ensures
        tell(views(items), items),
        tells(option_view(value), value),
        tells_result(result_view(result), result),
        list is Ok <==> list_result_view(list) is Ok,
        list is Ok ==> tell(list_result_view(list)->Ok_0, list->Ok_0@),
        list is Err ==> list_result_view(list)->Err_0 == list->Err_0@,
        result_views(results).len() == results.len(),
        0 <= at < results.len() ==> tells_result(result_views(results)[at], results[at]),
{
}

/// The models of steps tell the request that is asked, or the value that is reached.
pub proof fn steps_are_told<T: View, E: View>(
    step: Step<Request, T>,
    optional: Step<Request, Option<T>>,
    fallible: Step<Request, Result<T, E>>,
)
    ensures
        step matches Step::Ask(request) ==> step_view(step) == Step::<RequestModel, T::V>::Ask(
            request@,
        ),
        step matches Step::Done(value) ==> step_view(step) == Step::<RequestModel, T::V>::Done(
            value@,
        ),
        optional matches Step::Ask(request) ==> step_option_view(optional) == Step::<
            RequestModel,
            Option<T::V>,
        >::Ask(request@),
        optional matches Step::Done(value) ==> {
            &&& step_option_view(optional) is Done
            &&& tells(step_option_view(optional)->Done_0, value)
        },
        fallible matches Step::Ask(request) ==> step_result_view(fallible) == Step::<
            RequestModel,
            Result<T::V, E::V>,
        >::Ask(request@),
        fallible matches Step::Done(value) ==> {
            &&& step_result_view(fallible) is Done
            &&& tells_result(step_result_view(fallible)->Done_0, value)
        },
{
}

// ── Paths, commands and reports ───────────────────────────────────────────

/// A path is its bytes.
pub proof fn path_is_its_bytes(path: FilePath, directory: Option<&FilePath>)
    ensures
        path@ == path.bytes@,
        directory is Some <==> directory_view(directory) is Some,
        directory is Some ==> directory_view(directory)->0 == directory->0@,
{
}

/// The model of a command tells its program, its directory and its arguments.
pub proof fn command_is_told(command: Command)
    ensures
        command@.program == command.program@,
        command@.directory == command.directory@,
        tell(command@.arguments, command.arguments@),
{
}

/// The model of a request tells what is asked for, and of what.
pub proof fn request_is_told(request: Request)
    ensures
        match (request, request@) {
            (Request::Run(command), RequestModel::Run(model)) => model == command@,
            (Request::Canonicalize(path), RequestModel::Canonicalize(model)) => model == path@,
            (Request::CheckExists(path), RequestModel::CheckExists(model)) => model == path@,
            (Request::ReadConfig(path), RequestModel::ReadConfig(model)) => model == path@,
            (Request::CreateDirectories(path), RequestModel::CreateDirectories(model)) => model
                == path@,
            (Request::EncodeConfig(roots), RequestModel::EncodeConfig(model)) => tell(
                model,
                roots@,
            ),
            (
                Request::WriteFile { path, contents },
                RequestModel::WriteFile { path: place, contents: bytes },
            ) => place == path@ && bytes == contents@,
            (Request::Rename { from, to }, RequestModel::Rename { from: source, to: target }) => {
                source == from@ && target == to@
            },
            _ => false,
        },
{
}

/// The model of a transcript tells the answers, each kind in its order. A transcript
/// without answers is blank.
pub proof fn transcript_is_told(transcript: Transcript, saved: SavedConfig, at: int)
    ensures
        transcript@.reports.len() == transcript.reports@.len(),
        0 <= at < transcript.reports@.len() ==> tells_result(
            transcript@.reports[at],
            transcript.reports@[at],
        ),
        transcript@.resolved.len() == transcript.resolved@.len(),
        0 <= at < transcript.resolved@.len() ==> tells_result(
            transcript@.resolved[at],
            transcript.resolved@[at],
        ),
        transcript@.present == transcript.present@,
        tell(transcript@.configs, transcript.configs@),
        transcript@.encoded.len() == transcript.encoded@.len(),
        0 <= at < transcript.encoded@.len() ==> tells_result(
            transcript@.encoded[at],
            transcript.encoded@[at],
        ),
        transcript@.changes.len() == transcript.changes@.len(),
        0 <= at < transcript.changes@.len() ==> tells_result(
            transcript@.changes[at],
            transcript.changes@[at],
        ),
        tell(saved@, saved.roots@),
        blank_transcript().reports.len() == 0,
        blank_transcript().resolved.len() == 0,
        blank_transcript().present.len() == 0,
        blank_transcript().configs.len() == 0,
        blank_transcript().encoded.len() == 0,
        blank_transcript().changes.len() == 0,
{
}

/// The model of what reading the list came to tells whether there is a file, and what
/// is in it or why that is not known.
pub proof fn config_file_is_told(file: ConfigFile)
    ensures
        match (file, file@) {
            (ConfigFile::Missing, ConfigFileModel::Missing) => true,
            (ConfigFile::Unreadable(error), ConfigFileModel::Unreadable(model)) => model == error@,
            (ConfigFile::Contents(parsed), ConfigFileModel::Contents(model)) => tells_result(
                model,
                parsed,
            ),
            _ => false,
        },
{
}

// ── What Git and GitHub tell ──────────────────────────────────────────────

/// The models of what Git lists tell each value.
pub proof fn git_report_is_told(raw: RawWorktree, status: StatusSummary)
    ensures
        raw@.path == raw.path@,
        tells(raw@.branch, raw.branch),
        raw@.locked == raw.locked,
        status@.dirty_files == status.dirty_files,
        status@.ignored_files == status.ignored_files,
        tells(status@.upstream, status.upstream),
        status@.ahead == status.ahead,
        status@.behind == status.behind,
{
}

/// The models of a diff, its base and a pull request tell each value.
pub proof fn diff_is_told(
    diff: Diff,
    base: DiffBase,
    reference: FoundReference,
    found: FoundBase,
    pull_request: PullRequest,
)
    ensures
        diff@.base == diff.base@,
        diff@.contents == diff.contents@,
        base@.reference == base.reference@,
        base@.description == base.description@,
        tells(reference@.reference, reference.reference),
        reference@.next == reference.next,
        tells_result(found@.base, found.base),
        found@.next == found.next,
        pull_request@.title == pull_request.title@,
        pull_request@.url == pull_request.url@,
{
}

// ── The state ─────────────────────────────────────────────────────────────

/// The model of a worktree tells each value that is known of it.
pub proof fn worktree_is_told(worktree: Worktree, key: WorktreeKey)
    ensures
        worktree@.path == worktree.path@,
        tells(worktree@.branch, worktree.branch),
        worktree@.is_main == worktree.is_main,
        worktree@.locked == worktree.locked,
        worktree@.dirty_files == worktree.dirty_files,
        worktree@.ignored_files == worktree.ignored_files,
        tells(worktree@.upstream, worktree.upstream),
        worktree@.ahead == worktree.ahead,
        worktree@.behind == worktree.behind,
        worktree@.has_remote == worktree.has_remote,
        tells(worktree@.error, worktree.error),
        key@.root_id == key.root_id@,
        key@.path == key.path@,
{
}

/// The models of repositories tell each value that is known of them.
pub proof fn repository_is_told(
    repository: Repository,
    new: NewRepository,
    loaded: LoadedRepositories,
    refresh: Refresh,
)
    ensures
        repository@.id == repository.id@,
        repository@.path == repository.path@,
        tell(repository@.worktrees, repository.worktrees@),
        repository@.refreshing == repository.refreshing,
        repository@.changing == repository.changing,
        tells(repository@.error, repository.error),
        new@.id == new.id@,
        new@.path == new.path@,
        tell(loaded@.repositories, loaded.repositories@),
        tell(loaded@.warnings, loaded.warnings@),
        tell(refresh@, refresh.worktrees@),
{
}

/// The model of the state tells each part of it.
pub proof fn state_is_told(state: State, banner: Banner)
    ensures
        tell(state@.repositories, state.repositories@),
        tells(state@.selected_root, state.selected_root),
        tells(state@.selected_worktree, state.selected_worktree),
        state@.diff == state.diff@,
        tells(state@.pull_request, state.pull_request),
        tells(state@.modal, state.modal),
        tells(state@.banner, state.banner),
        state@.config_saving == state.config_saving,
        state@.config_dirty == state.config_dirty,
        banner@.level == banner.level,
        banner@.message == banner.message@,
{
}

/// The models of a diff that is looked at and of a dialog tell which it is, and each
/// value in it.
pub proof fn diff_state_and_dialog_are_told(diff: DiffState, modal: Modal)
    ensures
        match (diff, diff@) {
            (DiffState::Empty, DiffStateModel::Empty) => true,
            (DiffState::Loading, DiffStateModel::Loading) => true,
            (DiffState::Loaded(loaded), DiffStateModel::Loaded(model)) => model == loaded@,
            (DiffState::Error(message), DiffStateModel::Error(model)) => model == message@,
            _ => false,
        },
        match (modal, modal@) {
            (Modal::AddWorktree { root_id, branch }, model) => {
                &&& model is AddWorktree
                &&& model->AddWorktree_root_id == root_id@
                &&& model->branch == branch@
            },
            (Modal::RemoveWorktree { root_id, path, dirty_files, ignored_files }, model) => {
                &&& model is RemoveWorktree
                &&& model->RemoveWorktree_root_id == root_id@
                &&& model->path == path@
                &&& model->dirty_files == dirty_files
                &&& model->ignored_files == ignored_files
            },
        },
{
}

/// The model of a message tells which it is, and each value in it.
pub proof fn message_is_told(msg: Msg)
    ensures
        match (msg, msg@) {
            (Msg::ConfigLoaded(result), MsgModel::ConfigLoaded(model)) => tells_result(
                model,
                result,
            ),
            (Msg::ConfigSaved(result), MsgModel::ConfigSaved(model)) => tells_result(
                model,
                result,
            ),
            (Msg::ChooseRepository, MsgModel::ChooseRepository) => true,
            (Msg::RepositoryPicked(path), MsgModel::RepositoryPicked(model)) => tells(model, path),
            (Msg::RepositoryAdded(result), MsgModel::RepositoryAdded(model)) => tells_result(
                model,
                result,
            ),
            (Msg::SelectRoot(root_id), MsgModel::SelectRoot(model)) => model == root_id@,
            (Msg::RefreshAll, MsgModel::RefreshAll) => true,
            (Msg::Poll, MsgModel::Poll) => true,
            (
                Msg::RepositoryRefreshed { root_id, result },
                MsgModel::RepositoryRefreshed { root_id: name, result: model },
            ) => name == root_id@ && tells_result(model, result),
            (Msg::ShowAddWorktree, MsgModel::ShowAddWorktree) => true,
            (Msg::BranchChanged(branch), MsgModel::BranchChanged(model)) => model == branch@,
            (Msg::ConfirmAddWorktree, MsgModel::ConfirmAddWorktree) => true,
            (
                Msg::WorktreeAdded { root_id, result },
                MsgModel::WorktreeAdded { root_id: name, result: model },
            ) => name == root_id@ && tells_result(model, result),
            (Msg::WorktreeSelected(key), MsgModel::WorktreeSelected(model)) => model == key@,
            (
                Msg::DiffLoaded { key, result },
                MsgModel::DiffLoaded { key: place, result: model },
            ) => place == key@ && tells_result(model, result),
            (Msg::AskRemoveWorktree(key), MsgModel::AskRemoveWorktree(model)) => model == key@,
            (Msg::ConfirmRemoveWorktree, MsgModel::ConfirmRemoveWorktree) => true,
            (
                Msg::WorktreeRemoved { root_id, path, result },
                MsgModel::WorktreeRemoved { root_id: name, path: place, result: model },
            ) => name == root_id@ && place == path@ && tells_result(model, result),
            (Msg::DismissModal, MsgModel::DismissModal) => true,
            (
                Msg::PullRequestLoaded { key, pull_request },
                MsgModel::PullRequestLoaded { key: place, pull_request: model },
            ) => place == key@ && tells(model, pull_request),
            (Msg::OpenPullRequest(url), MsgModel::OpenPullRequest(model)) => model == url@,
            (Msg::PullRequestOpened(result), MsgModel::PullRequestOpened(model)) => tells_result(
                model,
                result,
            ),
            _ => false,
        },
{
}

/// The model of an action tells which it is, and each value in it.
pub proof fn action_is_told(action: Action)
    ensures
        match (action, action@) {
            (Action::LoadConfig, ActionModel::LoadConfig) => true,
            (Action::SaveConfig(roots), ActionModel::SaveConfig(model)) => tell(model, roots@),
            (Action::PickRepository, ActionModel::PickRepository) => true,
            (Action::ValidateRepository(path), ActionModel::ValidateRepository(model)) => model
                == path@,
            (
                Action::RefreshRepository { root_id, path },
                ActionModel::RefreshRepository { root_id: name, path: place },
            ) => name == root_id@ && place == path@,
            (
                Action::AddWorktree { root_id, root, branch },
                ActionModel::AddWorktree { root_id: name, root: place, branch: model },
            ) => name == root_id@ && place == root@ && model == branch@,
            (
                Action::RemoveWorktree { root_id, root, path, force },
                ActionModel::RemoveWorktree { root_id: name, root: top, path: place, force: model },
            ) => name == root_id@ && top == root@ && place == path@ && model == force,
            (Action::LoadDiff(key), ActionModel::LoadDiff(model)) => model == key@,
            (Action::LoadPullRequest(key), ActionModel::LoadPullRequest(model)) => model == key@,
            (Action::OpenUrl(url), ActionModel::OpenUrl(model)) => model == url@,
            _ => false,
        },
{
}

// ── The screen ────────────────────────────────────────────────────────────

/// The models of buttons, tabs and notices tell each value.
pub proof fn small_parts_are_told(
    button: Button,
    header: Header,
    notice: Notice,
    tab: Tab,
    field: Field,
)
    ensures
        button@.label == button.label@,
        button@.accent == button.accent,
        tells(button@.on_press, button.on_press),
        header@.title == header.title@,
        header@.subtitle == header.subtitle@,
        tell(header@.buttons, header.buttons@),
        notice@.accent == notice.accent,
        notice@.message == notice.message@,
        tab@.label == tab.label@,
        tab@.selected == tab.selected,
        tab@.on_press == tab.on_press@,
        field@.placeholder == field.placeholder@,
        field@.value == field.value@,
{
}

/// The models of a card and of what stands on it for its removal tell each value.
pub proof fn card_is_told(card: Card, removal: Removal)
    ensures
        card@.name == card.name@,
        card@.path == card.path@,
        card@.details == card.details@,
        card@.failed == card.failed,
        card@.selected == card.selected,
        card@.on_press == card.on_press@,
        card@.removal == card.removal@,
        match (removal, removal@) {
            (Removal::Root(label), RemovalModel::Root(model)) => model == label@,
            (Removal::Offered(button), RemovalModel::Offered(model)) => model == button@,
            _ => false,
        },
{
}

/// The models of the panels tell each value.
pub proof fn panels_are_told(link: PullRequestLink, panel: DiffPanel, panels: Panels)
    ensures
        link@.title == link.title@,
        link@.url == link.url@,
        link@.open == link.open@,
        panel@.title == panel.title@,
        panel@.caption == panel.caption@,
        tells(panel@.contents, panel.contents),
        tells(panel@.pull_request, panel.pull_request),
        panels@.heading == panels.heading@,
        panels@.activity == panels.activity@,
        tells(panels@.error, panels.error),
        tells(panels@.notice, panels.notice),
        tell(panels@.cards, panels.cards@),
        panels@.diff == panels.diff@,
{
}

/// The models of the window and of what it is made of tell each part.
pub proof fn screen_is_told(body: Body, content: Content, dialog: Dialog, screen: Screen)
    ensures
        match (body, body@) {
            (Body::Prompt(text), BodyModel::Prompt(model)) => model == text@,
            (Body::Selected(panels), BodyModel::Selected(model)) => model == panels@,
            _ => false,
        },
        match (content, content@) {
            (
                Content::Welcome { title, hint },
                ContentModel::Welcome { title: heading, hint: model },
            ) => heading == title@ && model == hint@,
            (
                Content::Repositories { tabs, body: below },
                ContentModel::Repositories { tabs: models, body: model },
            ) => tell(models, tabs@) && model == below@,
            _ => false,
        },
        dialog@.title == dialog.title@,
        dialog@.subtitle == dialog.subtitle@,
        tells(dialog@.field, dialog.field),
        tells(dialog@.warning, dialog.warning),
        tells(dialog@.note, dialog.note),
        dialog@.cancel == dialog.cancel@,
        dialog@.confirm == dialog.confirm@,
        dialog@.on_dismiss == dialog.on_dismiss@,
        screen@.header == screen.header@,
        tells(screen@.banner, screen.banner),
        screen@.content == screen.content@,
        tells(screen@.dialog, screen.dialog),
{
}

} // verus!
