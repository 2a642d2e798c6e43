//! What the window shows, in words; how it looks is left to whoever draws it.
use vstd::prelude::*;
use vstd::string::*;
use vstd::utf8::{decode_utf8, valid_utf8};

use crate::diff::{PullRequest, PullRequestModel};
use crate::encoding::lossy_text;
use crate::number::{decimal, decimal_text};
use crate::path::file_name;
use crate::state::{find_repository, repository, same_key, Banner, BannerLevel, BannerModel, DiffState, DiffStateModel, Modal, ModalModel, Msg, MsgModel, Repository, RepositoryModel, State, StateModel, Worktree, WorktreeKey, WorktreeKeyModel, WorktreeModel};
use crate::text::{is_blank, join, join2, join3, same_text, separated, trimmed};
use crate::views::{option_view, views, views_push};

verus! {

// ── Buttons ───────────────────────────────────────────────────────────────

/// A colour of the palette.
#[derive(Debug, Clone, Copy, PartialEq, Eq, Structural)]
pub enum Accent {
    Muted,
    Primary,
    Success,
    Danger,
}

/// A button. One without a message cannot be pressed.
#[derive(Debug, PartialEq, Eq)]
pub struct Button {
    pub label: String,
    pub accent: Accent,
    pub on_press: Option<Msg>,
}

/// What a `Button` holds.
pub struct ButtonModel {
    pub label: Seq<char>,
    pub accent: Accent,
    pub on_press: Option<MsgModel>,
}

impl View for Button {
    type V = ButtonModel;

    open spec fn view(&self) -> ButtonModel {
        ButtonModel {
            label: self.label@,
            accent: self.accent,
            on_press: option_view(self.on_press),
        }
    }
}

/// A button that sends `message`.
pub open spec fn button(label: Seq<char>, accent: Accent, message: MsgModel) -> ButtonModel {
    ButtonModel { label, accent, on_press: Some(message) }
}

/// A button that sends `message`, or cannot be pressed unless `enabled`.
pub open spec fn button_if(
    label: Seq<char>,
    accent: Accent,
    enabled: bool,
    message: MsgModel,
) -> ButtonModel {
    ButtonModel {
        label,
        accent,
        on_press: if enabled {
            Some(message)
        } else {
            None
        },
    }
}

/// A button.
pub fn action_button(label: &str, accent: Accent, on_press: Option<Msg>) -> (button: Button)
    ensures
        button@ == (ButtonModel { label: label@, accent, on_press: option_view(on_press) }),
{
    Button { label: label.to_owned(), accent, on_press }
}

// ── The header and the banner ─────────────────────────────────────────────

/// The top of the window.
#[derive(Debug, PartialEq, Eq)]
pub struct Header {
    pub title: String,
    pub subtitle: String,
    pub buttons: Vec<Button>,
}

/// What a `Header` holds.
pub struct HeaderModel {
    pub title: Seq<char>,
    pub subtitle: Seq<char>,
    pub buttons: Seq<ButtonModel>,
}

impl View for Header {
    type V = HeaderModel;

    open spec fn view(&self) -> HeaderModel {
        HeaderModel {
            title: self.title@,
            subtitle: self.subtitle@,
            buttons: views(self.buttons@),
        }
    }
}

/// Whether a listed repository is selected, and none of its worktrees is being
/// added or removed.
pub open spec fn selected_is_idle(state: StateModel) -> bool {
    match state.selected_root {
        Some(root_id) => match find_repository(state, root_id) {
            Some(repository) => !repository.changing,
            None => false,
        },
        None => false,
    }
}

/// The top of the window.
pub open spec fn header_model(state: StateModel) -> HeaderModel {
    HeaderModel {
        title: "wtui"@,
        subtitle: "Manage Git worktrees without blocking your desktop."@,
        buttons: seq![
            button("Add repository"@, Accent::Primary, MsgModel::ChooseRepository),
            button("Refresh"@, Accent::Primary, MsgModel::RefreshAll),
            button_if(
                "Add worktree"@,
                Accent::Success,
                selected_is_idle(state),
                MsgModel::ShowAddWorktree,
            ),
        ],
    }
}

/// The selected repository, if it is listed.
fn selected_repository(state: &State) -> (found: Option<&Repository>)
    ensures
        match state@.selected_root {
            Some(root_id) => match found {
                Some(repository) => find_repository(state@, root_id) == Some(repository@),
                None => find_repository(state@, root_id) is None,
            },
            None => found is None,
        },
{
    match &state.selected_root {
        Some(root_id) => repository(state, root_id.as_str()),
        None => None,
    }
}

/// The top of the window.
pub fn header(state: &State) -> (header: Header)
    ensures
        header@ == header_model(state@),
{
    let idle = match selected_repository(state) {
        Some(repository) => !repository.changing,
        None => false,
    };
    let add = if idle {
        Some(Msg::ShowAddWorktree)
    } else {
        None
    };
    let buttons = vec![
        action_button("Add repository", Accent::Primary, Some(Msg::ChooseRepository)),
        action_button("Refresh", Accent::Primary, Some(Msg::RefreshAll)),
        action_button("Add worktree", Accent::Success, add),
    ];
    assert(views(buttons@) =~= header_model(state@).buttons);
    Header {
        title: "wtui".to_owned(),
        subtitle: "Manage Git worktrees without blocking your desktop.".to_owned(),
        buttons,
    }
}

/// A message in a colour.
#[derive(Debug, PartialEq, Eq)]
pub struct Notice {
    pub accent: Accent,
    pub message: String,
}

/// What a `Notice` holds.
pub struct NoticeModel {
    pub accent: Accent,
    pub message: Seq<char>,
}

impl View for Notice {
    type V = NoticeModel;

    open spec fn view(&self) -> NoticeModel {
        NoticeModel { accent: self.accent, message: self.message@ }
    }
}

/// A banner, in the colour of its level.
pub open spec fn banner_model(banner: BannerModel) -> NoticeModel {
    NoticeModel {
        accent: match banner.level {
            BannerLevel::Success => Accent::Success,
            BannerLevel::Error => Accent::Danger,
            BannerLevel::Info => Accent::Primary,
        },
        message: banner.message,
    }
}

/// A banner, in the colour of its level.
pub fn banner_view(banner: &Banner) -> (notice: Notice)
    ensures
        notice@ == banner_model(banner@),
{
    let accent = match banner.level {
        BannerLevel::Success => Accent::Success,
        BannerLevel::Error => Accent::Danger,
        BannerLevel::Info => Accent::Primary,
    };
    Notice { accent, message: banner.message.clone() }
}

// ── Tabs ──────────────────────────────────────────────────────────────────

/// The tab of a repository.
#[derive(Debug, PartialEq, Eq)]
pub struct Tab {
    pub label: String,
    pub selected: bool,
    pub on_press: Msg,
}

/// What a `Tab` holds.
pub struct TabModel {
    pub label: Seq<char>,
    pub selected: bool,
    pub on_press: MsgModel,
}

impl View for Tab {
    type V = TabModel;

    open spec fn view(&self) -> TabModel {
        TabModel { label: self.label@, selected: self.selected, on_press: self.on_press@ }
    }
}

/// The name of a repository: that of its directory, where that is Unicode.
pub open spec fn repository_name(path: Seq<u8>) -> Seq<char> {
    match file_name(path) {
        Some(name) => if valid_utf8(name) {
            decode_utf8(name)
        } else {
            "repository"@
        },
        None => "repository"@,
    }
}

/// The tab of a repository.
pub open spec fn tab_model(state: StateModel, repository: RepositoryModel) -> TabModel {
    TabModel {
        label: repository_name(repository.path),
        selected: state.selected_root == Some(repository.id),
        on_press: MsgModel::SelectRoot(repository.id),
    }
}

/// A tab that selects the repository called `id`.
pub fn tab_button(label: &str, selected: bool, id: String) -> (tab: Tab)
    ensures
        tab@ == (TabModel { label: label@, selected, on_press: MsgModel::SelectRoot(id@) }),
{
    Tab { label: label.to_owned(), selected, on_press: Msg::SelectRoot(id) }
}

/// The tab of a repository.
fn repository_tab(state: &State, repository: &Repository) -> (tab: Tab)
    ensures
        tab@ == tab_model(state@, repository@),
{
    let name = match repository.path.file_name_text() {
        Some(name) => name,
        None => "repository".to_owned(),
    };
    let selected = match &state.selected_root {
        Some(root_id) => same_text(root_id.as_str(), repository.id.as_str()),
        None => false,
    };
    tab_button(name.as_str(), selected, repository.id.clone())
}

// ── The state of a worktree ───────────────────────────────────────────────

/// How a worktree stands to its upstream branch.
pub open spec fn tracking_text(worktree: WorktreeModel) -> Seq<char> {
    match worktree.upstream {
        Some(upstream) => " · "@ + upstream + match (worktree.ahead, worktree.behind) {
            (Some(ahead), Some(behind)) => if ahead > 0 || behind > 0 {
                " · ↑"@ + decimal(ahead as nat) + " ↓"@ + decimal(behind as nat)
            } else {
                " · pushed"@
            },
            _ => " · upstream status unavailable"@,
        },
        None => if worktree.has_remote {
            " · no upstream branch"@
        } else {
            " · no remote"@
        },
    }
}

/// The state of a worktree in a line.
pub open spec fn status_text(worktree: WorktreeModel) -> Seq<char> {
    let dirty = if worktree.dirty_files == 0 {
        "clean"@
    } else {
        decimal(worktree.dirty_files) + " uncommitted"@
    };
    let ignored = if worktree.ignored_files > 0 {
        " · "@ + decimal(worktree.ignored_files) + " ignored"@
    } else {
        Seq::empty()
    };
    dirty + ignored + tracking_text(worktree)
}

/// The state of a worktree in a line.
pub fn worktree_status(worktree: &Worktree) -> (status: String)
    ensures
        status@ == status_text(worktree@),
{
    let mut status = if worktree.dirty_files == 0 {
        "clean".to_owned()
    } else {
        join2(decimal_text(worktree.dirty_files as u64).as_str(), " uncommitted")
    };
    let mut ignored = String::new();
    if worktree.ignored_files > 0 {
        ignored = join3(" · ", decimal_text(worktree.ignored_files as u64).as_str(), " ignored");
    }
    status.append(ignored.as_str());
    let mut tracking = String::new();
    match &worktree.upstream {
        Some(upstream) => {
            let standing = match (worktree.ahead, worktree.behind) {
                (Some(ahead), Some(behind)) => {
                    if ahead > 0 || behind > 0 {
                        let mut counts = join2(" · ↑", decimal_text(ahead as u64).as_str());
                        counts.append(" ↓");
                        counts.append(decimal_text(behind as u64).as_str());
                        counts
                    } else {
                        " · pushed".to_owned()
                    }
                },
                _ => " · upstream status unavailable".to_owned(),
            };
            tracking = join3(" · ", upstream.as_str(), standing.as_str());
        },
        None => {
            if worktree.has_remote {
                tracking = " · no upstream branch".to_owned();
            } else {
                tracking = " · no remote".to_owned();
            }
        },
    }
    assert(tracking@ == tracking_text(worktree@));
    status.append(tracking.as_str());
    status
}

// ── The card of a worktree ────────────────────────────────────────────────

/// What stands beside a worktree for its removal.
#[derive(Debug, PartialEq, Eq)]
pub enum Removal {
    /// The root worktree is not to be removed; this says which it is.
    Root(String),
    /// A button that asks for the removal.
    Offered(Button),
}

/// What a `Removal` holds.
pub enum RemovalModel {
    Root(Seq<char>),
    Offered(ButtonModel),
}

impl View for Removal {
    type V = RemovalModel;

    open spec fn view(&self) -> RemovalModel {
        match *self {
            Removal::Root(label) => RemovalModel::Root(label@),
            Removal::Offered(button) => RemovalModel::Offered(button@),
        }
    }
}

/// The card of a worktree.
#[derive(Debug, PartialEq, Eq)]
pub struct Card {
    pub name: String,
    pub path: String,
    pub details: String,
    /// Whether the details tell of an error.
    pub failed: bool,
    pub selected: bool,
    pub on_press: Msg,
    pub removal: Removal,
}

/// What a `Card` holds.
pub struct CardModel {
    pub name: Seq<char>,
    pub path: Seq<char>,
    pub details: Seq<char>,
    pub failed: bool,
    pub selected: bool,
    pub on_press: MsgModel,
    pub removal: RemovalModel,
}

impl View for Card {
    type V = CardModel;

    open spec fn view(&self) -> CardModel {
        CardModel {
            name: self.name@,
            path: self.path@,
            details: self.details@,
            failed: self.failed,
            selected: self.selected,
            on_press: self.on_press@,
            removal: self.removal@,
        }
    }
}

/// The details of a worktree: its state, whether it is locked, and its error.
pub open spec fn details(worktree: WorktreeModel) -> Seq<Seq<char>> {
    let state = seq![status_text(worktree)];
    let lock = if worktree.locked {
        state.push("locked"@)
    } else {
        state
    };
    match worktree.error {
        Some(error) => lock.push(error),
        None => lock,
    }
}

/// The card of a worktree.
pub open spec fn card_model(
    state: StateModel,
    repository: RepositoryModel,
    worktree: WorktreeModel,
) -> CardModel {
    let key = WorktreeKeyModel { root_id: repository.id, path: worktree.path };
    CardModel {
        name: match worktree.branch {
            Some(branch) => branch,
            None => "(detached HEAD)"@,
        },
        path: lossy_text(worktree.path),
        details: separated(details(worktree), " · "@),
        failed: worktree.error is Some,
        selected: match state.selected_worktree {
            Some(selected) => same_key(selected, key),
            None => false,
        },
        on_press: MsgModel::WorktreeSelected(key),
        removal: if worktree.is_main {
            RemovalModel::Root("root"@)
        } else {
            RemovalModel::Offered(
                button_if(
                    "Remove"@,
                    Accent::Danger,
                    !repository.changing,
                    MsgModel::AskRemoveWorktree(key),
                ),
            )
        },
    }
}

/// The card of a worktree.
pub fn worktree_card(state: &State, repository: &Repository, worktree: &Worktree) -> (card: Card)
    ensures
        card@ == card_model(state@, repository@, worktree@),
{
    let key = WorktreeKey { root_id: repository.id.clone(), path: worktree.path.clone() };
    let selected = match &state.selected_worktree {
        Some(selected) => selected.same_key(&key),
        None => false,
    };
    let name = match &worktree.branch {
        Some(branch) => branch.clone(),
        None => "(detached HEAD)".to_owned(),
    };
    let mut lines: Vec<String> = Vec::new();
    lines.push(worktree_status(worktree));
    if worktree.locked {
        lines.push("locked".to_owned());
    }
    if let Some(error) = &worktree.error {
        lines.push(error.clone());
    }
    assert(views(lines@) =~= details(worktree@));
    let removal = if worktree.is_main {
        Removal::Root("root".to_owned())
    } else {
        let ask = if repository.changing {
            None
        } else {
            Some(Msg::AskRemoveWorktree(key.clone()))
        };
        Removal::Offered(action_button("Remove", Accent::Danger, ask))
    };
    Card {
        name,
        path: worktree.path.to_text(),
        details: join(&lines, " · "),
        failed: worktree.error.is_some(),
        selected,
        on_press: Msg::WorktreeSelected(key),
        removal,
    }
}

// ── The diff ──────────────────────────────────────────────────────────────

/// The pull request of the selected worktree.
#[derive(Debug, PartialEq, Eq)]
pub struct PullRequestLink {
    pub title: String,
    pub url: String,
    /// Opens the pull request in the browser.
    pub open: Button,
}

/// What a `PullRequestLink` holds.
pub struct PullRequestLinkModel {
    pub title: Seq<char>,
    pub url: Seq<char>,
    pub open: ButtonModel,
}

impl View for PullRequestLink {
    type V = PullRequestLinkModel;

    open spec fn view(&self) -> PullRequestLinkModel {
        PullRequestLinkModel { title: self.title@, url: self.url@, open: self.open@ }
    }
}

/// A pull request as it is shown.
pub open spec fn link_model(pull_request: PullRequestModel) -> PullRequestLinkModel {
    PullRequestLinkModel {
        title: pull_request.title,
        url: pull_request.url,
        open: button(
            "Open pull request"@,
            Accent::Primary,
            MsgModel::OpenPullRequest(pull_request.url),
        ),
    }
}

/// A pull request as it is shown.
fn pull_request_link(pull_request: &PullRequest) -> (link: PullRequestLink)
    ensures
        link@ == link_model(pull_request@),
{
    PullRequestLink {
        title: pull_request.title.clone(),
        url: pull_request.url.clone(),
        open: action_button(
            "Open pull request",
            Accent::Primary,
            Some(Msg::OpenPullRequest(pull_request.url.clone())),
        ),
    }
}

/// The diff of the selected worktree, and its pull request.
#[derive(Debug, PartialEq, Eq)]
pub struct DiffPanel {
    pub title: String,
    pub caption: Notice,
    pub contents: Option<String>,
    pub pull_request: Option<PullRequestLink>,
}

/// What a `DiffPanel` holds.
pub struct DiffPanelModel {
    pub title: Seq<char>,
    pub caption: NoticeModel,
    pub contents: Option<Seq<char>>,
    pub pull_request: Option<PullRequestLinkModel>,
}

impl View for DiffPanel {
    type V = DiffPanelModel;

    open spec fn view(&self) -> DiffPanelModel {
        DiffPanelModel {
            title: self.title@,
            caption: self.caption@,
            contents: option_view(self.contents),
            pull_request: option_view(self.pull_request),
        }
    }
}

/// The diff of the selected worktree, and its pull request.
pub open spec fn diff_panel_model(state: StateModel) -> DiffPanelModel {
    DiffPanelModel {
        title: "Branch diff"@,
        caption: match state.diff {
            DiffStateModel::Empty => NoticeModel {
                accent: Accent::Muted,
                message: "Select a worktree to compare it with its PR base branch."@,
            },
            DiffStateModel::Loading => NoticeModel {
                accent: Accent::Primary,
                message: "Loading diff…"@,
            },
            DiffStateModel::Loaded(diff) => NoticeModel {
                accent: Accent::Muted,
                message: "Against "@ + diff.base,
            },
            DiffStateModel::Error(message) => NoticeModel { accent: Accent::Danger, message },
        },
        contents: match state.diff {
            DiffStateModel::Loaded(diff) => Some(diff.contents),
            _ => None,
        },
        pull_request: match state.pull_request {
            Some(pull_request) => Some(link_model(pull_request)),
            None => None,
        },
    }
}

/// The diff of the selected worktree, and its pull request.
pub fn diff_panel(state: &State) -> (panel: DiffPanel)
    ensures
        panel@ == diff_panel_model(state@),
{
    let caption = match &state.diff {
        DiffState::Empty => Notice {
            accent: Accent::Muted,
            message: "Select a worktree to compare it with its PR base branch.".to_owned(),
        },
        DiffState::Loading => Notice {
            accent: Accent::Primary,
            message: "Loading diff…".to_owned(),
        },
        DiffState::Loaded(diff) => Notice {
            accent: Accent::Muted,
            message: join2("Against ", diff.base.as_str()),
        },
        DiffState::Error(message) => Notice { accent: Accent::Danger, message: message.clone() },
    };
    let contents = match &state.diff {
        DiffState::Loaded(diff) => Some(diff.contents.clone()),
        _ => None,
    };
    let pull_request = match &state.pull_request {
        Some(pull_request) => Some(pull_request_link(pull_request)),
        None => None,
    };
    DiffPanel { title: "Branch diff".to_owned(), caption, contents, pull_request }
}

// ── The panels of a repository ────────────────────────────────────────────

/// The worktrees of a repository, and the diff of the selected one.
#[derive(Debug, PartialEq, Eq)]
pub struct Panels {
    pub heading: String,
    pub activity: String,
    pub error: Option<String>,
    pub notice: Option<String>,
    pub cards: Vec<Card>,
    pub diff: DiffPanel,
}

/// What a `Panels` holds.
pub struct PanelsModel {
    pub heading: Seq<char>,
    pub activity: Seq<char>,
    pub error: Option<Seq<char>>,
    pub notice: Option<Seq<char>>,
    pub cards: Seq<CardModel>,
    pub diff: DiffPanelModel,
}

impl View for Panels {
    type V = PanelsModel;

    open spec fn view(&self) -> PanelsModel {
        PanelsModel {
            heading: self.heading@,
            activity: self.activity@,
            error: option_view(self.error),
            notice: option_view(self.notice),
            cards: views(self.cards@),
            diff: self.diff@,
        }
    }
}

/// What is under way in a repository.
pub open spec fn activity(repository: RepositoryModel) -> Seq<char> {
    if repository.changing {
        "Working…"@
    } else if repository.refreshing {
        "Refreshing…"@
    } else {
        ""@
    }
}

/// The worktrees of a repository, and the diff of the selected one.
pub open spec fn panels_model(state: StateModel, repository: RepositoryModel) -> PanelsModel {
    PanelsModel {
        heading: "Worktrees ("@ + decimal(repository.worktrees.len()) + ")"@,
        activity: activity(repository),
        error: repository.error,
        notice: if repository.worktrees.len() == 0 && !repository.refreshing
            && repository.error is None {
            Some("No worktrees found."@)
        } else {
            None
        },
        cards: repository.worktrees.map_values(
            |worktree: WorktreeModel| card_model(state, repository, worktree),
        ),
        diff: diff_panel_model(state),
    }
}

/// The worktrees of a repository, and the diff of the selected one.
pub fn worktree_and_diff(state: &State, repository: &Repository) -> (panels: Panels)
    ensures
        panels@ == panels_model(state@, repository@),
{
    let activity = if repository.changing {
        "Working…"
    } else if repository.refreshing {
        "Refreshing…"
    } else {
        ""
    };
    let notice = if repository.worktrees.len() == 0 && !repository.refreshing
        && repository.error.is_none() {
        Some("No worktrees found.".to_owned())
    } else {
        None
    };
    let mut cards: Vec<Card> = Vec::new();
    let ghost all = panels_model(state@, repository@).cards;
    for i in 0..repository.worktrees.len()
        invariant
            all == panels_model(state@, repository@).cards,
            views(cards@) == all.take(i as int),
    {
        let card = worktree_card(state, repository, &repository.worktrees[i]);
        assert(card@ == all[i as int]);
        proof {
            views_push(cards@, card);
        }
        cards.push(card);
        assert(all.take(i + 1) == all.take(i as int).push(card@));
    }
    assert(all.take(all.len() as int) == all);
    let count = decimal_text(repository.worktrees.len() as u64);
    Panels {
        heading: join3("Worktrees (", count.as_str(), ")"),
        activity: activity.to_owned(),
        error: repository.error.clone(),
        notice,
        cards,
        diff: diff_panel(state),
    }
}

/// What stands below the tabs.
#[derive(Debug, PartialEq, Eq)]
pub enum Body {
    /// No repository is selected.
    Prompt(String),
    /// The selected repository.
    Selected(Panels),
}

/// What a `Body` holds.
pub enum BodyModel {
    Prompt(Seq<char>),
    Selected(PanelsModel),
}

impl View for Body {
    type V = BodyModel;

    open spec fn view(&self) -> BodyModel {
        match *self {
            Body::Prompt(text) => BodyModel::Prompt(text@),
            Body::Selected(panels) => BodyModel::Selected(panels@),
        }
    }
}

/// The greater part of the window.
#[derive(Debug, PartialEq, Eq)]
pub enum Content {
    /// No repository is listed.
    Welcome { title: String, hint: String },
    /// The listed repositories.
    Repositories { tabs: Vec<Tab>, body: Body },
}

/// What a `Content` holds.
pub enum ContentModel {
    Welcome { title: Seq<char>, hint: Seq<char> },
    Repositories { tabs: Seq<TabModel>, body: BodyModel },
}

impl View for Content {
    type V = ContentModel;

    open spec fn view(&self) -> ContentModel {
        match *self {
            Content::Welcome { title, hint } => ContentModel::Welcome { title: title@, hint: hint@ },
            Content::Repositories { tabs, body } => ContentModel::Repositories {
                tabs: views(tabs@),
                body: body@,
            },
        }
    }
}

/// The tabs of the listed repositories.
pub open spec fn tab_models(state: StateModel) -> Seq<TabModel> {
    state.repositories.map_values(|repository: RepositoryModel| tab_model(state, repository))
}

/// What stands below the tabs.
pub open spec fn body_model(state: StateModel) -> BodyModel {
    match state.selected_root {
        Some(root_id) => match find_repository(state, root_id) {
            Some(repository) => BodyModel::Selected(panels_model(state, repository)),
            None => BodyModel::Prompt("Select a repository."@),
        },
        None => BodyModel::Prompt("Select a repository."@),
    }
}

/// The greater part of the window.
pub open spec fn content_model(state: StateModel) -> ContentModel {
    if state.repositories.len() == 0 {
        ContentModel::Welcome {
            title: "No repositories yet."@,
            hint: "Select a checked-out Git repository to list and manage its worktrees."@,
        }
    } else {
        ContentModel::Repositories { tabs: tab_models(state), body: body_model(state) }
    }
}

/// The greater part of the window.
pub fn main_content(state: &State) -> (content: Content)
    ensures
        content@ == content_model(state@),
{
    if state.repositories.len() == 0 {
        return Content::Welcome {
            title: "No repositories yet.".to_owned(),
            hint: "Select a checked-out Git repository to list and manage its worktrees.".to_owned(),
        };
    }
    let mut tabs: Vec<Tab> = Vec::new();
    let ghost all = tab_models(state@);
    for i in 0..state.repositories.len()
        invariant
            all == tab_models(state@),
            views(tabs@) == all.take(i as int),
    {
        let tab = repository_tab(state, &state.repositories[i]);
        assert(tab@ == all[i as int]);
        proof {
            views_push(tabs@, tab);
        }
        tabs.push(tab);
        assert(all.take(i + 1) == all.take(i as int).push(tab@));
    }
    assert(all.take(all.len() as int) == all);
    let body = match selected_repository(state) {
        Some(repository) => Body::Selected(worktree_and_diff(state, repository)),
        None => Body::Prompt("Select a repository.".to_owned()),
    };
    Content::Repositories { tabs, body }
}

// ── Dialogs ───────────────────────────────────────────────────────────────

/// A field to type in.
#[derive(Debug, PartialEq, Eq)]
pub struct Field {
    /// What stands in the field while it is empty.
    pub placeholder: String,
    pub value: String,
}

/// What a `Field` holds.
pub struct FieldModel {
    pub placeholder: Seq<char>,
    pub value: Seq<char>,
}

impl View for Field {
    type V = FieldModel;

    open spec fn view(&self) -> FieldModel {
        FieldModel { placeholder: self.placeholder@, value: self.value@ }
    }
}

/// A dialog over the window. A press outside it dismisses it.
#[derive(Debug, PartialEq, Eq)]
pub struct Dialog {
    pub title: String,
    pub subtitle: String,
    /// The field for the name of the branch.
    pub field: Option<Field>,
    pub warning: Option<String>,
    /// What becomes of the branch, where the warning does not say so.
    pub note: Option<String>,
    pub cancel: Button,
    pub confirm: Button,
    pub on_dismiss: Msg,
}

/// What a `Dialog` holds.
pub struct DialogModel {
    pub title: Seq<char>,
    pub subtitle: Seq<char>,
    pub field: Option<FieldModel>,
    pub warning: Option<Seq<char>>,
    pub note: Option<Seq<char>>,
    pub cancel: ButtonModel,
    pub confirm: ButtonModel,
    pub on_dismiss: MsgModel,
}

impl View for Dialog {
    type V = DialogModel;

    open spec fn view(&self) -> DialogModel {
        DialogModel {
            title: self.title@,
            subtitle: self.subtitle@,
            field: option_view(self.field),
            warning: option_view(self.warning),
            note: option_view(self.note),
            cancel: self.cancel@,
            confirm: self.confirm@,
            on_dismiss: self.on_dismiss@,
        }
    }
}

/// What the removal of a worktree would do.
pub open spec fn removal_warning(dirty_files: nat, ignored_files: nat) -> Seq<char> {
    if dirty_files > 0 || ignored_files > 0 {
        "This worktree has "@ + decimal(dirty_files) + " uncommitted and "@ + decimal(ignored_files)
            + " ignored file(s). Remove anyway? This runs Git with --force."@
    } else {
        "This removes the worktree through Git. The branch stays available unless its pull request was merged."@
    }
}

/// A dialog over the window.
pub open spec fn dialog_model(modal: ModalModel) -> DialogModel {
    match modal {
        ModalModel::AddWorktree { branch, .. } => DialogModel {
            title: "Add worktree"@,
            subtitle: "The new directory is a sibling named <root>-<branch-slug>."@,
            field: Some(FieldModel { placeholder: "Branch name"@, value: branch }),
            warning: None,
            note: None,
            cancel: button("Cancel"@, Accent::Primary, MsgModel::DismissModal),
            confirm: button_if(
                "Create"@,
                Accent::Success,
                trimmed(branch).len() > 0,
                MsgModel::ConfirmAddWorktree,
            ),
            on_dismiss: MsgModel::DismissModal,
        },
        ModalModel::RemoveWorktree { path, dirty_files, ignored_files, .. } => DialogModel {
            title: "Remove worktree"@,
            subtitle: lossy_text(path),
            field: None,
            warning: Some(removal_warning(dirty_files, ignored_files)),
            note: if dirty_files > 0 || ignored_files > 0 {
                Some("The branch stays available unless its pull request was merged."@)
            } else {
                None
            },
            cancel: button("Cancel"@, Accent::Primary, MsgModel::DismissModal),
            confirm: button(
                if dirty_files > 0 || ignored_files > 0 {
                    "Remove anyway"@
                } else {
                    "Remove"@
                },
                Accent::Danger,
                MsgModel::ConfirmRemoveWorktree,
            ),
            on_dismiss: MsgModel::DismissModal,
        },
    }
}

/// What the removal of a worktree would do.
fn warn_of_removal(dirty_files: usize, ignored_files: usize) -> (warning: String)
    ensures
        warning@ == removal_warning(dirty_files as nat, ignored_files as nat),
{
    if dirty_files > 0 || ignored_files > 0 {
        let mut warning = join3(
            "This worktree has ",
            decimal_text(dirty_files as u64).as_str(),
            " uncommitted and ",
        );
        warning.append(decimal_text(ignored_files as u64).as_str());
        warning.append(" ignored file(s). Remove anyway? This runs Git with --force.");
        warning
    } else {
        "This removes the worktree through Git. The branch stays available unless its pull request was merged.".to_owned()
    }
}

/// A dialog over the window.
pub fn modal_view(modal: &Modal) -> (dialog: Dialog)
    ensures
        dialog@ == dialog_model(modal@),
{
    let cancel = action_button("Cancel", Accent::Primary, Some(Msg::DismissModal));
    match modal {
        Modal::AddWorktree { branch, .. } => {
            let submit = if is_blank(branch.as_str()) {
                None
            } else {
                Some(Msg::ConfirmAddWorktree)
            };
            Dialog {
                title: "Add worktree".to_owned(),
                subtitle: "The new directory is a sibling named <root>-<branch-slug>.".to_owned(),
                field: Some(
                    Field { placeholder: "Branch name".to_owned(), value: branch.clone() },
                ),
                warning: None,
                note: None,
                cancel,
                confirm: action_button("Create", Accent::Success, submit),
                on_dismiss: Msg::DismissModal,
            }
        },
        Modal::RemoveWorktree { path, dirty_files, ignored_files, .. } => {
            let guarded = *dirty_files > 0 || *ignored_files > 0;
            let label = if guarded {
                "Remove anyway"
            } else {
                "Remove"
            };
            let note = if guarded {
                Some("The branch stays available unless its pull request was merged.".to_owned())
            } else {
                None
            };
            Dialog {
                title: "Remove worktree".to_owned(),
                subtitle: path.to_text(),
                field: None,
                warning: Some(warn_of_removal(*dirty_files, *ignored_files)),
                note,
                cancel,
                confirm: action_button(label, Accent::Danger, Some(Msg::ConfirmRemoveWorktree)),
                on_dismiss: Msg::DismissModal,
            }
        },
    }
}

// ── The window ────────────────────────────────────────────────────────────

/// All that the window shows.
#[derive(Debug, PartialEq, Eq)]
pub struct Screen {
    pub header: Header,
    pub banner: Option<Notice>,
    pub content: Content,
    pub dialog: Option<Dialog>,
}

/// What a `Screen` holds.
pub struct ScreenModel {
    pub header: HeaderModel,
    pub banner: Option<NoticeModel>,
    pub content: ContentModel,
    pub dialog: Option<DialogModel>,
}

impl View for Screen {
    type V = ScreenModel;

    open spec fn view(&self) -> ScreenModel {
        ScreenModel {
            header: self.header@,
            banner: option_view(self.banner),
            content: self.content@,
            dialog: option_view(self.dialog),
        }
    }
}

/// All that the window shows.
pub open spec fn screen_model(state: StateModel) -> ScreenModel {
    ScreenModel {
        header: header_model(state),
        banner: match state.banner {
            Some(banner) => Some(banner_model(banner)),
            None => None,
        },
        content: content_model(state),
        dialog: match state.modal {
            Some(modal) => Some(dialog_model(modal)),
            None => None,
        },
    }
}

/// All that the window shows.
pub fn view(state: &State) -> (screen: Screen)
    ensures
        screen@ == screen_model(state@),
{
    let banner = match &state.banner {
        Some(banner) => Some(banner_view(banner)),
        None => None,
    };
    let dialog = match &state.modal {
        Some(modal) => Some(modal_view(modal)),
        None => None,
    };
    Screen { header: header(state), banner, content: main_content(state), dialog }
}

} // verus!
