//! Work that goes back and forth between decisions and the outside world.
//!
//! An operation is a function of its inputs and of a `Transcript`: the answers
//! that its requests have had so far. It returns the next request, or, once the
//! answers suffice, its result. Whoever runs it performs the request, appends the
//! answer to the transcript and calls it again.
use vstd::prelude::*;

use crate::command::{Command, CommandModel};
use crate::path::FilePath;
use crate::views::{option_view, result_view, views};

verus! {

/// What an operation does next.
#[derive(Debug, PartialEq, Eq)]
pub enum Step<Q, T> {
    /// It needs an answer to this request.
    Ask(Q),
    /// It has come to this result.
    Done(T),
}

/// Something that only the outside world can do.
#[derive(Debug, PartialEq, Eq)]
pub enum Request {
    /// Run a command; the answer is what it reports.
    Run(Command),
    /// Resolve the links in a path.
    Canonicalize(FilePath),
    /// See whether something stands at a path.
    CheckExists(FilePath),
    /// Read the list of saved repositories.
    ReadConfig(FilePath),
    /// Create a directory and those that it stands in.
    CreateDirectories(FilePath),
    /// Spell out the list of repositories as the contents of a file.
    EncodeConfig(Vec<String>),
    /// Write a file.
    WriteFile { path: FilePath, contents: Vec<u8> },
    /// Move a file over another.
    Rename { from: FilePath, to: FilePath },
}

/// What a `Request` holds.
pub enum RequestModel {
    Run(CommandModel),
    Canonicalize(Seq<u8>),
    CheckExists(Seq<u8>),
    ReadConfig(Seq<u8>),
    CreateDirectories(Seq<u8>),
    EncodeConfig(Seq<Seq<char>>),
    WriteFile { path: Seq<u8>, contents: Seq<u8> },
    Rename { from: Seq<u8>, to: Seq<u8> },
}

impl View for Request {
    type V = RequestModel;

    open spec fn view(&self) -> RequestModel {
        match *self {
            Request::Run(command) => RequestModel::Run(command@),
            Request::Canonicalize(path) => RequestModel::Canonicalize(path@),
            Request::CheckExists(path) => RequestModel::CheckExists(path@),
            Request::ReadConfig(path) => RequestModel::ReadConfig(path@),
            Request::CreateDirectories(path) => RequestModel::CreateDirectories(path@),
            Request::EncodeConfig(roots) => RequestModel::EncodeConfig(views(roots@)),
            Request::WriteFile { path, contents } => RequestModel::WriteFile {
                path: path@,
                contents: contents@,
            },
            Request::Rename { from, to } => RequestModel::Rename { from: from@, to: to@ },
        }
    }
}

/// The saved list of repositories, by their paths.
#[derive(Debug, PartialEq, Eq)]
pub struct SavedConfig {
    pub roots: Vec<String>,
}

impl View for SavedConfig {
    type V = Seq<Seq<char>>;

    open spec fn view(&self) -> Seq<Seq<char>> {
        views(self.roots@)
    }
}

/// What reading the saved list came to.
#[derive(Debug)]
pub enum ConfigFile {
    /// There is no such file.
    Missing,
    /// The file cannot be read.
    Unreadable(String),
    /// The file was read, and its contents understood or not.
    Contents(Result<SavedConfig, String>),
}

/// What a `ConfigFile` holds.
pub enum ConfigFileModel {
    Missing,
    Unreadable(Seq<char>),
    Contents(Result<Seq<Seq<char>>, Seq<char>>),
}

impl View for ConfigFile {
    type V = ConfigFileModel;

    open spec fn view(&self) -> ConfigFileModel {
        match *self {
            ConfigFile::Missing => ConfigFileModel::Missing,
            ConfigFile::Unreadable(error) => ConfigFileModel::Unreadable(error@),
            ConfigFile::Contents(parsed) => ConfigFileModel::Contents(result_view(parsed)),
        }
    }
}

/// What a command reported: what it printed, or why it failed.
pub type Report = Result<Seq<char>, Seq<char>>;

/// The answers so far, to each kind of request in turn.
#[derive(Debug)]
pub struct Transcript {
    /// What the commands reported.
    pub reports: Vec<Result<String, String>>,
    /// The resolved paths.
    pub resolved: Vec<Result<FilePath, String>>,
    /// Whether the paths in question exist.
    pub present: Vec<bool>,
    /// What reading the saved list came to.
    pub configs: Vec<ConfigFile>,
    /// The spelled-out lists.
    pub encoded: Vec<Result<Vec<u8>, String>>,
    /// How the changes to files and directories went.
    pub changes: Vec<Result<(), String>>,
}

/// What a `Transcript` holds.
pub struct TranscriptModel {
    pub reports: Seq<Report>,
    pub resolved: Seq<Result<Seq<u8>, Seq<char>>>,
    pub present: Seq<bool>,
    pub configs: Seq<ConfigFileModel>,
    pub encoded: Seq<Result<Seq<u8>, Seq<char>>>,
    pub changes: Seq<Result<(), Seq<char>>>,
}

/// The views of a sequence of results.
pub open spec fn result_views<T: View, E: View>(items: Seq<Result<T, E>>) -> Seq<
    Result<T::V, E::V>,
> {
    items.map_values(|item: Result<T, E>| result_view(item))
}

impl View for Transcript {
    type V = TranscriptModel;

    open spec fn view(&self) -> TranscriptModel {
        TranscriptModel {
            reports: result_views(self.reports@),
            resolved: result_views(self.resolved@),
            present: self.present@,
            configs: views(self.configs@),
            encoded: result_views(self.encoded@),
            changes: result_views(self.changes@),
        }
    }
}

/// The transcript of an operation that has asked nothing yet.
pub open spec fn blank_transcript() -> TranscriptModel {
    TranscriptModel {
        reports: Seq::empty(),
        resolved: Seq::empty(),
        present: Seq::empty(),
        configs: Seq::empty(),
        encoded: Seq::empty(),
        changes: Seq::empty(),
    }
}

impl Transcript {
    /// The transcript of an operation that has asked nothing yet.
    pub fn new() -> (transcript: Transcript)
        ensures
            transcript@ == blank_transcript(),
    {
        let transcript = Transcript {
            reports: Vec::new(),
            resolved: Vec::new(),
            present: Vec::new(),
            configs: Vec::new(),
            encoded: Vec::new(),
            changes: Vec::new(),
        };
        assert(transcript@.reports =~= blank_transcript().reports);
        assert(transcript@.resolved =~= blank_transcript().resolved);
        assert(transcript@.present =~= blank_transcript().present);
        assert(transcript@.configs =~= blank_transcript().configs);
        assert(transcript@.encoded =~= blank_transcript().encoded);
        assert(transcript@.changes =~= blank_transcript().changes);
        transcript
    }
}

/// The view of a step towards a plain value.
pub open spec fn step_view<T: View>(step: Step<Request, T>) -> Step<RequestModel, T::V> {
    match step {
        Step::Ask(request) => Step::Ask(request@),
        Step::Done(value) => Step::Done(value@),
    }
}

/// The view of a step towards an optional value.
pub open spec fn step_option_view<T: View>(step: Step<Request, Option<T>>) -> Step<
    RequestModel,
    Option<T::V>,
> {
    match step {
        Step::Ask(request) => Step::Ask(request@),
        Step::Done(value) => Step::Done(option_view(value)),
    }
}

/// The view of a step towards a result.
pub open spec fn step_result_view<T: View, E: View>(step: Step<Request, Result<T, E>>) -> Step<
    RequestModel,
    Result<T::V, E::V>,
> {
    match step {
        Step::Ask(request) => Step::Ask(request@),
        Step::Done(value) => Step::Done(result_view(value)),
    }
}

} // verus!
