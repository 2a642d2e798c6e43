//! The saved list of repositories.
use vstd::prelude::*;
use vstd::string::*;
use vstd::utf8::encode_utf8;

use crate::encoding::{lossy_text, quote, quoted_text};
use crate::operations::{validate_repository, validate_step};
use crate::path::{joined, parent, FilePath};
use crate::state::{listed, repository_at, repository_index, LoadedModel, LoadedRepositories, NewRepository, NewRepositoryModel, Repository};
use crate::step::{step_result_view, ConfigFile, ConfigFileModel, Request, RequestModel, SavedConfig, Step, Transcript, TranscriptModel};
use crate::text::{join2, join3};
use crate::views::{result_view, views, views_push};

verus! {

// ── Where the list is saved ───────────────────────────────────────────────

/// The file that holds the list, in the configuration directory of the platform.
pub open spec fn config_file(directory: Option<Seq<u8>>) -> Result<Seq<u8>, Seq<char>> {
    match directory {
        Some(directory) => Ok(
            joined(joined(directory, encode_utf8("wtui"@)), encode_utf8("repositories.json"@)),
        ),
        None => Err("the platform configuration directory is unavailable"@),
    }
}

/// The file that a new list is written to before it takes the place of the old one.
pub open spec fn temporary_file(directory: Seq<u8>) -> Seq<u8> {
    joined(joined(directory, encode_utf8("wtui"@)), encode_utf8("repositories.json.tmp"@))
}

/// The view of an optional directory.
pub open spec fn directory_view(directory: Option<&FilePath>) -> Option<Seq<u8>> {
    match directory {
        Some(path) => Some(path@),
        None => None,
    }
}

/// The file that holds the list.
pub fn config_path(directory: Option<&FilePath>) -> (path: Result<FilePath, String>)
    ensures
        result_view(path) == config_file(directory_view(directory)),
{
    match directory {
        Some(directory) => Ok(directory.join("wtui").join("repositories.json")),
        None => Err("the platform configuration directory is unavailable".to_owned()),
    }
}

// ── Reading the list ──────────────────────────────────────────────────────

/// The saved paths. A list that was never saved is empty.
pub open spec fn load_config_step(directory: Option<Seq<u8>>, answers: TranscriptModel) -> Step<
    RequestModel,
    Result<Seq<Seq<char>>, Seq<char>>,
> {
    match config_file(directory) {
        Err(error) => Step::Done(Err(error)),
        Ok(path) => if answers.configs.len() == 0 {
            Step::Ask(RequestModel::ReadConfig(path))
        } else {
            match answers.configs[0] {
                ConfigFileModel::Missing => Step::Done(Ok(Seq::empty())),
                ConfigFileModel::Unreadable(error) => Step::Done(
                    Err(lossy_text(path) + ": "@ + error),
                ),
                ConfigFileModel::Contents(Ok(roots)) => Step::Done(Ok(roots)),
                ConfigFileModel::Contents(Err(error)) => Step::Done(
                    Err(lossy_text(path) + ": "@ + error),
                ),
            }
        },
    }
}

/// The saved paths.
pub fn load_config(directory: Option<&FilePath>, transcript: &Transcript) -> (step: Step<
    Request,
    Result<SavedConfig, String>,
>)
    ensures
        step_result_view(step) == load_config_step(directory_view(directory), transcript@),
{
    let path = match config_path(directory) {
        Err(error) => return Step::Done(Err(error)),
        Ok(path) => path,
    };
    if transcript.configs.len() == 0 {
        return Step::Ask(Request::ReadConfig(path));
    }
    assert(transcript@.configs[0] == transcript.configs@[0]@);
    match &transcript.configs[0] {
        ConfigFile::Missing => {
            let config = SavedConfig { roots: Vec::new() };
            assert(config@ =~= Seq::<Seq<char>>::empty());
            Step::Done(Ok(config))
        },
        ConfigFile::Unreadable(error) => Step::Done(
            Err(join3(path.to_text().as_str(), ": ", error.as_str())),
        ),
        ConfigFile::Contents(Ok(config)) => {
            let copy = SavedConfig { roots: config.roots.clone() };
            assert(copy@ =~= config@);
            Step::Done(Ok(copy))
        },
        ConfigFile::Contents(Err(error)) => Step::Done(
            Err(join3(path.to_text().as_str(), ": ", error.as_str())),
        ),
    }
}

// ── Loading the repositories ──────────────────────────────────────────────

/// What has been loaded, and one more saved path: it adds its repository, unless
/// that is there already, or else a warning.
pub open spec fn with_root(
    loaded: LoadedModel,
    root: Seq<char>,
    check: Result<NewRepositoryModel, Seq<char>>,
) -> LoadedModel {
    match check {
        Ok(new) => if repository_at(loaded.repositories, new.id) is Some {
            loaded
        } else {
            LoadedModel { repositories: loaded.repositories.push(listed(new)), ..loaded }
        },
        Err(error) => LoadedModel {
            warnings: loaded.warnings.push(
                "Skipped saved repository "@ + quoted_text(root) + ": "@ + error + "."@,
            ),
            ..loaded
        },
    }
}

/// What has been loaded, and the saved paths `roots`. Each is looked at in turn,
/// by the reports from `report_at` and the resolved paths from `resolved_at` on.
pub open spec fn load_roots_step(
    roots: Seq<Seq<char>>,
    answers: TranscriptModel,
    report_at: nat,
    resolved_at: nat,
    loaded: LoadedModel,
) -> Step<RequestModel, Result<LoadedModel, Seq<char>>>
    decreases roots.len(),
{
    if roots.len() == 0 {
        Step::Done(Ok(loaded))
    } else {
        match validate_step(encode_utf8(roots.first()), answers, report_at, resolved_at) {
            Step::Ask(request) => Step::Ask(request),
            Step::Done(check) => load_roots_step(
                roots.drop_first(),
                answers,
                report_at + 1,
                if answers.reports[report_at as int] is Ok {
                    resolved_at + 1
                } else {
                    resolved_at
                },
                with_root(loaded, roots.first(), check),
            ),
        }
    }
}

/// Nothing loaded.
pub open spec fn nothing_loaded() -> LoadedModel {
    LoadedModel { repositories: Seq::empty(), warnings: Seq::empty() }
}

/// The saved repositories.
pub open spec fn load_repositories_step(
    directory: Option<Seq<u8>>,
    answers: TranscriptModel,
) -> Step<RequestModel, Result<LoadedModel, Seq<char>>> {
    match load_config_step(directory, answers) {
        Step::Ask(request) => Step::Ask(request),
        Step::Done(Err(error)) => Step::Done(Err(error)),
        Step::Done(Ok(roots)) => load_roots_step(roots, answers, 0, 0, nothing_loaded()),
    }
}

impl LoadedRepositories {
    /// Adds what one more saved path came to.
    pub fn add_root(&mut self, root: &str, check: Result<NewRepository, String>)
        ensures
            final(self)@ == with_root(old(self)@, root@, result_view(check)),
    {
        match check {
            Ok(new) => {
                if repository_index(&self.repositories, new.id.as_str()).is_none() {
                    let repository = Repository::listed(new);
                    proof {
                        views_push(self.repositories@, repository);
                    }
                    self.repositories.push(repository);
                }
            },
            Err(error) => {
                let mut warning = join2("Skipped saved repository ", quote(root).as_str());
                warning.append(": ");
                warning.append(error.as_str());
                warning.append(".");
                proof {
                    views_push(self.warnings@, warning);
                }
                self.warnings.push(warning);
            },
        }
    }
}

/// The saved repositories.
pub fn load_configured_repositories(directory: Option<&FilePath>, transcript: &Transcript) -> (step: Step<
    Request,
    Result<LoadedRepositories, String>,
>)
    ensures
        step_result_view(step) == load_repositories_step(directory_view(directory), transcript@),
{
    let config = match load_config(directory, transcript) {
        Step::Ask(request) => return Step::Ask(request),
        Step::Done(Err(error)) => return Step::Done(Err(error)),
        Step::Done(Ok(config)) => config,
    };
    let mut loaded = LoadedRepositories { repositories: Vec::new(), warnings: Vec::new() };
    assert(loaded@.repositories =~= nothing_loaded().repositories);
    assert(loaded@.warnings =~= nothing_loaded().warnings);
    assert(config@.skip(0) == config@);
    let mut resolved_at: usize = 0;
    for i in 0..config.roots.len()
        invariant
            i <= transcript.reports.len(),
            resolved_at <= transcript.resolved.len(),
            load_repositories_step(directory_view(directory), transcript@) == load_roots_step(
                config@.skip(i as int),
                transcript@,
                i as nat,
                resolved_at as nat,
                loaded@,
            ),
    {
        let root = config.roots[i].as_str();
        let ghost rest = config@.skip(i as int);
        assert(rest.first() == root@);
        assert(rest.drop_first() == config@.skip(i + 1));
        match validate_repository(&FilePath::from_text(root), transcript, i, resolved_at) {
            Step::Ask(request) => return Step::Ask(request),
            Step::Done(check) => {
                assert(i < transcript.reports.len());
                assert(transcript@.reports[i as int] == result_view(transcript.reports@[i as int]));
                if transcript.reports[i].is_ok() {
                    assert(resolved_at < transcript.resolved.len());
                    resolved_at = resolved_at + 1;
                }
                loaded.add_root(root, check);
            },
        }
    }
    Step::Done(Ok(loaded))
}

// ── Saving the list ───────────────────────────────────────────────────────

/// The saving of the list `roots`: into a file of its own, which then takes the
/// place of the old one.
pub open spec fn save_config_step(
    directory: Option<Seq<u8>>,
    roots: Seq<Seq<char>>,
    answers: TranscriptModel,
) -> Step<RequestModel, Result<(), Seq<char>>> {
    match config_file(directory) {
        Err(error) => Step::Done(Err(error)),
        Ok(path) => match parent(path) {
            None => Step::Done(Err("configuration path has no parent directory"@)),
            Some(folder) => {
                let temporary = temporary_file(directory->0);
                if answers.changes.len() == 0 {
                    Step::Ask(RequestModel::CreateDirectories(folder))
                } else if answers.changes[0] is Err {
                    Step::Done(Err(lossy_text(folder) + ": "@ + answers.changes[0]->Err_0))
                } else if answers.encoded.len() == 0 {
                    Step::Ask(RequestModel::EncodeConfig(roots))
                } else if answers.encoded[0] is Err {
                    Step::Done(Err(answers.encoded[0]->Err_0))
                } else if answers.changes.len() == 1 {
                    Step::Ask(
                        RequestModel::WriteFile {
                            path: temporary,
                            contents: answers.encoded[0]->Ok_0,
                        },
                    )
                } else if answers.changes[1] is Err {
                    Step::Done(Err(lossy_text(temporary) + ": "@ + answers.changes[1]->Err_0))
                } else if answers.changes.len() == 2 {
                    Step::Ask(RequestModel::Rename { from: temporary, to: path })
                } else if answers.changes[2] is Err {
                    Step::Done(Err(lossy_text(path) + ": "@ + answers.changes[2]->Err_0))
                } else {
                    Step::Done(Ok(()))
                }
            },
        },
    }
}

/// A failure that concerns `path`.
fn failure_at(path: &FilePath, error: &str) -> (message: String)
    ensures
        message@ == lossy_text(path@) + ": "@ + error@,
{
    join3(path.to_text().as_str(), ": ", error)
}

/// The saving of the list.
pub fn save_config(directory: Option<&FilePath>, config: &SavedConfig, transcript: &Transcript) -> (step: Step<
    Request,
    Result<(), String>,
>)
    ensures
        step_result_view(step) == save_config_step(
            directory_view(directory),
            config@,
            transcript@,
        ),
{
    let place = match directory {
        Some(place) => place,
        None => return Step::Done(
            Err("the platform configuration directory is unavailable".to_owned()),
        ),
    };
    let path = match config_path(directory) {
        Err(error) => return Step::Done(Err(error)),
        Ok(path) => path,
    };
    let folder = match path.parent() {
        None => return Step::Done(Err("configuration path has no parent directory".to_owned())),
        Some(folder) => folder,
    };
    let temporary = place.join("wtui").join("repositories.json.tmp");
    if transcript.changes.len() == 0 {
        return Step::Ask(Request::CreateDirectories(folder));
    }
    assert(transcript@.changes[0] == result_view(transcript.changes@[0]));
    if let Err(error) = &transcript.changes[0] {
        return Step::Done(Err(failure_at(&folder, error.as_str())));
    }
    if transcript.encoded.len() == 0 {
        let roots = config.roots.clone();
        assert(views(roots@) =~= config@);
        return Step::Ask(Request::EncodeConfig(roots));
    }
    assert(transcript@.encoded[0] == result_view(transcript.encoded@[0]));
    let contents = match &transcript.encoded[0] {
        Err(error) => return Step::Done(Err(error.clone())),
        Ok(contents) => vstd::slice::slice_to_vec(contents.as_slice()),
    };
    if transcript.changes.len() == 1 {
        return Step::Ask(Request::WriteFile { path: temporary, contents });
    }
    assert(transcript@.changes[1] == result_view(transcript.changes@[1]));
    if let Err(error) = &transcript.changes[1] {
        return Step::Done(Err(failure_at(&temporary, error.as_str())));
    }
    if transcript.changes.len() == 2 {
        return Step::Ask(Request::Rename { from: temporary, to: path });
    }
    assert(transcript@.changes[2] == result_view(transcript.changes@[2]));
    match &transcript.changes[2] {
        Err(error) => Step::Done(Err(failure_at(&path, error.as_str()))),
        Ok(()) => Step::Done(Ok(())),
    }
}

} // verus!
