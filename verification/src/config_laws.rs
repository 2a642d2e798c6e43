//! What loading and saving the list of repositories ask for, and what comes of it.
use vstd::prelude::*;
use vstd::utf8::encode_utf8;

use crate::config::{config_file, load_config_step, load_repositories_step, load_roots_step, nothing_loaded, save_config_step, temporary_file, with_root};
use crate::encoding::{lossy_text, quoted_text};
use crate::operation_laws::{asks, ends, running};
use crate::operations::validate_step;
use crate::path::{joined, parent};
use crate::path_laws::joined_name_is_last;
use crate::state::{LoadedModel, RepositoryModel};
use crate::state_laws::{is_listed, lookup_finds};
use crate::step::{ConfigFileModel, Report, RequestModel, Step, TranscriptModel};
use crate::step_laws::file_names_are_plain;
use crate::text::trimmed;

verus! {

// ── The files ─────────────────────────────────────────────────────────────

/// The list stands in `wtui/repositories.json` of the configuration directory, and a
/// new one is written to `wtui/repositories.json.tmp` first. Without a configuration
/// directory there is no place for it.
pub proof fn list_has_its_place(directory: Seq<u8>)
    ensures
        config_file(Some(directory)) == Ok::<Seq<u8>, Seq<char>>(
            joined(joined(directory, encode_utf8("wtui"@)), encode_utf8("repositories.json"@)),
        ),
        temporary_file(directory) == joined(
            joined(directory, encode_utf8("wtui"@)),
            encode_utf8("repositories.json.tmp"@),
        ),
        config_file(None) == Err::<Seq<u8>, Seq<char>>(
            "the platform configuration directory is unavailable"@,
        ),
{
}

/// The list is read from its place. One that is missing is empty, one that is
/// understood is handed on as it is, and trouble with the file is told with its path.
pub proof fn list_is_read(directory: Seq<u8>, answers: TranscriptModel)
    ensures
        ({
            let place = config_file(Some(directory))->Ok_0;
            let step = load_config_step(Some(directory), answers);
            if answers.configs.len() == 0 {
                asks(step, RequestModel::ReadConfig(place))
            } else {
                match answers.configs[0] {
                    ConfigFileModel::Missing => step matches Step::Done(Ok(roots)) && roots.len()
                        == 0,
                    ConfigFileModel::Unreadable(error) => ends(
                        step,
                        Err(lossy_text(place) + ": "@ + error),
                    ),
                    ConfigFileModel::Contents(Ok(roots)) => ends(step, Ok(roots)),
                    ConfigFileModel::Contents(Err(error)) => ends(
                        step,
                        Err(lossy_text(place) + ": "@ + error),
                    ),
                }
            }
        }),
        ends(
            load_config_step(None, answers),
            Err("the platform configuration directory is unavailable"@),
        ),
{
}

// ── Loading ───────────────────────────────────────────────────────────────

/// How many of the first `count` reports told of a directory.
pub open spec fn told(reports: Seq<Report>, count: nat) -> nat
    decreases count,
{
    if count == 0 {
        0
    } else {
        told(reports, (count - 1) as nat) + if reports[count - 1] is Ok {
            1nat
        } else {
            0
        }
    }
}

/// Whether the answers hold what the first `count` saved paths needed: a report for
/// each, and a resolved path for each report that told of a directory.
pub open spec fn settled(answers: TranscriptModel, count: nat) -> bool {
    count <= answers.reports.len() && told(answers.reports, count) <= answers.resolved.len()
}

/// Answers with the saved list `roots`.
pub open spec fn with_list(answers: TranscriptModel, roots: Seq<Seq<char>>) -> TranscriptModel {
    TranscriptModel { configs: seq![ConfigFileModel::Contents(Ok(roots))], ..answers }
}

/// The same loading, with the first saved paths settled.
proof fn loading_goes_on(roots: Seq<Seq<char>>, answers: TranscriptModel, count: nat)
    requires
        count <= roots.len(),
        settled(answers, count),
    ensures
        load_roots_step(roots, answers, 0, 0, nothing_loaded()) == load_roots_step(
            roots.skip(count as int),
            answers,
            count,
            told(answers.reports, count),
            loaded_first(roots, answers, count),
        ),
    decreases count,
{
    if count == 0 {
        assert(roots.skip(0) =~= roots);
    } else {
        let before = (count - 1) as nat;
        assert(told(answers.reports, before) <= told(answers.reports, count));
        loading_goes_on(roots, answers, before);
        let rest = roots.skip(before as int);
        assert(rest.first() == roots[before as int]);
        assert(rest.drop_first() =~= roots.skip(count as int));
    }
}

/// What the first saved paths come to.
spec fn loaded_first(roots: Seq<Seq<char>>, answers: TranscriptModel, count: nat) -> LoadedModel
    decreases count,
{
    if count == 0 {
        nothing_loaded()
    } else {
        let before = (count - 1) as nat;
        with_root(
            loaded_first(roots, answers, before),
            roots[before as int],
            validate_step(
                encode_utf8(roots[before as int]),
                answers,
                before,
                told(answers.reports, before),
            )->Done_0,
        )
    }
}

/// What the first saved paths come to does not depend on those behind them.
proof fn loaded_first_alike(
    roots: Seq<Seq<char>>,
    root: Seq<char>,
    answers: TranscriptModel,
    count: nat,
)
    requires
        count <= roots.len(),
    ensures
        loaded_first(roots.push(root), answers, count) == loaded_first(roots, answers, count),
    decreases count,
{
    if count > 0 {
        loaded_first_alike(roots, root, answers, (count - 1) as nat);
        assert(roots.push(root)[count - 1] == roots[count - 1]);
    }
}

/// The saved paths are looked at in the order of the list. Once the first ones are
/// settled, Git is asked about the next one, in the directory that it spells, and
/// then the path that Git told is resolved.
pub proof fn saved_paths_are_looked_at_in_turn(
    directory: Seq<u8>,
    roots: Seq<Seq<char>>,
    answers: TranscriptModel,
    count: nat,
)
    requires
        count < roots.len(),
        settled(answers, count),
    ensures
        ({
            let step = load_repositories_step(Some(directory), with_list(answers, roots));
            &&& answers.reports.len() == count ==> asks(
                step,
                running(
                    "git"@,
                    encode_utf8(roots[count as int]),
                    seq!["rev-parse"@, "--show-toplevel"@],
                ),
            )
            &&& answers.reports.len() > count ==> (answers.reports[count as int] matches Ok(top)
                ==> answers.resolved.len() == told(answers.reports, count) ==> asks(
                step,
                RequestModel::Canonicalize(encode_utf8(trimmed(top))),
            ))
        }),
{
    let all = with_list(answers, roots);
    loading_goes_on(roots, all, count);
    assert(roots.skip(count as int).first() == roots[count as int]);
}

/// One more saved path adds its repository behind those before it, with nothing known
/// of it but its place, unless a repository of that name is there already. Where it
/// is in no repository, it adds a warning that names it and says why. Nothing else
/// changes.
pub proof fn one_more_saved_path(
    directory: Seq<u8>,
    roots: Seq<Seq<char>>,
    root: Seq<char>,
    answers: TranscriptModel,
)
    requires
        settled(answers, roots.len()),
        roots.len() < answers.reports.len(),
        answers.reports[roots.len() as int] is Ok ==> told(answers.reports, roots.len())
            < answers.resolved.len(),
    ensures
        ({
            let before = load_repositories_step(Some(directory), with_list(answers, roots));
            let after = load_repositories_step(
                Some(directory),
                with_list(answers, roots.push(root)),
            );
            &&& before matches Step::Done(Ok(old))
            &&& after matches Step::Done(Ok(new))
            &&& match answers.reports[roots.len() as int] {
                Err(error) => {
                    &&& new.repositories == old.repositories
                    &&& new.warnings == old.warnings.push(
                        "Skipped saved repository "@ + quoted_text(root) + ": "@ + error + "."@,
                    )
                },
                Ok(top) => match answers.resolved[told(answers.reports, roots.len()) as int] {
                    Err(error) => {
                        &&& new.repositories == old.repositories
                        &&& new.warnings == old.warnings.push(
                            "Skipped saved repository "@ + quoted_text(root) + ": "@ + (trimmed(top)
                                + ": "@ + error) + "."@,
                        )
                    },
                    Ok(path) => {
                        &&& new.warnings == old.warnings
                        &&& is_listed(old.repositories, lossy_text(path)) ==> new.repositories
                            == old.repositories
                        &&& !is_listed(old.repositories, lossy_text(path)) ==> new.repositories
                            == old.repositories.push(
                            RepositoryModel {
                                id: lossy_text(path),
                                path,
                                worktrees: Seq::empty(),
                                refreshing: false,
                                changing: false,
                                error: None,
                            },
                        )
                    },
                },
            }
        }),
{
    let more = roots.push(root);
    let count = roots.len();
    let one = with_list(answers, roots);
    let two = with_list(answers, more);
    loading_goes_on(roots, one, count);
    loading_goes_on(more, two, count);
    assert(roots.skip(count as int) =~= Seq::empty());
    assert(more.skip(count as int) =~= seq![root]);
    assert(seq![root].drop_first() =~= Seq::<Seq<char>>::empty());
    loaded_first_alike(roots, root, two, count);
    same_first(roots, one, two, count);
    reveal_with_fuel(load_roots_step, 3);
    let old = loaded_first(roots, one, count);
    if answers.reports[count as int] is Ok {
        if let Ok(path) = answers.resolved[told(answers.reports, count) as int] {
            lookup_finds(old.repositories, lossy_text(path));
        }
    }
}

/// What the saved paths come to depends on the reports and the resolved paths alone.
proof fn same_first(
    roots: Seq<Seq<char>>,
    one: TranscriptModel,
    two: TranscriptModel,
    count: nat,
)
    requires
        one.reports == two.reports,
        one.resolved == two.resolved,
    ensures
        loaded_first(roots, one, count) == loaded_first(roots, two, count),
    decreases count,
{
    if count > 0 {
        same_first(roots, one, two, (count - 1) as nat);
    }
}

/// An empty list loads nothing, and trouble with the list is handed on.
pub proof fn loading_begins_with_the_list(directory: Option<Seq<u8>>, answers: TranscriptModel)
    ensures
        match load_config_step(directory, answers) {
            Step::Ask(request) => asks(load_repositories_step(directory, answers), request),
            Step::Done(Err(error)) => ends(load_repositories_step(directory, answers), Err(error)),
            Step::Done(Ok(roots)) => roots.len() == 0 ==> (load_repositories_step(
                directory,
                answers,
            ) matches Step::Done(Ok(loaded)) && loaded.repositories.len() == 0
                && loaded.warnings.len() == 0),
        },
{
}

// ── Saving ────────────────────────────────────────────────────────────────

/// Saving goes in turn: the directory is created, the list spelled out, written to the
/// temporary file and moved to its place. What fails is told with the path that it
/// concerns.
pub proof fn saving_goes_in_turn(
    directory: Seq<u8>,
    roots: Seq<Seq<char>>,
    answers: TranscriptModel,
)
    ensures
        parent(config_file(Some(directory))->Ok_0) is Some,
        ({
            let step = save_config_step(Some(directory), roots, answers);
            let place = config_file(Some(directory))->Ok_0;
            let folder = parent(place)->0;
            let temporary = temporary_file(directory);
            let changes = answers.changes;
            if changes.len() == 0 {
                asks(step, RequestModel::CreateDirectories(folder))
            } else if let Err(error) = changes[0] {
                ends(step, Err(lossy_text(folder) + ": "@ + error))
            } else if answers.encoded.len() == 0 {
                asks(step, RequestModel::EncodeConfig(roots))
            } else {
                match answers.encoded[0] {
                    Err(error) => ends(step, Err(error)),
                    Ok(contents) => if changes.len() == 1 {
                        asks(step, RequestModel::WriteFile { path: temporary, contents })
                    } else if let Err(error) = changes[1] {
                        ends(step, Err(lossy_text(temporary) + ": "@ + error))
                    } else if changes.len() == 2 {
                        asks(step, RequestModel::Rename { from: temporary, to: place })
                    } else {
                        match changes[2] {
                            Err(error) => ends(step, Err(lossy_text(place) + ": "@ + error)),
                            Ok(_) => ends(step, Ok(())),
                        }
                    },
                }
            }
        }),
        ends(
            save_config_step(None, roots, answers),
            Err("the platform configuration directory is unavailable"@),
        ),
{
    file_names_are_plain();
    joined_name_is_last(
        joined(directory, encode_utf8("wtui"@)),
        encode_utf8("repositories.json"@),
    );
}

} // verus!
