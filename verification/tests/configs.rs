use wtui::config::{config_path, load_config, load_configured_repositories, save_config};
use wtui::path::FilePath;
use wtui::state::LoadedRepositories;
use wtui::step::{ConfigFile, Request, SavedConfig, Step, Transcript};

fn path(text: &str) -> FilePath {
    FilePath::from_text(text)
}

fn home() -> FilePath {
    path("/home/ada/.config")
}

fn saved(roots: &[&str]) -> SavedConfig {
    SavedConfig { roots: roots.iter().map(|root| (*root).to_owned()).collect() }
}

fn config(file: ConfigFile) -> Transcript {
    let mut transcript = Transcript::new();
    transcript.configs.push(file);
    transcript
}

fn loaded(transcript: &Transcript) -> Result<LoadedRepositories, String> {
    match load_configured_repositories(Some(&home()), transcript) {
        Step::Ask(_) => panic!("expected a result"),
        Step::Done(result) => result,
    }
}

fn saving(transcript: &Transcript) -> Step<Request, Result<(), String>> {
    save_config(Some(&home()), &saved(&["/a", "/b"]), transcript)
}

const UNAVAILABLE: &str = "the platform configuration directory is unavailable";

#[test]
fn list_stands_in_the_configuration_directory() {
    assert_eq!(
        config_path(Some(&home())).unwrap().bytes,
        "/home/ada/.config/wtui/repositories.json".as_bytes(),
    );
    assert_eq!(config_path(None).unwrap_err(), UNAVAILABLE);
}

#[test]
fn list_is_read() {
    assert_eq!(
        load_config(Some(&home()), &Transcript::new()),
        Step::Ask(Request::ReadConfig(path("/home/ada/.config/wtui/repositories.json"))),
    );
    assert_eq!(
        load_config(Some(&home()), &config(ConfigFile::Missing)),
        Step::Done(Ok(saved(&[]))),
    );
    assert_eq!(
        load_config(Some(&home()), &config(ConfigFile::Contents(Ok(saved(&["/a"]))))),
        Step::Done(Ok(saved(&["/a"]))),
    );
    assert_eq!(
        load_config(Some(&home()), &config(ConfigFile::Unreadable("denied".to_owned()))),
        Step::Done(Err("/home/ada/.config/wtui/repositories.json: denied".to_owned())),
    );
    assert_eq!(
        load_config(
            Some(&home()),
            &config(ConfigFile::Contents(Err("expected value at line 1 column 1".to_owned()))),
        ),
        Step::Done(Err(
            "/home/ada/.config/wtui/repositories.json: expected value at line 1 column 1"
                .to_owned()
        )),
    );
    assert_eq!(load_config(None, &Transcript::new()), Step::Done(Err(UNAVAILABLE.to_owned())));
}

#[test]
fn saved_repositories_are_loaded_in_order() {
    let mut transcript = config(ConfigFile::Contents(Ok(saved(&["/a", "/b"]))));
    transcript.reports.push(Ok("/a\n".to_owned()));
    transcript.resolved.push(Ok(path("/a")));
    transcript.reports.push(Ok("/b\n".to_owned()));
    transcript.resolved.push(Ok(path("/b")));
    let result = loaded(&transcript).unwrap();
    assert_eq!(result.warnings, Vec::<String>::new());
    let ids: Vec<&str> = result.repositories.iter().map(|one| one.id.as_str()).collect();
    assert_eq!(ids, ["/a", "/b"]);
    assert!(result.repositories.iter().all(|one| {
        one.worktrees.is_empty() && !one.refreshing && !one.changing && one.error.is_none()
    }));
}

#[test]
fn repository_is_loaded_once() {
    let mut transcript = config(ConfigFile::Contents(Ok(saved(&["/a", "/a/src", "/gone", "/b"]))));
    transcript.reports.push(Ok("/a\n".to_owned()));
    transcript.resolved.push(Ok(path("/a")));
    transcript.reports.push(Ok("/a\n".to_owned()));
    transcript.resolved.push(Ok(path("/a")));
    transcript.reports.push(Err("could not start git".to_owned()));
    transcript.reports.push(Ok("/b\n".to_owned()));
    transcript.resolved.push(Ok(path("/b")));
    let result = loaded(&transcript).unwrap();
    let ids: Vec<&str> = result.repositories.iter().map(|one| one.id.as_str()).collect();
    assert_eq!(ids, ["/a", "/b"]);
    assert_eq!(result.warnings, ["Skipped saved repository \"/gone\": could not start git."]);
}

#[test]
fn warning_quotes_the_saved_path() {
    let mut transcript = config(ConfigFile::Contents(Ok(saved(&["/a \"b\"\n\\é"]))));
    transcript.reports.push(Err("no".to_owned()));
    let result = loaded(&transcript).unwrap();
    assert_eq!(result.warnings, ["Skipped saved repository \"/a \\\"b\\\"\\n\\\\é\": no."]);
}

#[test]
fn loading_may_find_nothing() {
    assert_eq!(
        loaded(&config(ConfigFile::Missing)).unwrap(),
        LoadedRepositories { repositories: Vec::new(), warnings: Vec::new() },
    );
    assert_eq!(
        loaded(&config(ConfigFile::Unreadable("denied".to_owned()))).unwrap_err(),
        "/home/ada/.config/wtui/repositories.json: denied",
    );
    match load_configured_repositories(
        Some(&home()),
        &config(ConfigFile::Contents(Ok(saved(&["/a"])))),
    ) {
        Step::Ask(Request::Run(command)) => {
            assert_eq!(command.directory, path("/a"));
            assert_eq!(command.arguments, ["rev-parse", "--show-toplevel"]);
        }
        _ => panic!("expected a command"),
    }
}

#[test]
fn list_is_replaced_whole() {
    let mut transcript = Transcript::new();
    let temporary = path("/home/ada/.config/wtui/repositories.json.tmp");
    let place = path("/home/ada/.config/wtui/repositories.json");
    assert_eq!(
        saving(&transcript),
        Step::Ask(Request::CreateDirectories(path("/home/ada/.config/wtui"))),
    );
    transcript.changes.push(Ok(()));
    assert_eq!(
        saving(&transcript),
        Step::Ask(Request::EncodeConfig(vec!["/a".to_owned(), "/b".to_owned()])),
    );
    transcript.encoded.push(Ok(vec![123, 125]));
    assert_eq!(
        saving(&transcript),
        Step::Ask(Request::WriteFile { path: temporary.clone(), contents: vec![123, 125] }),
    );
    transcript.changes.push(Ok(()));
    assert_eq!(saving(&transcript), Step::Ask(Request::Rename { from: temporary, to: place }));
    transcript.changes.push(Ok(()));
    assert_eq!(saving(&transcript), Step::Done(Ok(())));
}

#[test]
fn saving_says_why_it_fails() {
    let full = || Err("full".to_owned());
    let mut transcript = Transcript::new();
    transcript.changes.push(full());
    assert_eq!(
        saving(&transcript),
        Step::Done(Err("/home/ada/.config/wtui: full".to_owned())),
    );
    let mut transcript = Transcript::new();
    transcript.changes.push(Ok(()));
    transcript.encoded.push(Err("odd".to_owned()));
    assert_eq!(saving(&transcript), Step::Done(Err("odd".to_owned())));
    let mut transcript = Transcript::new();
    transcript.encoded.push(Ok(Vec::new()));
    transcript.changes.push(Ok(()));
    transcript.changes.push(full());
    assert_eq!(
        saving(&transcript),
        Step::Done(Err("/home/ada/.config/wtui/repositories.json.tmp: full".to_owned())),
    );
    transcript.changes[1] = Ok(());
    transcript.changes.push(full());
    assert_eq!(
        saving(&transcript),
        Step::Done(Err("/home/ada/.config/wtui/repositories.json: full".to_owned())),
    );
    assert_eq!(
        save_config(None, &saved(&[]), &Transcript::new()),
        Step::Done(Err(UNAVAILABLE.to_owned())),
    );
}

#[test]
fn loading_and_saving_stand_whatever_comes_after() {
    let mut later = config(ConfigFile::Contents(Ok(saved(&["/a"]))));
    later.configs.push(ConfigFile::Missing);
    later.reports = vec![Ok("/a".to_owned()), Err("late".to_owned())];
    later.resolved = vec![Ok(path("/a")), Err("late".to_owned())];
    assert_eq!(loaded(&later).unwrap().repositories.len(), 1);
    later.encoded = vec![Ok(Vec::new()), Err("late".to_owned())];
    later.changes = vec![Ok(()), Ok(()), Ok(()), Err("late".to_owned())];
    assert_eq!(saving(&later), Step::Done(Ok(())));
}
