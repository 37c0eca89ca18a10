use shellfish::app::{store_action, Run};
use shellfish::command_line::locate_cache;
use shellfish::{
    App, Command, CommandLineHandler, DefaultAsyncCLIHandler, DefaultCommandLineHandler,
    DefaultHandler, DispatchError, Outcome, Platform, Report, Shell, Step, StoreAction, IO,
};

type Action = fn(&mut u64, Vec<String>) -> Result<(), String>;
type Later = fn(&mut u64, Vec<String>) -> u8;
type Counter = App<u64, DefaultCommandLineHandler, Action, Later>;

fn count(state: &mut u64, _args: Vec<String>) -> Result<(), String> {
    *state += 1;
    Ok(())
}

fn fail(state: &mut u64, _args: Vec<String>) -> Result<(), String> {
    *state += 10;
    Err("it broke".to_string())
}

fn later(_state: &mut u64, _args: Vec<String>) -> u8 {
    0
}

fn words(list: &[&str]) -> Vec<String> {
    list.iter().map(|word| word.to_string()).collect()
}

fn app() -> Counter {
    let mut app: Counter = App::new(0, "counter".to_string());
    app.commands.insert("count", Command::new("increments a counter.".to_string(), count as Action));
    app.commands.insert("fail", Command::new("always fails.".to_string(), fail as Action));
    app.commands.insert("cat", Command::new_async("shows a file.".to_string(), later as Later));
    app
}

/// One run of the program against a store that is kept in memory.
fn invoke(store: &mut Option<u64>, args: &[&str]) -> (u64, Outcome<String>) {
    let mut app = app();
    app.load_cache(*store);
    let Run { outcome, store: action } = app.run_vec(words(args));
    match action {
        StoreAction::Clear => *store = None,
        StoreAction::Save => *store = Some(app.state),
    }
    (app.state, outcome)
}

#[test]
fn a_new_app_is_empty() {
    let app: Counter = App::new(5, "counter".to_string());
    assert_eq!(app.state, 5);
    assert_eq!(app.handler.proj_name.as_deref(), Some("counter"));
    assert_eq!(app.commands.len(), 0);
    assert_eq!(app.description, "");

    let handler = DefaultAsyncCLIHandler { proj_name: None };
    let app: App<u64, DefaultAsyncCLIHandler, Action, Later> = App::new_with_handler(6, handler);
    assert_eq!(app.state, 6);
    assert!(app.handler.proj_name.is_none());
    assert_eq!(app.commands.len(), 0);
}

#[test]
fn an_app_takes_over_a_shell() {
    let mut shell: Shell<u64, &str, DefaultHandler, IO, Action, Later> = Shell::new(4, "> ");
    shell.commands.insert("count", Command::new("increments a counter.".to_string(), count as Action));
    shell.description = "A counter.".to_string();
    let mut app = App::from_shell(shell);
    assert_eq!(app.state, 4);
    assert_eq!(app.description, "A counter.");
    assert!(app.handler.proj_name.is_none());
    let run = app.run_vec(words(&["prog", "count"]));
    assert_eq!(run.store, StoreAction::Save);
    assert_eq!(app.state, 5);

    let mut shell: Shell<u64, &str, DefaultHandler, IO, Action, Later> = Shell::new(4, "> ");
    shell.commands.insert("cat", Command::new_async("shows a file.".to_string(), later as Later));
    let mut app = App::from_shell_async(shell);
    assert!(app.handler.proj_name.is_none());
    assert_eq!(
        app.run_vec_async(words(&["prog", "cat", "x"])),
        Step::Await { place: 0, args: words(&["cat", "x"]) }
    );
    assert_eq!(
        app.run_vec_async(words(&["prog", "--quit"])),
        Step::Done(Outcome { terminate: true, report: Report::Silent })
    );
    assert_eq!(app.state, 4);
}

#[test]
fn the_cache_replaces_the_state() {
    let mut app = app();
    app.state = 3;
    app.load_cache(None);
    assert_eq!(app.state, 3);
    app.load_cache(Some(9));
    assert_eq!(app.state, 9);
    assert_eq!(app.commands.len(), 3);
}

#[test]
fn a_run_saves_the_state() {
    let mut app = app();
    let run = app.run_vec(words(&["prog", "count"]));
    assert_eq!(run.outcome, Outcome { terminate: false, report: Report::Silent });
    assert_eq!(run.store, StoreAction::Save);
    assert_eq!(app.state, 1);
}

#[test]
fn a_run_without_a_command_saves_the_state() {
    let mut app = app();
    app.state = 2;
    let run = app.run_vec(words(&["prog"]));
    assert_eq!(run.outcome, Outcome { terminate: false, report: Report::Silent });
    assert_eq!(run.store, StoreAction::Save);
    assert_eq!(app.state, 2);
    let run = app.run_vec(Vec::new());
    assert_eq!(run.store, StoreAction::Save);
}

#[test]
fn a_failed_or_refused_run_saves_the_state() {
    let mut app = app();
    let run = app.run_vec(words(&["prog", "fail"]));
    assert_eq!(run.outcome.report, Report::Failed("it broke".to_string()));
    assert_eq!(run.store, StoreAction::Save);
    assert_eq!(app.state, 10);
    let run = app.run_vec(words(&["prog", "nope"]));
    assert_eq!(run.outcome.report, Report::Refused(DispatchError::CommandNotFound("nope".to_string())));
    assert_eq!(run.store, StoreAction::Save);
    let run = app.run_vec(words(&["prog", "cat"]));
    assert_eq!(run.outcome.report, Report::Refused(DispatchError::UnsupportedAsync));
    assert_eq!(run.store, StoreAction::Save);
    let run = app.run_vec(words(&["prog", "help"]));
    assert_eq!(run.store, StoreAction::Save);
    assert_eq!(app.state, 10);
}

#[test]
fn quit_clears_the_store() {
    for name in ["quit", "exit", "--quit", "--exit"] {
        let mut app = app();
        app.state = 4;
        let run = app.run_vec(words(&["prog", name]));
        assert_eq!(run.outcome, Outcome { terminate: true, report: Report::Silent });
        assert_eq!(run.store, StoreAction::Clear);
        assert_eq!(app.state, 4);
    }
}

#[test]
fn store_action_follows_the_outcome() {
    assert_eq!(store_action(true), StoreAction::Clear);
    assert_eq!(store_action(false), StoreAction::Save);
}

#[test]
fn the_state_survives_from_run_to_run() {
    let mut store = None;
    assert_eq!(invoke(&mut store, &["prog", "count"]).0, 1);
    assert_eq!(store, Some(1));
    assert_eq!(invoke(&mut store, &["prog"]).0, 1);
    assert_eq!(invoke(&mut store, &["prog", "count"]).0, 2);
    assert_eq!(invoke(&mut store, &["prog", "fail"]).0, 12);
    assert_eq!(invoke(&mut store, &["prog"]).0, 12);
    assert_eq!(store, Some(12));
}

#[test]
fn quit_starts_over() {
    let mut store = None;
    invoke(&mut store, &["prog", "count"]);
    invoke(&mut store, &["prog", "count"]);
    assert_eq!(store, Some(2));
    let (state, outcome) = invoke(&mut store, &["prog", "quit"]);
    assert!(outcome.terminate);
    assert_eq!(state, 2);
    assert_eq!(store, None);
    assert_eq!(invoke(&mut store, &["prog"]).0, 0);
    invoke(&mut store, &["prog", "exit"]);
    assert_eq!(store, None);
    invoke(&mut store, &["prog", "exit"]);
    assert_eq!(store, None);
}

#[test]
fn the_cache_lies_where_the_platform_keeps_caches() {
    let named = DefaultCommandLineHandler { proj_name: Some("demo".to_string()) };
    assert_eq!(
        named.get_cache(Platform::Linux, Some("./bin")),
        Some(words(&[".cache", "demo", "shellfish.json"]))
    );
    assert_eq!(
        named.get_cache(Platform::Windows, None),
        Some(words(&["AppData", "Local", "demo", "shellfish.json"]))
    );
    assert_eq!(
        named.get_cache(Platform::MacOs, None),
        Some(words(&["Library Support", "demo", "shellfish.json"]))
    );
    assert_eq!(named.get_cache(Platform::Other, None), Some(words(&["demo", "shellfish.json"])));
}

#[test]
fn the_cache_goes_by_the_program_where_no_project_is_named() {
    let unnamed = DefaultCommandLineHandler { proj_name: None };
    assert_eq!(
        unnamed.get_cache(Platform::Linux, Some("bin")),
        Some(words(&[".cache", "bin", "shellfish.json"]))
    );
    assert_eq!(unnamed.get_cache(Platform::Linux, None), None);
    assert_eq!(unnamed.get_cache(Platform::Windows, None), None);

    let unnamed = DefaultAsyncCLIHandler { proj_name: None };
    assert_eq!(
        unnamed.get_cache(Platform::MacOs, Some("bin")),
        Some(words(&["Library Support", "bin", "shellfish.json"]))
    );
    assert_eq!(unnamed.get_cache(Platform::Other, None), None);
    let named = DefaultAsyncCLIHandler { proj_name: Some("demo".to_string()) };
    assert_eq!(
        named.get_cache(Platform::Windows, Some("bin")),
        Some(words(&["AppData", "Local", "demo", "shellfish.json"]))
    );
}

#[test]
fn locate_cache_prefers_the_project() {
    assert_eq!(
        locate_cache(Platform::Linux, Some("p"), Some("q")),
        Some(words(&[".cache", "p", "shellfish.json"]))
    );
    assert_eq!(
        locate_cache(Platform::Linux, None, Some("q")),
        Some(words(&[".cache", "q", "shellfish.json"]))
    );
    assert_eq!(locate_cache(Platform::Linux, None, None), None);
}
