use shellfish::{Command, CommandType, Registry};

type Action = fn(&mut u64, Vec<String>) -> Result<(), String>;
type Later = fn(&mut u64, Vec<String>) -> u8;

fn one(state: &mut u64, _args: Vec<String>) -> Result<(), String> {
    *state += 1;
    Ok(())
}

fn two(state: &mut u64, _args: Vec<String>) -> Result<(), String> {
    *state += 2;
    Ok(())
}

fn later(_state: &mut u64, _args: Vec<String>) -> u8 {
    9
}

fn run(command: &Command<Action, Later>, state: &mut u64) {
    match command.command {
        CommandType::Sync(action) => action(state, Vec::new()).unwrap(),
        CommandType::Async(_) => panic!("not a command that runs at once"),
    }
}

#[test]
fn a_new_registry_is_empty() {
    let registry: Registry<Action, Later> = Registry::new();
    assert_eq!(registry.len(), 0);
    assert!(registry.get("one").is_none());
    assert_eq!(registry.index_of("one"), None);
    assert!(registry.entry(0).is_none());
}

#[test]
fn commands_are_found_by_name() {
    let mut registry: Registry<Action, Later> = Registry::new();
    assert!(registry.insert("one", Command::new("adds one".to_string(), one)).is_none());
    assert!(registry.insert("two", Command::new("adds two".to_string(), two)).is_none());
    assert_eq!(registry.len(), 2);

    let mut state = 0;
    run(registry.get("two").unwrap(), &mut state);
    assert_eq!(state, 2);
    run(registry.get("one").unwrap(), &mut state);
    assert_eq!(state, 3);
    assert_eq!(registry.get("one").unwrap().help, "adds one");
    assert!(registry.get("three").is_none());
    assert!(registry.get("On").is_none());
    assert!(registry.get("").is_none());
}

#[test]
fn commands_keep_the_order_of_registering() {
    let mut registry: Registry<Action, Later> = Registry::new();
    registry.insert("zeta", Command::new("z".to_string(), one));
    registry.insert("alpha", Command::new("a".to_string(), two));
    registry.insert("mid", Command::new_async("m".to_string(), later));

    assert_eq!(registry.index_of("zeta"), Some(0));
    assert_eq!(registry.index_of("alpha"), Some(1));
    assert_eq!(registry.index_of("mid"), Some(2));
    assert_eq!(registry.index_of("none"), None);

    let names: Vec<&str> = (0..registry.len())
        .map(|place| registry.entry(place).unwrap().0.as_str())
        .collect();
    assert_eq!(names, vec!["zeta", "alpha", "mid"]);
    let helps: Vec<&str> = (0..registry.len())
        .map(|place| registry.entry(place).unwrap().1.help.as_str())
        .collect();
    assert_eq!(helps, vec!["z", "a", "m"]);
    assert!(registry.entry(3).is_none());
    assert!(matches!(registry.entry(2).unwrap().1.command, CommandType::Async(_)));
}

#[test]
fn registering_a_name_again_replaces_the_command_in_place() {
    let mut registry: Registry<Action, Later> = Registry::new();
    registry.insert("first", Command::new("old".to_string(), one));
    registry.insert("second", Command::new("other".to_string(), one));

    let replaced = registry.insert("first", Command::new("new".to_string(), two));
    assert_eq!(replaced.unwrap().help, "old");
    assert_eq!(registry.len(), 2);
    assert_eq!(registry.index_of("first"), Some(0));
    assert_eq!(registry.index_of("second"), Some(1));
    assert_eq!(registry.get("first").unwrap().help, "new");
    assert_eq!(registry.entry(0).unwrap().0, "first");

    let mut state = 0;
    run(registry.get("first").unwrap(), &mut state);
    assert_eq!(state, 2);
}

#[test]
fn a_command_keeps_its_kind() {
    let sync: Command<Action, Later> = Command::new("now".to_string(), one);
    let awaited: Command<Action, Later> = Command::new_async("later".to_string(), later);
    assert!(matches!(sync.command, CommandType::Sync(_)));
    assert!(matches!(awaited.command, CommandType::Async(_)));
    assert_eq!(sync.help, "now");
    assert_eq!(awaited.help, "later");
    let copy = awaited.clone();
    assert!(matches!(copy.command, CommandType::Async(_)));
    assert_eq!(copy.help, "later");
}
