use quickcmd::command_map::CommandMap;
use quickcmd::commands::{
    classify_outcome, list_commands, remove_command, run_command, save_command, show_command,
    RunError, ShellOutcome,
};
use quickcmd::model::{FileJson, CURRENT_VERSION};
use quickcmd::name_order::{order_names, NameOrder};
use std::cell::RefCell;

#[test]
fn new_store_is_empty_with_version_one() {
    let store = FileJson::new();
    assert_eq!(store.version, 1);
    assert_eq!(CURRENT_VERSION, 1);
    assert_eq!(store.commands.len(), 0);
    assert!(list_commands(&store).is_empty());
}

#[test]
fn save_then_show_returns_the_text() {
    let mut store = FileJson::new();
    save_command(&mut store, "up", "docker compose up -d");
    assert_eq!(show_command(&store, "up"), Some("docker compose up -d"));
    assert_eq!(store.version, 1);
}

#[test]
fn save_stores_text_verbatim() {
    let mut store = FileJson::new();
    save_command(&mut store, "q", "echo \"a  b\" 'c' $HOME \\n");
    assert_eq!(show_command(&store, "q"), Some("echo \"a  b\" 'c' $HOME \\n"));
    save_command(&mut store, "empty", "");
    assert_eq!(show_command(&store, "empty"), Some(""));
}

#[test]
fn save_overwrites_an_alias() {
    let mut store = FileJson::new();
    save_command(&mut store, "up", "one");
    save_command(&mut store, "up", "two");
    assert_eq!(show_command(&store, "up"), Some("two"));
    assert_eq!(list_commands(&store), vec!["up".to_string()]);
    assert_eq!(store.commands.len(), 1);
}

#[test]
fn show_of_absent_alias_is_none() {
    let mut store = FileJson::new();
    assert_eq!(show_command(&store, "up"), None);
    save_command(&mut store, "up", "x");
    assert_eq!(show_command(&store, "u"), None);
    assert_eq!(show_command(&store, "upp"), None);
    assert_eq!(show_command(&store, ""), None);
}

#[test]
fn list_is_sorted_whatever_the_insertion_order() {
    let mut store = FileJson::new();
    save_command(&mut store, "z", "1");
    save_command(&mut store, "a", "2");
    save_command(&mut store, "m", "3");
    assert_eq!(
        list_commands(&store),
        vec!["a".to_string(), "m".to_string(), "z".to_string()]
    );
    assert_eq!(show_command(&store, "z"), Some("1"));
    assert_eq!(show_command(&store, "a"), Some("2"));
    assert_eq!(show_command(&store, "m"), Some("3"));
}

#[test]
fn list_orders_by_code_point() {
    let mut store = FileJson::new();
    for name in ["b", "B", "ab", "a", "", "é", "z", "a b", "10", "9"] {
        save_command(&mut store, name, name);
    }
    let mut expected: Vec<String> = ["b", "B", "ab", "a", "", "é", "z", "a b", "10", "9"]
        .iter()
        .map(|s| s.to_string())
        .collect();
    expected.sort();
    assert_eq!(list_commands(&store), expected);
}

#[test]
fn remove_returns_the_text_and_deletes() {
    let mut store = FileJson::new();
    save_command(&mut store, "up", "docker compose up -d");
    save_command(&mut store, "down", "docker compose down");
    assert_eq!(
        remove_command(&mut store, "up"),
        Some("docker compose up -d".to_string())
    );
    assert_eq!(show_command(&store, "up"), None);
    assert_eq!(show_command(&store, "down"), Some("docker compose down"));
    assert_eq!(list_commands(&store), vec!["down".to_string()]);
}

#[test]
fn remove_of_absent_alias_changes_nothing() {
    let mut store = FileJson::new();
    save_command(&mut store, "a", "1");
    save_command(&mut store, "c", "3");
    assert_eq!(remove_command(&mut store, "b"), None);
    assert_eq!(list_commands(&store), vec!["a".to_string(), "c".to_string()]);
    assert_eq!(show_command(&store, "a"), Some("1"));
    assert_eq!(show_command(&store, "c"), Some("3"));
    assert_eq!(store.version, 1);
}

#[test]
fn remove_twice_is_safe() {
    let mut store = FileJson::new();
    save_command(&mut store, "a", "1");
    assert_eq!(remove_command(&mut store, "a"), Some("1".to_string()));
    assert_eq!(remove_command(&mut store, "a"), None);
    assert_eq!(remove_command(&mut store, "a"), None);
    assert!(list_commands(&store).is_empty());
}

#[test]
fn command_map_tracks_keys() {
    let mut map = CommandMap::new();
    assert!(!map.contains_key("k"));
    map.insert("k", "v");
    map.insert("j", "w");
    assert!(map.contains_key("k"));
    assert_eq!(map.get("j"), Some("w"));
    assert_eq!(map.len(), 2);
    assert_eq!(map.names(), vec!["j".to_string(), "k".to_string()]);
    assert_eq!(map.remove("k"), Some("v".to_string()));
    assert_eq!(map.len(), 1);
}

#[test]
fn names_are_ordered_character_by_character() {
    assert_eq!(order_names("a", "b"), NameOrder::Before);
    assert_eq!(order_names("b", "a"), NameOrder::After);
    assert_eq!(order_names("abc", "abc"), NameOrder::Same);
    assert_eq!(order_names("", ""), NameOrder::Same);
    assert_eq!(order_names("", "a"), NameOrder::Before);
    assert_eq!(order_names("a", ""), NameOrder::After);
    assert_eq!(order_names("ab", "abc"), NameOrder::Before);
    assert_eq!(order_names("abd", "abc"), NameOrder::After);
    assert_eq!(order_names("Z", "a"), NameOrder::Before);
    assert_eq!(order_names("z", "é"), NameOrder::Before);
    assert_eq!(order_names("é", "e"), NameOrder::After);
}

#[test]
fn run_on_missing_alias_is_not_found_and_starts_no_shell() {
    let store = FileJson::new();
    let calls: RefCell<Vec<String>> = RefCell::new(Vec::new());
    let result = run_command(&store, "up", |text: &str| {
        calls.borrow_mut().push(text.to_string());
        ShellOutcome::Exited(Some(0))
    });
    assert_eq!(result, Err(RunError::NotFound));
    assert!(calls.borrow().is_empty());
}

#[test]
fn run_hands_the_saved_text_to_the_shell_once() {
    let mut store = FileJson::new();
    save_command(&mut store, "up", "docker compose up -d");
    let calls: RefCell<Vec<String>> = RefCell::new(Vec::new());
    let result = run_command(&store, "up", |text: &str| {
        calls.borrow_mut().push(text.to_string());
        ShellOutcome::Exited(Some(0))
    });
    assert_eq!(result, Ok(()));
    assert_eq!(*calls.borrow(), vec!["docker compose up -d".to_string()]);
}

#[test]
fn run_reports_the_exit_status_of_a_failed_command() {
    let mut store = FileJson::new();
    save_command(&mut store, "three", "exit 3");
    let result = run_command(&store, "three", |_text: &str| ShellOutcome::Exited(Some(3)));
    assert_eq!(result, Err(RunError::CommandFailed(Some(3))));
}

#[test]
fn run_reports_a_shell_that_did_not_start() {
    let mut store = FileJson::new();
    save_command(&mut store, "x", "true");
    let result = run_command(&store, "x", |_text: &str| {
        ShellOutcome::LaunchFailed("no such file".to_string())
    });
    assert_eq!(result, Err(RunError::Launch("no such file".to_string())));
}

#[test]
fn outcomes_are_classified() {
    assert_eq!(classify_outcome(ShellOutcome::Exited(Some(0))), Ok(()));
    assert_eq!(
        classify_outcome(ShellOutcome::Exited(Some(1))),
        Err(RunError::CommandFailed(Some(1)))
    );
    assert_eq!(
        classify_outcome(ShellOutcome::Exited(Some(-1))),
        Err(RunError::CommandFailed(Some(-1)))
    );
    assert_eq!(
        classify_outcome(ShellOutcome::Exited(None)),
        Err(RunError::CommandFailed(None))
    );
    assert_eq!(
        classify_outcome(ShellOutcome::LaunchFailed("denied".to_string())),
        Err(RunError::Launch("denied".to_string()))
    );
}
