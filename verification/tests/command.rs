use cdplus::app::App;
use cdplus::command::{Command, Facts, Lookup, Outcome};
use cdplus::listing::Entry;
use cdplus::reading::Found;

fn dir(path: &str) -> Entry {
    Entry { path: path.to_string(), is_dir: true }
}

fn file(path: &str) -> Entry {
    Entry { path: path.to_string(), is_dir: false }
}

fn paths(entries: &Vec<Entry>) -> Vec<String> {
    entries.iter().map(|e| e.path.clone()).collect()
}

fn found_dir(path: &str) -> Found {
    Found { path: path.to_string(), is_dir: Some(true) }
}

fn found_file(path: &str) -> Found {
    Found { path: path.to_string(), is_dir: Some(false) }
}

fn unreadable(path: &str) -> Found {
    Found { path: path.to_string(), is_dir: None }
}

fn nothing() -> Facts {
    Facts { is_dir: false, reading: None }
}

fn start() -> App {
    App::new("/start".to_string(), vec![dir("/start/b"), dir("/start/a"), file("/start/z.txt")])
}

#[test]
fn commands_on_the_query_and_the_cursor_need_no_lookup() {
    let app = start();
    assert_eq!(app.lookup_for(Command::AppendToFilter('x')), Lookup::Nothing);
    assert_eq!(app.lookup_for(Command::RemoveLastFilterChar), Lookup::Nothing);
    assert_eq!(app.lookup_for(Command::CursorUp), Lookup::Nothing);
    assert_eq!(app.lookup_for(Command::CursorDown), Lookup::Nothing);
    assert_eq!(app.lookup_for(Command::Cancel), Lookup::Nothing);
}

#[test]
fn ascend_asks_for_the_entries_of_the_parent() {
    let app = start();
    assert_eq!(app.lookup_for(Command::Ascend), Lookup::Entries("/".to_string()));
    let root = App::new("/".to_string(), vec![dir("/start")]);
    assert_eq!(root.lookup_for(Command::Ascend), Lookup::Nothing);
}

#[test]
fn descend_and_confirm_ask_about_the_selected_entry() {
    let mut app = start();
    app.next();
    assert_eq!(app.lookup_for(Command::Descend), Lookup::Directory("/start/b".to_string()));
    assert_eq!(app.lookup_for(Command::Confirm), Lookup::Kind("/start/b".to_string()));
    let empty = App::new("/empty".to_string(), Vec::new());
    assert_eq!(empty.lookup_for(Command::Descend), Lookup::Nothing);
    assert_eq!(empty.lookup_for(Command::Confirm), Lookup::Nothing);
}

#[test]
fn handle_changes_the_query() {
    let mut app = start();
    assert_eq!(app.handle(Command::AppendToFilter('z'), nothing()), Outcome::Continue);
    assert_eq!(app.search_query(), "z");
    assert_eq!(paths(app.items()), vec!["/start/z.txt"]);
    assert_eq!(app.selected(), Some(0));
    assert_eq!(app.handle(Command::RemoveLastFilterChar, nothing()), Outcome::Continue);
    assert_eq!(app.search_query(), "");
    assert_eq!(app.items().len(), 3);
    assert_eq!(app.handle(Command::RemoveLastFilterChar, nothing()), Outcome::Continue);
    assert_eq!(app.search_query(), "");
}

#[test]
fn handle_moves_the_cursor() {
    let mut app = start();
    assert_eq!(app.handle(Command::CursorDown, nothing()), Outcome::Continue);
    assert_eq!(app.selected(), Some(1));
    assert_eq!(app.handle(Command::CursorDown, nothing()), Outcome::Continue);
    assert_eq!(app.handle(Command::CursorDown, nothing()), Outcome::Continue);
    assert_eq!(app.selected(), Some(2));
    assert_eq!(app.handle(Command::CursorUp, nothing()), Outcome::Continue);
    assert_eq!(app.selected(), Some(1));
}

#[test]
fn handle_ascends() {
    let mut app = start();
    let facts = Facts {
        is_dir: true,
        reading: Some(vec![found_file("/init"), unreadable("/lost"), found_dir("/start")]),
    };
    assert_eq!(app.handle(Command::Ascend, facts), Outcome::Continue);
    assert_eq!(app.current_dir(), "/");
    assert_eq!(paths(app.items()), vec!["/start", "/init"]);
    assert_eq!(app.handle(Command::Ascend, nothing()), Outcome::Continue);
    assert_eq!(app.current_dir(), "/");
    assert_eq!(paths(app.items()), vec!["/start", "/init"]);
}

#[test]
fn handle_descends_into_a_directory_only() {
    let mut app = start();
    let inside = Facts { is_dir: true, reading: Some(vec![found_file("/start/a/f")]) };
    assert_eq!(app.handle(Command::Descend, inside), Outcome::Continue);
    assert_eq!(app.current_dir(), "/start/a");
    assert_eq!(paths(app.items()), vec!["/start/a/f"]);
    let not_a_directory = Facts { is_dir: false, reading: Some(vec![found_file("/x/y")]) };
    assert_eq!(app.handle(Command::Descend, not_a_directory), Outcome::Continue);
    assert_eq!(app.current_dir(), "/start/a");
    assert_eq!(paths(app.items()), vec!["/start/a/f"]);
}

#[test]
fn handle_confirms_with_a_directory() {
    let mut app = start();
    let facts = Facts { is_dir: true, reading: None };
    assert_eq!(app.handle(Command::Confirm, facts), Outcome::Selected("/start/a".to_string()));
    assert_eq!(app.handle(Command::AppendToFilter('z'), nothing()), Outcome::Continue);
    assert_eq!(app.handle(Command::Confirm, nothing()), Outcome::Selected("/start".to_string()));
    assert_eq!(app.handle(Command::AppendToFilter('q'), nothing()), Outcome::Continue);
    assert_eq!(app.handle(Command::Confirm, nothing()), Outcome::Selected("/start".to_string()));
    assert_eq!(app.current_dir(), "/start");
    assert_eq!(app.search_query(), "zq");
}

#[test]
fn handle_descends_into_a_directory_that_cannot_be_read() {
    let mut app = start();
    let unread = Facts { is_dir: true, reading: None };
    assert_eq!(app.handle(Command::Descend, unread), Outcome::Continue);
    assert_eq!(app.current_dir(), "/start/a");
    assert!(app.all_items().is_empty());
    assert!(app.items().is_empty());
    assert_eq!(app.selected(), None);
    assert_eq!(app.handle(Command::CursorDown, nothing()), Outcome::Continue);
    assert_eq!(app.selected(), None);
    assert_eq!(app.handle(Command::Confirm, nothing()), Outcome::Selected("/start/a".to_string()));
}

#[test]
fn handle_cancels_without_a_result() {
    let mut app = start();
    assert_eq!(app.handle(Command::Cancel, nothing()), Outcome::Cancelled);
    assert_eq!(app.current_dir(), "/start");
    assert_eq!(app.selected(), Some(0));
}

#[test]
fn cancelling_differs_from_confirming_the_current_directory() {
    let mut app = App::new("/empty".to_string(), Vec::new());
    let confirmed = app.handle(Command::Confirm, nothing());
    let cancelled = app.handle(Command::Cancel, nothing());
    assert_eq!(confirmed, Outcome::Selected("/empty".to_string()));
    assert_ne!(confirmed, cancelled);
}
