use cdplus::app::{start_dir, target_dir, App};
use cdplus::listing::Entry;

fn dir(path: &str) -> Entry {
    Entry { path: path.to_string(), is_dir: true }
}

fn file(path: &str) -> Entry {
    Entry { path: path.to_string(), is_dir: false }
}

fn paths(entries: &Vec<Entry>) -> Vec<String> {
    entries.iter().map(|e| e.path.clone()).collect()
}

fn start() -> App {
    App::new("/start".to_string(), vec![dir("/start/b"), dir("/start/a"), file("/start/z.txt")])
}

#[test]
fn start_dir_is_the_working_directory() {
    assert_eq!(start_dir(Some("/home/user".to_string())), "/home/user");
    assert_eq!(start_dir(Some(String::new())), "");
}

#[test]
fn start_dir_falls_back_to_the_root() {
    assert_eq!(start_dir(None), "/");
}

#[test]
fn new_lists_the_directory_in_order() {
    let app = start();
    assert_eq!(app.current_dir(), "/start");
    assert_eq!(app.search_query(), "");
    assert_eq!(paths(app.all_items()), vec!["/start/a", "/start/b", "/start/z.txt"]);
    assert_eq!(app.items(), app.all_items());
    assert_eq!(app.selected(), Some(0));
    assert_eq!(app.state().selected(), Some(0));
}

#[test]
fn new_on_an_empty_directory_has_no_cursor() {
    let app = App::new("/empty".to_string(), Vec::new());
    assert!(app.all_items().is_empty());
    assert!(app.items().is_empty());
    assert_eq!(app.selected(), None);
}

#[test]
fn browse_filter_and_confirm() {
    let mut app = start();
    assert_eq!(paths(app.all_items()), vec!["/start/a", "/start/b", "/start/z.txt"]);
    app.append_to_filter('z');
    assert_eq!(app.search_query(), "z");
    assert_eq!(paths(app.items()), vec!["/start/z.txt"]);
    assert_eq!(app.selected(), Some(0));
    assert_eq!(app.selected_path(), Some("/start/z.txt".to_string()));
    assert_eq!(app.get_selected_path(false), "/start");
}

#[test]
fn load_directories_keeps_the_filter_and_resets_the_cursor() {
    let mut app = start();
    app.set_filter("a".to_string());
    app.load_directories(vec![file("/start/data"), dir("/start/cache"), dir("/start/x")]);
    assert_eq!(app.current_dir(), "/start");
    assert_eq!(app.search_query(), "a");
    assert_eq!(paths(app.all_items()), vec!["/start/cache", "/start/x", "/start/data"]);
    assert_eq!(paths(app.items()), vec!["/start/cache", "/start/data"]);
    assert_eq!(app.selected(), Some(0));
}

#[test]
fn load_directories_with_nothing_empties_the_listing() {
    let mut app = start();
    app.load_directories(Vec::new());
    assert!(app.all_items().is_empty());
    assert!(app.items().is_empty());
    assert_eq!(app.selected(), None);
    app.next();
    app.previous();
    assert_eq!(app.selected(), None);
    assert_eq!(app.get_selected_path(true), "/start");
    assert!(!app.enter_directory(true, vec![dir("/x/y")]));
    assert_eq!(app.current_dir(), "/start");
}

#[test]
fn apply_search_puts_the_cursor_back_on_the_first_entry() {
    let mut app = start();
    app.next();
    app.next();
    assert_eq!(app.selected(), Some(2));
    app.apply_search();
    assert_eq!(app.selected(), Some(0));
    assert_eq!(paths(app.items()), vec!["/start/a", "/start/b", "/start/z.txt"]);
}

#[test]
fn set_filter_shows_the_matching_entries() {
    let mut app = start();
    app.next();
    app.set_filter("B".to_string());
    assert_eq!(app.search_query(), "B");
    assert_eq!(paths(app.items()), vec!["/start/b"]);
    assert_eq!(app.selected(), Some(0));
    app.set_filter("nothing".to_string());
    assert!(app.items().is_empty());
    assert_eq!(app.selected(), None);
    app.set_filter(String::new());
    assert_eq!(app.items(), app.all_items());
    assert_eq!(app.selected(), Some(0));
    assert_eq!(paths(app.all_items()), vec!["/start/a", "/start/b", "/start/z.txt"]);
}

#[test]
fn is_filtering_tells_whether_there_is_a_query() {
    let mut app = start();
    assert!(!app.is_filtering());
    app.append_to_filter('q');
    assert!(app.is_filtering());
    app.remove_last_filter_char();
    assert!(!app.is_filtering());
}

#[test]
fn append_and_remove_change_the_query_by_one_character() {
    let mut app = start();
    app.append_to_filter('t');
    app.append_to_filter('x');
    assert_eq!(app.search_query(), "tx");
    assert_eq!(paths(app.items()), vec!["/start/z.txt"]);
    app.append_to_filter('q');
    assert_eq!(app.search_query(), "txq");
    assert!(app.items().is_empty());
    assert_eq!(app.selected(), None);
    app.remove_last_filter_char();
    assert_eq!(app.search_query(), "tx");
    assert_eq!(paths(app.items()), vec!["/start/z.txt"]);
    assert_eq!(app.selected(), Some(0));
    app.remove_last_filter_char();
    app.remove_last_filter_char();
    assert_eq!(app.search_query(), "");
    assert_eq!(app.items(), app.all_items());
}

#[test]
fn remove_from_an_empty_query_changes_nothing() {
    let mut app = start();
    app.next();
    app.remove_last_filter_char();
    assert_eq!(app.search_query(), "");
    assert_eq!(app.selected(), Some(1));
    assert_eq!(app.items(), app.all_items());
}

#[test]
fn next_stops_at_the_last_entry() {
    let mut app = start();
    let count = app.items().len();
    for _ in 0..count {
        app.next();
    }
    assert_eq!(app.selected(), Some(count - 1));
    app.next();
    app.next();
    assert_eq!(app.selected(), Some(count - 1));
}

#[test]
fn next_moves_one_entry_at_a_time() {
    let mut app = start();
    app.next();
    assert_eq!(app.selected(), Some(1));
    app.next();
    assert_eq!(app.selected(), Some(2));
}

#[test]
fn previous_stops_at_the_first_entry() {
    let mut app = start();
    app.next();
    app.next();
    let count = app.items().len();
    for _ in 0..count {
        app.previous();
    }
    assert_eq!(app.selected(), Some(0));
    app.previous();
    assert_eq!(app.selected(), Some(0));
}

#[test]
fn previous_moves_one_entry_at_a_time() {
    let mut app = start();
    app.next();
    app.next();
    app.previous();
    assert_eq!(app.selected(), Some(1));
}

#[test]
fn enter_directory_refuses_a_file() {
    let mut app = start();
    app.next();
    app.next();
    app.append_to_filter('z');
    assert_eq!(app.selected_path(), Some("/start/z.txt".to_string()));
    assert!(!app.enter_directory(false, Vec::new()));
    assert_eq!(app.current_dir(), "/start");
    assert_eq!(app.search_query(), "z");
    assert_eq!(paths(app.items()), vec!["/start/z.txt"]);
    assert_eq!(app.selected(), Some(0));
}

#[test]
fn enter_directory_moves_into_the_selected_directory() {
    let mut app = start();
    app.append_to_filter('b');
    assert_eq!(app.selected_path(), Some("/start/b".to_string()));
    assert!(app.enter_directory(true, vec![file("/start/b/two"), dir("/start/b/one")]));
    assert_eq!(app.current_dir(), "/start/b");
    assert_eq!(app.search_query(), "");
    assert_eq!(paths(app.all_items()), vec!["/start/b/one", "/start/b/two"]);
    assert_eq!(app.items(), app.all_items());
    assert_eq!(app.selected(), Some(0));
}

#[test]
fn enter_directory_without_a_selection_does_nothing() {
    let mut app = start();
    app.set_filter("none".to_string());
    assert_eq!(app.selected_path(), None);
    assert!(!app.enter_directory(true, vec![dir("/start/b/one")]));
    assert_eq!(app.current_dir(), "/start");
    assert_eq!(app.search_query(), "none");
}

#[test]
fn go_to_parent_moves_up_and_clears_the_filter() {
    let mut app = start();
    app.append_to_filter('z');
    assert_eq!(app.parent_dir(), Some("/".to_string()));
    app.go_to_parent(vec![dir("/start"), dir("/etc"), file("/init")]);
    assert_eq!(app.current_dir(), "/");
    assert_eq!(app.search_query(), "");
    assert_eq!(paths(app.all_items()), vec!["/etc", "/start", "/init"]);
    assert_eq!(app.items(), app.all_items());
    assert_eq!(app.selected(), Some(0));
}

#[test]
fn go_to_parent_from_a_nested_directory() {
    let mut app = App::new("/a/b/c".to_string(), Vec::new());
    assert_eq!(app.parent_dir(), Some("/a/b".to_string()));
    app.go_to_parent(vec![dir("/a/b/c")]);
    assert_eq!(app.current_dir(), "/a/b");
    assert_eq!(app.selected(), Some(0));
}

#[test]
fn go_to_parent_from_the_root_does_nothing() {
    let mut app = App::new("/".to_string(), vec![dir("/etc"), file("/init")]);
    app.append_to_filter('i');
    app.next();
    assert_eq!(app.parent_dir(), None);
    app.go_to_parent(vec![dir("/elsewhere")]);
    assert_eq!(app.current_dir(), "/");
    assert_eq!(app.search_query(), "i");
    assert_eq!(paths(app.all_items()), vec!["/etc", "/init"]);
    assert_eq!(paths(app.items()), vec!["/init"]);
    assert_eq!(app.selected(), Some(0));
}

#[test]
fn get_selected_path_without_a_selection_is_the_current_directory() {
    let mut app = App::new("/empty".to_string(), Vec::new());
    assert_eq!(app.get_selected_path(false), "/empty");
    assert_eq!(app.get_selected_path(true), "/empty");
    let mut filtered = start();
    filtered.set_filter("none".to_string());
    assert_eq!(filtered.get_selected_path(false), "/start");
}

#[test]
fn get_selected_path_of_a_directory_is_that_directory() {
    let mut app = start();
    app.next();
    assert_eq!(app.get_selected_path(true), "/start/b");
    assert_eq!(app.selected(), Some(1));
}

#[test]
fn get_selected_path_of_a_file_is_the_directory_that_holds_it() {
    let mut app = start();
    app.next();
    app.next();
    assert_eq!(app.selected_path(), Some("/start/z.txt".to_string()));
    assert_eq!(app.get_selected_path(false), "/start");
    let mut elsewhere = App::new("/here".to_string(), vec![file("/there/deep/f.txt")]);
    assert_eq!(elsewhere.get_selected_path(false), "/there/deep");
}

#[test]
fn get_selected_path_of_a_vanished_directory_is_its_parent() {
    let mut app = start();
    assert_eq!(app.selected_path(), Some("/start/a".to_string()));
    assert_eq!(app.get_selected_path(false), "/start");
}

#[test]
fn get_selected_path_of_a_file_without_a_parent_is_the_current_directory() {
    let mut app = App::new("/here".to_string(), vec![file("/")]);
    assert_eq!(app.get_selected_path(false), "/here");
}

#[test]
fn target_dir_follows_the_selection() {
    let entry = file("/start/z.txt");
    assert_eq!(target_dir(Some(&entry), false, Some("/start".to_string()), "/cur"), "/start");
    assert_eq!(target_dir(Some(&entry), false, None, "/cur"), "/cur");
    assert_eq!(target_dir(Some(&entry), true, None, "/cur"), "/start/z.txt");
    assert_eq!(target_dir(Some(&entry), true, Some("/start".to_string()), "/cur"), "/start/z.txt");
    assert_eq!(target_dir(None, true, Some("/start".to_string()), "/cur"), "/cur");
    assert_eq!(target_dir(None, false, None, "/cur"), "/cur");
}

#[test]
fn change_directory_opens_the_directory_without_a_filter() {
    let mut app = start();
    app.append_to_filter('a');
    app.change_directory("/other".to_string(), vec![file("/other/f"), dir("/other/d")]);
    assert_eq!(app.current_dir(), "/other");
    assert_eq!(app.search_query(), "");
    assert_eq!(paths(app.items()), vec!["/other/d", "/other/f"]);
    assert_eq!(app.selected(), Some(0));
}

#[test]
fn cursor_is_valid_after_every_operation() {
    let mut app = start();
    let check = |app: &App| match app.selected() {
        Some(i) => assert!(i < app.items().len()),
        None => assert!(app.items().is_empty()),
    };
    check(&app);
    app.next();
    check(&app);
    app.append_to_filter('z');
    check(&app);
    app.next();
    check(&app);
    app.append_to_filter('q');
    check(&app);
    app.previous();
    check(&app);
    app.remove_last_filter_char();
    check(&app);
    app.load_directories(vec![dir("/start/only")]);
    check(&app);
    app.set_filter(String::new());
    check(&app);
    assert!(app.enter_directory(true, Vec::new()));
    check(&app);
    app.go_to_parent(vec![dir("/start/only"), file("/start/f")]);
    check(&app);
    app.apply_search();
    check(&app);
}
