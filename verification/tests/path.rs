use cdplus::app::App;
use cdplus::path::name_of;

#[test]
fn name_of_is_the_final_component() {
    assert_eq!(name_of("/start/z.txt"), "z.txt");
    assert_eq!(name_of("relative/dir"), "dir");
    assert_eq!(name_of("plain"), "plain");
}

#[test]
fn name_of_ignores_a_trailing_separator() {
    assert_eq!(name_of("/start/sub/"), "sub");
}

#[test]
fn name_of_is_empty_where_there_is_no_name() {
    assert_eq!(name_of("/"), "");
    assert_eq!(name_of(""), "");
    assert_eq!(name_of("/start/.."), "");
}

#[test]
fn name_of_keeps_characters_whole() {
    assert_eq!(name_of("/d/\u{e9}t\u{e9}.txt"), "\u{e9}t\u{e9}.txt");
}

#[test]
fn parent_dir_is_the_path_without_its_final_component() {
    let parent = |path: &str| App::new(path.to_string(), Vec::new()).parent_dir();
    assert_eq!(parent("/a/b/c"), Some("/a/b".to_string()));
    assert_eq!(parent("/a"), Some("/".to_string()));
    assert_eq!(parent("a/b"), Some("a".to_string()));
    assert_eq!(parent("a"), Some(String::new()));
    assert_eq!(parent("/a/b/"), Some("/a".to_string()));
}

#[test]
fn parent_dir_of_a_root_or_of_nothing_is_none() {
    let parent = |path: &str| App::new(path.to_string(), Vec::new()).parent_dir();
    assert_eq!(parent("/"), None);
    assert_eq!(parent(""), None);
}

#[test]
fn parent_dir_is_shorter_than_the_path() {
    let samples = [
        "/a", "/a/b", "a", "a/b", "./a", "a/.", "a/..", "..", ".", "/a/", "/a//b", "//a",
        "/\u{e9}/\u{e9}", "a/b/c/d/e", "/.hidden", "~/x",
    ];
    for path in samples {
        match App::new(path.to_string(), Vec::new()).parent_dir() {
            Some(up) => assert!(up.chars().count() < path.chars().count()),
            None => {}
        }
    }
}
