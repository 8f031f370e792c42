use cdplus::breadcrumb::{parts, shorten};

#[test]
fn shorten_puts_a_tilde_for_the_home_directory() {
    assert_eq!(shorten("/home/user/projects", "/home/user"), "~/projects");
    assert_eq!(shorten("/home/user", "/home/user"), "~");
}

#[test]
fn shorten_leaves_other_paths_alone() {
    assert_eq!(shorten("/etc/ssh", "/home/user"), "/etc/ssh");
    assert_eq!(shorten("/home", "/home/user"), "/home");
    assert_eq!(shorten("", "/home/user"), "");
}

#[test]
fn shorten_goes_by_the_text_of_the_home_directory() {
    assert_eq!(shorten("/home/username", "/home/user"), "~name");
    assert_eq!(shorten("/usr/bin", ""), "~/usr/bin");
    assert_eq!(shorten("", ""), "~");
}

#[test]
fn shorten_keeps_characters_whole() {
    assert_eq!(shorten("/h\u{e9}/\u{e9}t\u{e9}", "/h\u{e9}"), "~/\u{e9}t\u{e9}");
}

#[test]
fn parts_cuts_at_the_separators() {
    assert_eq!(parts("~/projects/cd"), vec!["~", "projects", "cd"]);
    assert_eq!(parts("/usr/local/bin"), vec!["usr", "local", "bin"]);
    assert_eq!(parts("plain"), vec!["plain"]);
}

#[test]
fn parts_leaves_out_what_is_empty() {
    assert_eq!(parts("//usr///bin/"), vec!["usr", "bin"]);
    assert_eq!(parts("/"), Vec::<String>::new());
    assert_eq!(parts("///"), Vec::<String>::new());
    assert_eq!(parts(""), Vec::<String>::new());
}

#[test]
fn parts_agrees_with_split_and_filter() {
    let samples = ["", "/", "a", "/a", "a/", "/a/b", "a//b", "//", "~/x/y/", "/\u{e9}/z", "a/b/c/d"];
    for sample in samples {
        let expected: Vec<String> =
            sample.split('/').filter(|s| !s.is_empty()).map(|s| s.to_string()).collect();
        assert_eq!(parts(sample), expected);
    }
}

#[test]
fn shorten_agrees_with_starts_with() {
    let paths = ["", "/", "/home", "/home/u", "/home/u/x", "/home/ux", "/etc"];
    let homes = ["", "/", "/home/u", "/home/u/", "/root"];
    for path in paths {
        for home in homes {
            let expected = if path.starts_with(home) {
                format!("~{}", &path[home.len()..])
            } else {
                path.to_string()
            };
            assert_eq!(shorten(path, home), expected);
        }
    }
}
