use kernel::path::{canonicalize, find_scheme_end, parent_len};

fn canon(dir: &str, path: &str) -> String {
    String::from_utf8(canonicalize(dir.as_bytes(), path.as_bytes())).unwrap()
}

#[test]
fn qualified_paths_stay_as_they_are() {
    assert_eq!(canon("file:/home/user", "other:/path"), "other:/path");
    assert_eq!(canon("file:/home/user", "./a:b"), "./a:b");
    assert_eq!(canon("", "initfs:bin/init"), "initfs:bin/init");
    assert_eq!(canon("file:/", ":"), ":");
}

#[test]
fn dot_and_dot_dot() {
    assert_eq!(canon("file:/home/user", "."), "file:/home/user");
    assert_eq!(canon("file:/home/user", ".."), "file:/home");
    assert_eq!(canon("file:/home/user/", ".."), "file:/home");
    assert_eq!(canon("file:/home", ".."), "file:");
    assert_eq!(canon("file:", ".."), "file:");
    assert_eq!(canon("file:/", ".."), "file");
    assert_eq!(canon("plain", ".."), "plain");
    assert_eq!(canon("", "."), "");
    assert_eq!(canon("", ".."), "");
}

#[test]
fn below_the_directory_and_its_parent() {
    assert_eq!(canon("file:/home/user", "./x"), "file:/home/user/x");
    assert_eq!(canon("file:/home/user/", "./x"), "file:/home/user/x");
    assert_eq!(canon("file:/home/user", "./"), "file:/home/user/");
    assert_eq!(canon("file:/home/user", "../x"), "file:/home/x");
    assert_eq!(canon("file:/home/user/", "../x/y"), "file:/home/x/y");
    assert_eq!(canon("file:/home", "../x"), "file:/x");
}

#[test]
fn absolute_paths_keep_the_scheme() {
    assert_eq!(canon("file:/home/user", "/etc"), "file:/etc");
    assert_eq!(canon("file:", "/"), "file:/");
    assert_eq!(canon("plain", "/etc"), "p/etc");
    assert_eq!(canon("", "/etc"), "/etc");
}

#[test]
fn relative_paths_lie_below_the_directory() {
    assert_eq!(canon("file:/home/user", "rel"), "file:/home/user/rel");
    assert_eq!(canon("file:/home/user/", "rel/more"), "file:/home/user/rel/more");
    assert_eq!(canon("file:/home/user", ""), "file:/home/user/");
    assert_eq!(canon("file:/home/user", "..x"), "file:/home/user/..x");
    assert_eq!(canon("file:/home/user", ".x"), "file:/home/user/.x");
    assert_eq!(canon("", "rel"), "/rel");
}

#[test]
fn scheme_end_and_parent_len() {
    assert_eq!(find_scheme_end(b"file:/a:b"), Some(4));
    assert_eq!(find_scheme_end(b"/a/b"), None);
    assert_eq!(find_scheme_end(b""), None);
    assert_eq!(parent_len(b"file:/home/user"), 10);
    assert_eq!(parent_len(b"file:/home/"), 5);
    assert_eq!(parent_len(b"file:"), 5);
    assert_eq!(parent_len(b"/"), 1);
    assert_eq!(parent_len(b""), 0);
}
