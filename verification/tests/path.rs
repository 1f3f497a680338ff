use boulder_upstream::path::{file_name, join, parent, replace};

#[test]
fn a_part_follows_its_base_and_a_separator() {
    assert_eq!(join("/var/cache", "git"), "/var/cache/git");
    assert_eq!(join("/var/cache/", "git"), "/var/cache/git");
    assert_eq!(join("", "git"), "git");
}

#[test]
fn an_absolute_part_stands_alone() {
    assert_eq!(join("/var/cache", "/etc"), "/etc");
}

#[test]
fn an_empty_part_leaves_a_separator() {
    assert_eq!(join("/var/cache", ""), "/var/cache/");
}

#[test]
fn joined_paths_are_those_of_the_standard_library() {
    for base in ["", "/", "a", "a/", "/a//b", "\u{e9}"] {
        for part in ["", "x", "/x", "x/y/", "..", "\u{e9}"] {
            let expected = std::path::Path::new(base).join(part);
            assert_eq!(join(base, part), expected.to_str().unwrap());
        }
    }
}

#[test]
fn every_separator_is_replaced() {
    assert_eq!(replace("/a/b.c", '/', '.'), ".a.b.c");
    assert_eq!(replace("", '/', '.'), "");
    assert_eq!(replace("\u{e9}/\u{e9}", '/', '.'), "\u{e9}.\u{e9}");
}

#[test]
fn file_names_are_those_of_the_standard_library() {
    let paths = [
        "", "/", ".", "..", "./", "a", "a/", "a//", "/a", "a/b", "a/.", "a/./", "a/..", "./a",
        "../a", "a/b/.", "...", "a/...", ".a", "/.", "//", "a./", "\u{e9}/b\u{e9}",
    ];
    for path in paths {
        let expected = std::path::Path::new(path).file_name().map(|name| name.to_str().unwrap());
        assert_eq!(file_name(path).as_deref(), expected, "{path:?}");
    }
}

#[test]
fn parents_are_those_of_the_standard_library() {
    let segments = ["", ".", "..", "a", "b.c", ".d", "\u{e9}"];
    let mut paths = vec![String::new(), "/".to_owned()];
    for first in segments {
        for second in segments {
            for third in segments {
                paths.push(format!("{first}/{second}"));
                paths.push(format!("/{first}/{second}"));
                paths.push(format!("{first}/{second}/{third}"));
                paths.push(format!("{first}/{second}/{third}/"));
                paths.push(format!("/{first}//{second}/./{third}/."));
            }
        }
        paths.push(first.to_owned());
    }
    for path in paths {
        let expected = std::path::Path::new(&path).parent().map(|dir| dir.to_str().unwrap());
        assert_eq!(parent(&path).as_deref(), expected, "{path:?}");
        let expected = std::path::Path::new(&path).file_name().map(|name| name.to_str().unwrap());
        assert_eq!(file_name(&path).as_deref(), expected, "{path:?}");
    }
}
