use std::path::Path;

use wtui::path::FilePath;

/// Spellings of paths, plain and odd.
fn spellings() -> Vec<&'static str> {
    vec![
        "", "/", "//", ".", "./", "..", "../", "/.", "/..", "a", "a/", "a/.", "a/./", "a//", "./a",
        ".//a", "././a", "a/b", "a/b/", "a//b", "a/./b", "a/../b", "a/..", "/a", "/a/", "//a",
        "/./a", "/a/b", "/a/b/.", "/a/b//./", "/a/..", "../a", ".a", "a.", "...", "/...", "a/.b",
        "é/ü", "/repos/botanic", "/repos/botanic/", "/repos//botanic", "./.", "/a/./..",
    ]
}

fn text(path: FilePath) -> String {
    String::from_utf8(path.bytes).unwrap()
}

#[test]
fn paths_are_equal_by_their_components() {
    for a in spellings() {
        for b in spellings() {
            assert_eq!(
                FilePath::from_text(a) == FilePath::from_text(b),
                Path::new(a) == Path::new(b),
                "{a:?} {b:?}",
            );
            assert_eq!(
                FilePath::from_text(a).same_path(&FilePath::from_text(b)),
                Path::new(a) == Path::new(b),
            );
        }
    }
}

#[test]
fn path_has_a_last_component_and_a_parent() {
    for spelling in spellings() {
        let path = FilePath::from_text(spelling);
        let expected = Path::new(spelling);
        assert_eq!(
            path.file_name_text(),
            expected.file_name().map(|name| name.to_str().unwrap().to_owned()),
            "{spelling:?}",
        );
        assert_eq!(
            path.file_name().map(|name| String::from_utf8(name).unwrap()),
            path.file_name_text(),
        );
        assert_eq!(
            path.parent().map(text),
            expected.parent().map(|parent| parent.to_str().unwrap().to_owned()),
            "{spelling:?}",
        );
        assert_eq!(path.is_absolute(), expected.is_absolute());
    }
}

#[test]
fn names_are_joined_to_paths() {
    for spelling in spellings() {
        for name in ["x", "/x", "x/y", "", "."] {
            assert_eq!(
                text(FilePath::from_text(spelling).join(name)),
                Path::new(spelling).join(name).to_str().unwrap(),
                "{spelling:?} {name:?}",
            );
        }
    }
}

#[test]
fn joined_name_is_the_last_component() {
    for spelling in spellings() {
        let whole = FilePath::from_text(spelling).join("botanic-feature");
        assert_eq!(whole.file_name_text().as_deref(), Some("botanic-feature"));
        assert!(whole.parent().unwrap() == FilePath::from_text(spelling));
    }
}

#[test]
fn path_need_not_be_unicode() {
    let path = FilePath { bytes: b"/repos/bot\xffnic".to_vec() };
    assert_eq!(path.to_text(), "/repos/bot\u{fffd}nic");
    assert_eq!(path.file_name_text(), None);
    assert_eq!(path.file_name(), Some(b"bot\xffnic".to_vec()));
    assert_eq!(text(path.parent().unwrap()), "/repos");
    let path = FilePath { bytes: b"/r\xc3\xa9pos/x".to_vec() };
    assert_eq!(path.to_text(), "/répos/x");
    assert_eq!(path.clone().bytes, path.bytes);
}
