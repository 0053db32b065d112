use std::path::{Component, Path};

use gemini_mcp::path::{is_absolute_text, join_text, path_components, path_starts_with_text, PathStyle};
use gemini_mcp::text::{
    i32_to_text, is_blank_text, parse_u64_text, split_text, trim_text, u64_to_text, IntParseError,
};

#[test]
fn trim_agrees_with_the_standard_library() {
    let samples = [
        "", " ", "  a b  ", "\t\nx\r\n", "\u{00a0}y\u{3000}", "\u{2028}z\u{205f}", "\u{200b}keep\u{200b}",
        "\u{85}n\u{1680}",
    ];
    for text in samples {
        assert_eq!(trim_text(text), text.trim());
        assert_eq!(is_blank_text(text), text.trim().is_empty());
        assert_eq!(trim_text(&trim_text(text)), trim_text(text));
    }
}

#[test]
fn split_agrees_with_the_standard_library() {
    for text in ["", ",", "a,b", ",a,,b,", "no-sep"] {
        let expected: Vec<String> = text.split(',').map(|p| p.to_string()).collect();
        assert_eq!(split_text(text, ','), expected);
    }
}

#[test]
fn numbers_are_written_in_decimal() {
    for n in [0u64, 7, 10, 99, 600, 1800, u64::MAX] {
        assert_eq!(u64_to_text(n), n.to_string());
        assert_eq!(parse_u64_text(&n.to_string()), Ok(n));
    }
    for n in [0i32, -1, 42, i32::MIN, i32::MAX] {
        assert_eq!(i32_to_text(n), n.to_string());
    }
}

#[test]
fn parse_errors_match_the_standard_library() {
    assert_eq!(parse_u64_text(""), Err(IntParseError::Empty));
    assert_eq!(parse_u64_text("12a"), Err(IntParseError::InvalidDigit));
    assert_eq!(parse_u64_text("-"), Err(IntParseError::InvalidDigit));
    assert_eq!(parse_u64_text("99999999999999999999"), Err(IntParseError::PosOverflow));
    assert_eq!(parse_u64_text("99999999999999999999x"), Err(IntParseError::PosOverflow));
    assert_eq!(parse_u64_text("+007"), Ok(7));
}

#[test]
fn path_components_agree_with_the_standard_library() {
    for p in ["", "/", "//a//b/", "./a/./b", ".", "..", "a/../b", "gemini", "./gemini", "/usr/bin/gemini", "a/."] {
        let expected: Vec<String> = Path::new(p)
            .components()
            .map(|c| match c {
                Component::RootDir => "/".to_string(),
                Component::CurDir => ".".to_string(),
                Component::ParentDir => "..".to_string(),
                Component::Normal(n) => n.to_string_lossy().into_owned(),
                Component::Prefix(_) => unreachable!(),
            })
            .collect();
        assert_eq!(path_components(p, PathStyle::Unix), expected, "components of {p:?}");
        assert_eq!(is_absolute_text(p, PathStyle::Unix), Path::new(p).is_absolute());
    }
}

#[test]
fn prefixes_and_joins_agree_with_the_standard_library() {
    let pairs = [
        ("/srv/work", "/srv/work"),
        ("/srv/work/a", "/srv/work/"),
        ("/srv/workshop", "/srv/work"),
        ("/srv", "/srv/work"),
        ("/a/./b", "/a/b"),
        ("/a", ""),
        ("rel/x", "rel"),
    ];
    for (p, base) in pairs {
        assert_eq!(path_starts_with_text(p, base, PathStyle::Unix), Path::new(p).starts_with(base), "{p:?} {base:?}");
    }
    for (base, p) in [("/srv/work", "a"), ("/srv/", "a/b"), ("", "a"), ("/x", "/abs")] {
        assert_eq!(join_text(base, p, PathStyle::Unix), Path::new(base).join(p).to_string_lossy());
    }
}

#[test]
fn windows_components_and_absoluteness() {
    assert_eq!(path_components(r"C:\a\b", PathStyle::Windows), vec!["C:", r"\", "a", "b"]);
    assert_eq!(path_components("C:a", PathStyle::Windows), vec!["C:", "a"]);
    assert_eq!(path_components(r"\\server\share\x", PathStyle::Windows), vec![r"\\server\share", r"\", "x"]);
    assert_eq!(path_components(r"a/.\b\..", PathStyle::Windows), vec!["a", "b", ".."]);
    assert_eq!(path_components(r".\gemini", PathStyle::Windows), vec![".", "gemini"]);
    assert!(is_absolute_text(r"C:\a", PathStyle::Windows));
    assert!(is_absolute_text("C:/a", PathStyle::Windows));
    assert!(is_absolute_text(r"\\server\share", PathStyle::Windows));
    assert!(is_absolute_text(r"\\?\C:\x", PathStyle::Windows));
    assert!(!is_absolute_text("C:a", PathStyle::Windows));
    assert!(!is_absolute_text(r"\a", PathStyle::Windows));
    assert!(!is_absolute_text("/a", PathStyle::Windows));
    assert!(!is_absolute_text(r"C:\a", PathStyle::Unix));
}

#[test]
fn windows_joins_and_prefixes() {
    assert_eq!(join_text(r"C:\w", "x", PathStyle::Windows), r"C:\w\x");
    assert_eq!(join_text(r"C:\w\", "x", PathStyle::Windows), r"C:\w\x");
    assert_eq!(join_text(r"C:\w", r"\x", PathStyle::Windows), r"C:\x");
    assert_eq!(join_text(r"C:\w", r"D:\y", PathStyle::Windows), r"D:\y");
    assert_eq!(join_text(r"C:\w", "D:y", PathStyle::Windows), "D:y");
    assert_eq!(join_text("C:", "x", PathStyle::Windows), "C:x");
    assert_eq!(join_text("", "x", PathStyle::Windows), "x");
    assert_eq!(join_text(r"\\?\C:\w", r"a\..\b", PathStyle::Windows), r"\\?\C:\w\b");
    assert!(path_starts_with_text(r"C:\w\x", r"C:\w", PathStyle::Windows));
    assert!(path_starts_with_text("C:/w/x", r"C:\w\", PathStyle::Windows));
    assert!(!path_starts_with_text(r"C:\wx", r"C:\w", PathStyle::Windows));
    assert!(!path_starts_with_text(r"D:\w\x", r"C:\w", PathStyle::Windows));
}

#[test]
fn windows_prefixes_compare_by_what_they_name() {
    assert!(path_starts_with_text(r"c:\w\x", r"C:\w", PathStyle::Windows));
    assert!(path_starts_with_text(r"C:\w\x", "c:", PathStyle::Windows));
    assert!(path_starts_with_text("//server/share/x", r"\\server\share", PathStyle::Windows));
    assert!(path_starts_with_text(r"\\?\c:\w\x", r"\\?\C:\w", PathStyle::Windows));
    assert!(!path_starts_with_text(r"\\server\Share\x", r"\\server\share", PathStyle::Windows));
    assert!(!path_starts_with_text(r"\\?\C:\w", r"C:\w", PathStyle::Windows));
    assert!(!path_starts_with_text(r"C:\W\x", r"C:\w", PathStyle::Windows));
    assert!(!path_starts_with_text(r"c:\w\x", r"C:\w", PathStyle::Unix));
}
