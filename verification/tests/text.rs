use simdeck::encoding::{percent_encode, xml_escape};
use simdeck::numbers::{
    decimal_padded_text, decimal_text, hex_padded_text, parse_u16, parse_u32, parse_unsigned,
    parse_usize,
};
use simdeck::paths::{
    client_root_below, default_client_root, executable_candidate, is_record_file, join_path,
    paths_refer_to_same_file, project_marks, project_root, same_option_path, same_path, Directory,
};
use simdeck::text::{
    ascii_lowercase, contains, eq_ignore_ascii_case, is_blank, is_white_space, join, lines,
    replace_char, starts_with, strip_prefix, trim, trim_end_char, trim_start, words,
};

fn samples() -> Vec<&'static str> {
    vec![
        "", " ", "\t\n", "a", " a ", "\u{a0}a\u{2003}", "a  b\tc", "é\u{3000}ü", "--flag", "a\r\nb\n",
        "\n\n", "x\ry", "a\n", "\u{85}x", "\u{200b}", "end\r", "0012", "+7", "-7", "65535", "65536",
        "4294967296", "1_0", " 5",
    ]
}

#[test]
fn white_space_is_that_of_the_standard_library() {
    for code in 0..=0x10ffffu32 {
        if let Some(c) = char::from_u32(code) {
            assert_eq!(is_white_space(c), c.is_whitespace(), "{code:x}");
        }
    }
}

#[test]
fn texts_are_cut_as_the_standard_library_cuts_them() {
    for text in samples() {
        assert_eq!(trim(text), text.trim());
        assert_eq!(trim(&trim(text)), trim(text));
        assert_eq!(trim_start(text), text.trim_start());
        assert_eq!(is_blank(text), text.trim().is_empty());
        assert_eq!(lines(text), text.lines().collect::<Vec<_>>());
        assert_eq!(words(text), text.split_whitespace().collect::<Vec<_>>());
        assert_eq!(ascii_lowercase(text), text.to_ascii_lowercase());
        assert_eq!(replace_char(text, 'a', 'b'), text.replace('a', "b"));
        assert_eq!(trim_end_char(text, '\n'), text.trim_end_matches('\n'));
        for other in samples() {
            assert_eq!(contains(text, other), text.contains(other));
            assert_eq!(starts_with(text, other), text.starts_with(other));
            assert_eq!(strip_prefix(text, other).as_deref(), text.strip_prefix(other));
            assert_eq!(eq_ignore_ascii_case(text, other), text.eq_ignore_ascii_case(other));
        }
    }
    assert!(eq_ignore_ascii_case("AbC", "aBc"));
    assert_eq!(join(&vec!["a".to_owned(), String::new(), "b".to_owned()], ", "), "a, , b");
    assert_eq!(join(&Vec::new(), ", "), "");
}

#[test]
fn numbers_are_read_as_the_standard_library_reads_them() {
    for text in samples() {
        assert_eq!(parse_u16(text), text.parse::<u16>().ok());
        assert_eq!(parse_u32(text), text.parse::<u32>().ok());
        assert_eq!(parse_usize(text), text.parse::<usize>().ok());
    }
    for number in [0u64, 7, 10, 4310, 65535, u64::MAX] {
        assert_eq!(decimal_text(number), number.to_string());
        assert_eq!(parse_unsigned(&decimal_text(number), u64::MAX), Some(number));
    }
    assert_eq!(parse_u32("+"), None);
    assert_eq!(parse_u32("+42"), Some(42));
    assert_eq!(decimal_padded_text(42, 6), "000042");
    assert_eq!(decimal_padded_text(1234567, 6), "234567");
    assert_eq!(hex_padded_text(0xab, 4), "00ab");
    assert_eq!(hex_padded_text(u64::MAX, 16), "ffffffffffffffff");
}

#[test]
fn links_hold_only_safe_characters() {
    assert_eq!(percent_encode("aZ09-._~"), "aZ09-._~");
    assert_eq!(percent_encode("a b/é%"), "a%20b%2F%C3%A9%25");
    assert_eq!(percent_encode(""), "");
    assert_ne!(percent_encode("a b"), percent_encode("a%20b"));
    assert!(percent_encode("日本 & co").bytes().all(|byte| byte.is_ascii_graphic()));
}

#[test]
fn markup_is_escaped() {
    assert_eq!(xml_escape("a<b>&\"c\"'d'"), "a&lt;b&gt;&amp;&quot;c&quot;&apos;d&apos;");
    assert_eq!(xml_escape("&amp;"), "&amp;amp;");
    assert_eq!(xml_escape("é"), "é");
}

#[test]
fn paths_are_compared_by_their_parts() {
    assert!(same_path("/a/b", "/a//b/", false));
    assert!(same_path("/a/./b", "/a/b", false));
    assert!(!same_path("/a/b", "a/b", false));
    assert!(!same_path("/a/b", "/a/B", false));
    assert!(!same_path("./a", "a", false));
    assert!(same_option_path(None, None, false));
    assert!(!same_option_path(Some("/a"), None, false));
    assert_eq!(join_path("/a", "b", false), "/a/b");
    assert_eq!(join_path("/a/", "b", false), "/a/b");
    assert_eq!(join_path("", "b", false), "b");
    for (left, right) in [("/a/b", "/a//b/"), ("./a", "a"), ("a/.", "a"), ("", "."), ("/", "//")] {
        assert_eq!(
            same_path(left, right, false),
            std::path::Path::new(left) == std::path::Path::new(right),
            "{left} {right}"
        );
    }
}

#[test]
fn one_file_may_have_several_paths() {
    assert!(paths_refer_to_same_file("/a", "/a", None, None, false));
    assert!(paths_refer_to_same_file("/a", "/b", Some("/c"), Some("/c"), false));
    assert!(!paths_refer_to_same_file("/a", "/b", Some("/c"), Some("/d"), false));
    assert!(!paths_refer_to_same_file("/a", "/b", Some("/c"), None, false));
    assert_eq!(executable_candidate(Some("bin/x"), false, "/d", false).as_deref(), Some("/d/bin/x"));
    assert_eq!(executable_candidate(Some("/bin/x"), true, "/d", false).as_deref(), Some("/bin/x"));
    assert_eq!(executable_candidate(Some(""), false, "/d", false), None);
    assert_eq!(executable_candidate(None, false, "/d", false), None);
}

#[test]
fn records_are_json_files() {
    for name in ["a.json", "service.json", ".json", "a.json.bak", "json", "..json", "a.JSON", "é.json"] {
        let extension = std::path::Path::new(name).extension().and_then(|value| value.to_str());
        assert_eq!(is_record_file(name), extension == Some("json"), "{name}");
    }
}

#[test]
fn the_nearest_marked_directory_is_the_projects() {
    let directory = |path: &str, marked| Directory { path: path.to_owned(), marked };
    let directories = vec![
        directory("/a/b/c", false),
        directory("/a/b", true),
        directory("/a", true),
        directory("/", false),
    ];
    assert_eq!(project_root(&directories), Some("/a/b"));
    let unmarked = vec![directory("/a/b", false), directory("/", false)];
    assert_eq!(project_root(&unmarked), Some("/a/b"));
    assert_eq!(project_root(&Vec::new()), None);
    assert_eq!(project_marks(), [".simdeck", ".git", "package.json", "xcodeproj"]);
    assert_eq!(client_root_below("/p", false), "/p/packages/client/dist");
    assert_eq!(default_client_root(Some("/p"), true, "/d", false), "/p/packages/client/dist");
    assert_eq!(default_client_root(Some("/p"), false, "/d", false), "/d/packages/client/dist");
    assert_eq!(default_client_root(None, true, "/d", false), "/d/packages/client/dist");
}

#[test]
fn paths_of_windows_are_compared_by_their_parts() {
    for (left, right) in [
        ("C:\\a\\b", "c:/a//b/"),
        ("C:\\a\\.\\b", "C:\\a\\b"),
        ("a\\b", "a/b"),
        ("\\\\server\\share\\a", "//server/share/a"),
        ("\\\\server\\share", "\\\\server\\share\\"),
        ("\\\\?\\C:\\a", "\\\\?\\c:\\a\\"),
        ("\\\\.\\COM1\\a", "//./COM1/a"),
    ] {
        assert!(same_path(left, right, true), "{left} {right}");
        assert!(!same_path(left, right, false), "{left} {right}");
    }
    for (left, right) in [
        ("C:\\a", "D:\\a"),
        ("C:a", "C:\\a"),
        ("C:\\a", "C:\\A"),
        ("\\a", "a"),
        (".\\a", "a"),
        ("\\\\?\\C:\\a", "C:\\a"),
        ("\\\\?\\C:\\a\\.", "\\\\?\\C:\\a"),
        ("\\\\?\\UNC\\s\\t\\a", "\\\\s\\t\\a"),
        ("\\\\server\\share\\a", "\\\\server\\other\\a"),
    ] {
        assert!(!same_path(left, right, true), "{left} {right}");
    }
}

#[test]
fn paths_of_windows_are_joined() {
    for (directory, path, joined) in [
        ("C:\\a", "b", "C:\\a\\b"),
        ("C:\\a\\", "b", "C:\\a\\b"),
        ("C:/a/", "b/c", "C:/a/b/c"),
        ("C:", "b", "C:b"),
        ("", "b", "b"),
        ("C:\\a", "\\b", "C:\\b"),
        ("a", "\\b", "\\b"),
        ("C:\\a", "D:b", "D:b"),
        ("C:\\a", "\\\\s\\t\\b", "\\\\s\\t\\b"),
        ("\\\\s\\t", "b", "\\\\s\\t\\b"),
        ("\\\\s\\t\\a", "\\b", "\\\\s\\t\\b"),
        ("\\\\?\\C:\\a", "b/../c/./d", "\\\\?\\C:\\a\\c\\d"),
        ("\\\\?\\C:\\a", "..\\..\\b", "\\\\?\\C:\\b"),
        ("\\\\?\\C:\\a", "\\b", "\\\\?\\C:\\b"),
        ("\\\\?\\C:", "b", "\\\\?\\C:\\b"),
        ("\\\\?\\C:\\a", "", "\\\\?\\C:\\a\\"),
    ] {
        assert_eq!(join_path(directory, path, true), joined, "{directory} {path}");
    }
    assert_eq!(join_path("/a", "/b", false), "/b");
    assert_eq!(client_root_below("C:\\p", true), "C:\\p\\packages\\client\\dist");
    assert_eq!(
        executable_candidate(Some("bin\\x.exe"), false, "C:\\d", true).as_deref(),
        Some("C:\\d\\bin\\x.exe")
    );
}
