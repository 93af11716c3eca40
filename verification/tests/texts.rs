//! Texts and numbers, held against the standard library.

use displayed::agent::{guard_environment_path, launch_agent_plist, xml_escape};
use displayed::number::{
    bool_str, decimal, decimal_signed, hexadecimal, pad_left, pad_right, parse_u32, parse_u64,
};
use displayed::policy::{maybe_number, number_list};
use displayed::text::{
    char_is_whitespace, contains, ends_with_char, join, lines, same, split, split_once,
    starts_with, strip_prefix, text_before, to_lower, trim, trim_end, trim_start_char,
};
use displayed::wording::{slug, trim_to_width};

const SAMPLES: [&str; 14] = [
    "",
    " ",
    "a",
    "abc",
    "  padded\t\n",
    "\u{a0}no-break\u{3000}",
    "one=two=three",
    "=",
    "a\tb\t\tc",
    "line\nline\r\n\nlast\r",
    "\n",
    "Ünïcödé SCREEN s1",
    "built in BUILT IN Built In",
    "日本語 テキスト",
];

#[test]
fn whitespace_is_that_of_the_standard_library() {
    for code in 0..=0x10ffffu32 {
        if let Some(c) = char::from_u32(code) {
            assert_eq!(char_is_whitespace(c), c.is_whitespace(), "{code:#x}");
        }
    }
}

#[test]
fn texts_are_cut_as_by_the_standard_library() {
    for s in SAMPLES {
        assert_eq!(trim(s), s.trim());
        assert_eq!(trim_end(s), s.trim_end());
        assert_eq!(trim_start_char(s, 's'), s.trim_start_matches('s'));
        assert_eq!(to_lower(s), s.to_ascii_lowercase());
        assert_eq!(lines(s), s.lines().collect::<Vec<_>>());
        for c in ['=', '\t', '\n', 'a'] {
            assert_eq!(split(s, c), s.split(c).collect::<Vec<_>>());
            assert_eq!(
                split_once(s, c),
                s.split_once(c).map(|(l, r)| (l.to_string(), r.to_string()))
            );
            assert_eq!(ends_with_char(s, c), s.ends_with(c));
        }
        for needle in SAMPLES {
            assert_eq!(contains(s, needle), s.contains(needle));
            assert_eq!(starts_with(s, needle), s.starts_with(needle));
            assert_eq!(
                strip_prefix(s, needle),
                s.strip_prefix(needle).map(str::to_string)
            );
            assert_eq!(same(s, needle), s == needle);
        }
    }
    assert_eq!(text_before("(0,0) - main display", " - "), "(0,0)");
    assert_eq!(text_before("0", " - "), "0");
}

#[test]
fn texts_are_joined() {
    let none: Vec<String> = Vec::new();
    assert_eq!(join(&none, ", "), "");
    let some: Vec<String> = vec!["a".to_string(), "".to_string(), "c".to_string()];
    assert_eq!(join(&some, ", "), "a, , c");
}

#[test]
fn numbers_are_written_as_by_the_standard_library() {
    for n in [0u64, 1, 9, 10, 99, 100, 4294967295, u64::MAX] {
        assert_eq!(decimal(n), n.to_string());
        assert_eq!(hexadecimal(n), format!("{n:x}"));
    }
    for n in [0i32, 1, -1, 1001, i32::MIN, i32::MAX] {
        assert_eq!(decimal_signed(n), n.to_string());
    }
    assert_eq!(bool_str(true), "true");
    assert_eq!(bool_str(false), "false");
    assert_eq!(number_list(&vec![5, 2, 1]), format!("{:?}", vec![5, 2, 1]));
    assert_eq!(number_list(&vec![]), "[]");
    assert_eq!(maybe_number(Some(7)), "Some(7)");
    assert_eq!(maybe_number(None), "None");
}

#[test]
fn numbers_are_read_as_by_the_standard_library() {
    for s in [
        "",
        "+",
        "-",
        "0",
        "-0",
        "+5",
        "00012",
        "12a",
        "a",
        " 5",
        "4294967295",
        "4294967296",
        "99999999999999999999999999x",
        "18446744073709551615",
        "18446744073709551616",
        "-1",
        "٣",
    ] {
        match (parse_u32(s), s.parse::<u32>()) {
            (Ok(ours), Ok(std)) => assert_eq!(ours, std, "{s}"),
            (Err(ours), Err(std)) => assert_eq!(ours.message(), std.to_string(), "{s}"),
            (ours, std) => panic!("{s}: {ours:?} {std:?}"),
        }
        match (parse_u64(s), s.parse::<u64>()) {
            (Ok(ours), Ok(std)) => assert_eq!(ours, std, "{s}"),
            (Err(ours), Err(std)) => assert_eq!(ours.message(), std.to_string(), "{s}"),
            (ours, std) => panic!("{s}: {ours:?} {std:?}"),
        }
    }
}

#[test]
fn numbers_read_back() {
    for n in [0u32, 7, 4294967295] {
        assert!(matches!(parse_u32(&decimal(n as u64)), Ok(m) if m == n));
    }
}

#[test]
fn columns_are_padded_as_by_the_standard_library() {
    for s in SAMPLES {
        for width in [0usize, 2, 5, 14] {
            assert_eq!(pad_left(s, width), format!("{s:>width$}"));
            assert_eq!(pad_right(s, width), format!("{s:<width$}"));
        }
    }
}

#[test]
fn long_captions_are_cut() {
    assert_eq!(trim_to_width("abcdef", 0), "");
    assert_eq!(trim_to_width("abcdef", 2), "ab");
    assert_eq!(trim_to_width("abcdef", 3), "abc");
    assert_eq!(trim_to_width("abcdef", 4), "a...");
    assert_eq!(trim_to_width("abcdef", 5), "ab...");
    assert_eq!(trim_to_width("abcdef", 6), "abcdef");
    assert_eq!(trim_to_width("日本語", 3), "日");
    assert_eq!(trim_to_width("日本語", 5), "...");
    assert_eq!(trim_to_width("日本語", 8), "日...");
    assert_eq!(trim_to_width("日本語", 9), "日本語");
    assert_eq!(trim_to_width("", 4), "");
}

#[test]
fn cut_captions_fit() {
    for s in SAMPLES {
        for width in 0..40usize {
            let cut = trim_to_width(s, width);
            assert!(cut.len() <= width);
            if s.len() <= width {
                assert_eq!(cut, s);
            }
        }
    }
}

#[test]
fn slugs_are_names() {
    assert_eq!(slug("before internal/disconnect!"), "before-internaldisconnect");
    assert_eq!(slug("A_b-9"), "A_b-9");
    assert_eq!(slug(""), "state");
    assert_eq!(slug("äöü"), "state");
    assert_eq!(slug(" \t"), "--");
    for s in SAMPLES {
        let name = slug(s);
        assert!(!name.is_empty());
        assert!(name
            .chars()
            .all(|c| c.is_ascii_alphanumeric() || c == '-' || c == '_'));
    }
}

#[test]
fn markup_is_escaped() {
    assert_eq!(
        xml_escape("<a href=\"x\">Tom & 'Jerry'</a>"),
        "&lt;a href=&quot;x&quot;&gt;Tom &amp; &apos;Jerry&apos;&lt;/a&gt;"
    );
    assert_eq!(xml_escape("&lt;"), "&amp;lt;");
    assert_eq!(xml_escape("/usr/bin:/bin"), "/usr/bin:/bin");
}

#[test]
fn guard_path_names_each_directory_once() {
    assert_eq!(
        guard_environment_path(None),
        "/opt/homebrew/bin:/usr/local/bin:/usr/bin:/bin:/usr/sbin:/sbin"
    );
    assert_eq!(
        guard_environment_path(Some("/bin::/home/me/bin:/usr/local/bin:/bin")),
        "/opt/homebrew/bin:/usr/local/bin:/bin:/home/me/bin:/usr/bin:/usr/sbin:/sbin"
    );
    assert_eq!(
        guard_environment_path(Some("")),
        guard_environment_path(None)
    );
}

#[test]
fn property_list_is_complete() {
    let arguments = vec!["/bin/d&d".to_string(), "guard".to_string()];
    assert_eq!(
        launch_agent_plist("l", &arguments, Some(30), false, "/o", "/e", "/p"),
        "<?xml version=\"1.0\" encoding=\"UTF-8\"?>\n\
         <!DOCTYPE plist PUBLIC \"-//Apple//DTD PLIST 1.0//EN\" \"http://www.apple.com/DTDs/PropertyList-1.0.dtd\">\n\
         <plist version=\"1.0\">\n<dict>\n\
         \u{20}\u{20}<key>Label</key>\n  <string>l</string>\n\
         \u{20}\u{20}<key>ProgramArguments</key>\n  <array>\n\
         \u{20}\u{20}\u{20}\u{20}<string>/bin/d&amp;d</string>\n    <string>guard</string>\n\
         \u{20}\u{20}</array>\n\
         \u{20}\u{20}<key>EnvironmentVariables</key>\n  <dict>\n    <key>PATH</key>\n    <string>/p</string>\n  </dict>\n\
         \u{20}\u{20}<key>RunAtLoad</key>\n  <true/>\n\
         \u{20}\u{20}<key>StartInterval</key>\n  <integer>30</integer>\n\
         \u{20}\u{20}<key>LimitLoadToSessionType</key>\n  <string>Aqua</string>\n\
         \u{20}\u{20}<key>StandardOutPath</key>\n  <string>/o</string>\n\
         \u{20}\u{20}<key>StandardErrorPath</key>\n  <string>/e</string>\n\
         </dict>\n</plist>\n"
    );
    let none: Vec<String> = Vec::new();
    let bare = launch_agent_plist("l", &none, None, true, "/o", "/e", "");
    assert!(!bare.contains("EnvironmentVariables"));
    assert!(!bare.contains("StartInterval"));
    assert!(bare.contains("  <key>KeepAlive</key>\n  <true/>\n"));
}
