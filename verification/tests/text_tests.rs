use code_review_engine::text::{
    chars_of, contains_str, count_lines, decimal_string, ends_with, extension_of, is_blank,
    last_path_segment, pad_left, same_str, str_less, trim, trim_newlines_end,
};

#[test]
fn extension_follows_path_rules() {
    assert_eq!(extension_of("main.rs"), Some("rs".to_string()));
    assert_eq!(extension_of("src/ui/app.tsx"), Some("tsx".to_string()));
    assert_eq!(extension_of("archive.tar.gz"), Some("gz".to_string()));
    assert_eq!(extension_of("dir.d/file"), None);
    assert_eq!(extension_of(".bashrc"), None);
    assert_eq!(extension_of("notes."), Some(String::new()));
    assert_eq!(extension_of("a/b.py/"), Some("py".to_string()));
    assert_eq!(extension_of("a/b.go/."), Some("go".to_string()));
    assert_eq!(extension_of("x/.."), None);
    assert_eq!(extension_of(""), None);
    assert_eq!(extension_of("/"), None);
}

#[test]
fn trailing_newlines_are_trimmed() {
    assert_eq!(trim_newlines_end("line\n"), "line");
    assert_eq!(trim_newlines_end("line\n\n\n"), "line");
    assert_eq!(trim_newlines_end("a\nb"), "a\nb");
    assert_eq!(trim_newlines_end("\r\n"), "\r");
    assert_eq!(trim_newlines_end(""), "");
}

#[test]
fn lines_are_counted_like_str_lines() {
    for s in ["", "a", "a\n", "a\nb", "\n", "\n\n", "a\r\nb\r\n", "x\n\ny"] {
        assert_eq!(count_lines(s), s.lines().count(), "{:?}", s);
    }
}

#[test]
fn white_space_is_trimmed_at_both_ends() {
    assert_eq!(trim("  token \t\n"), "token");
    assert_eq!(trim("\u{3000}x y\u{a0}"), "x y");
    assert_eq!(trim("   "), "");
    assert!(is_blank(" \t\r\n"));
    assert!(!is_blank(" a "));
    assert!(is_blank(""));
    for s in ["  a  ", "\u{2028}b", "c\u{85}", "no"] {
        assert_eq!(trim(s), s.trim());
    }
}

#[test]
fn suffixes_and_infixes() {
    assert!(ends_with("main.rs", ".rs"));
    assert!(!ends_with("rs", ".rs"));
    assert!(ends_with("x", ""));
    assert!(contains_str("line_comment", "comment"));
    assert!(!contains_str("commen", "comment"));
    assert!(contains_str("abc", ""));
    assert!(same_str("a", "a"));
    assert!(!same_str("a", "ab"));
}

#[test]
fn last_segment_is_the_file_name() {
    assert_eq!(last_path_segment("src/ui/app.rs"), "app.rs");
    assert_eq!(last_path_segment("app.rs"), "app.rs");
    assert_eq!(last_path_segment("dir/"), "");
}

#[test]
fn string_order_matches_std() {
    let words = ["", "a", "b", "ab", "aa", "Z", "é", "e", "z"];
    for x in words {
        for y in words {
            assert_eq!(str_less(x, y), x < y, "{:?} {:?}", x, y);
        }
    }
}

#[test]
fn numbers_and_padding() {
    assert_eq!(decimal_string(0), "0");
    assert_eq!(decimal_string(42), "42");
    assert_eq!(decimal_string(u64::MAX), u64::MAX.to_string());
    assert_eq!(pad_left("7".to_string(), 4), "   7");
    assert_eq!(pad_left("12345".to_string(), 4), "12345");
    assert_eq!(chars_of("hé"), vec!['h', 'é']);
}

#[test]
fn helpers_agree_with_std() {
    let paths = [
        "", ".", "..", "/", "a", "a.b", ".a", ".a.b", "a.", "a/.", "a/..", "a/b/", "a//b.c//", "./x.y",
        "x/./", "dir.d/", "a.b/c", "..b", "a..", "/root/.cfg", "é.ü", "a/b.c/./.",
    ];
    for p in paths {
        let expected = std::path::Path::new(p).extension().map(|e| e.to_str().unwrap().to_string());
        assert_eq!(extension_of(p), expected, "{:?}", p);
        assert_eq!(last_path_segment(p), p.split('/').last().unwrap(), "{:?}", p);
        for q in ["", ".", "a", ".b", "b/", "é"] {
            assert_eq!(ends_with(p, q), p.ends_with(q), "{:?} {:?}", p, q);
            assert_eq!(contains_str(p, q), p.contains(q), "{:?} {:?}", p, q);
        }
    }
    for n in [0u64, 1, 9, 10, 99, 100, 12345, 4294967295, 18446744073709551615] {
        assert_eq!(decimal_string(n), n.to_string());
    }
}
