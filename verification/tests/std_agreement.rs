//! What the library does with text and paths is what std does with them.

use std::path::Path;

use neuromancer::chat::composer::normalize_line_endings;
use neuromancer::cli::daemon::read_pid_file;
use neuromancer::cli::provider_keys::normalize_provider;
use neuromancer::cli::rpc_client::endpoint;
use neuromancer::text::{
    at_most, begins, bytes_in, char_width, clip, count, ends, has, integer_to_text, is_blank,
    is_white, join, lines_of, parse_u64, replace, sort_and_dedup, sort_texts, spaces, split_on,
    strip_prefix, substitute, to_ascii_lower, to_ascii_upper, to_decimal, trim,
};
use neuromancer::xdg::{join_path, parent_path, paths_match};

const TEXTS: [&str; 22] = [
    "",
    " ",
    "\t\n",
    "a",
    " a ",
    "a b",
    "\u{a0}x\u{2003}",
    "\u{200b}x\u{200b}",
    "a\nb",
    "a\r\nb\r\n",
    "a\n\nb\n",
    "\n",
    "\r",
    "a\rb\r",
    "a\r\r\nb",
    "Grüße, WELT",
    "ß İ ΑΣ",
    "漢字",
    "e\u{301}",
    "x,,y,",
    "aaa",
    "/a//b/",
];

#[test]
fn white_space_is_that_of_std() {
    for code in 0..=0x10_ffff_u32 {
        if let Some(c) = char::from_u32(code) {
            assert_eq!(is_white(c), c.is_whitespace(), "{code:x}");
            assert_eq!(char_width(c), c.len_utf8(), "{code:x}");
        }
    }
}

#[test]
fn texts_are_trimmed_and_cut_as_std_does() {
    for text in TEXTS {
        assert_eq!(trim(text), text.trim());
        assert_eq!(is_blank(text), text.trim().is_empty());
        assert_eq!(count(text), text.chars().count());
        assert_eq!(bytes_in(text), text.len());
        assert_eq!(to_ascii_lower(text), text.to_ascii_lowercase());
        assert_eq!(to_ascii_upper(text), text.to_ascii_uppercase());
        assert_eq!(normalize_provider(text), text.trim().to_lowercase());
        assert_eq!(lines_of(text), text.lines().collect::<Vec<_>>(), "{text:?}");
        assert_eq!(
            split_on(text, ','),
            text.split(',').collect::<Vec<_>>(),
            "{text:?}"
        );
        assert_eq!(
            normalize_line_endings(text),
            text.replace("\r\n", "\n").replace('\r', "\n")
        );
        for n in 0..6 {
            assert_eq!(clip(text, n), text.chars().take(n).collect::<String>());
        }
        let address = format!("{text}//");
        assert_eq!(
            endpoint(&address),
            format!("{}/rpc", address.trim_end_matches('/'))
        );
    }
    assert_eq!(spaces(3), " ".repeat(3));
    assert_eq!(
        join(&vec!["a".to_string(), "b".to_string()], ", "),
        ["a", "b"].join(", ")
    );
}

#[test]
fn texts_are_found_and_compared_as_std_does() {
    for text in TEXTS {
        for other in TEXTS {
            assert_eq!(has(text, other), text.contains(other), "{text:?} {other:?}");
            assert_eq!(begins(text, other), text.starts_with(other));
            assert_eq!(ends(text, other), text.ends_with(other));
            assert_eq!(
                strip_prefix(text, other),
                text.strip_prefix(other).map(|rest| rest.to_string())
            );
            assert_eq!(at_most(text, other), text <= other, "{text:?} {other:?}");
            assert_eq!(
                substitute(text, other, "+"),
                text.replace(other, "+"),
                "{text:?} {other:?}"
            );
            if !other.is_empty() {
                assert_eq!(replace(text, other, "+"), text.replace(other, "+"));
            }
        }
    }
    let list: Vec<String> = TEXTS.iter().map(|text| text.to_string()).collect();
    let mut sorted = list.clone();
    sorted.sort();
    assert_eq!(sort_texts(&list), sorted);
    sorted.dedup();
    assert_eq!(sort_and_dedup(&list), sorted);
}

#[test]
fn numbers_are_written_and_read_as_std_does() {
    for number in [0, 1, 9, 10, 99, 100, 1_234_567, u64::MAX - 1, u64::MAX] {
        assert_eq!(to_decimal(number), number.to_string());
        assert_eq!(parse_u64(&number.to_string()), Some(number));
    }
    for number in [0, 7, -1, -10, i64::MIN, i64::MAX] {
        assert_eq!(integer_to_text(number), number.to_string());
    }
    for text in [
        "",
        "+",
        "-",
        "+5",
        "-5",
        "05",
        " 5",
        "5 ",
        "5a",
        "1_000",
        "18446744073709551615",
        "18446744073709551616",
        "99999999999999999999999999",
        "٣",
    ] {
        assert_eq!(parse_u64(text), text.parse::<u64>().ok(), "{text:?}");
    }
}

const PATHS: [&str; 26] = [
    "",
    ".",
    "..",
    "/",
    "//",
    "/.",
    "/..",
    "a",
    "a/",
    "a//",
    "./a",
    "a/.",
    "a/..",
    "a/./b",
    "a/b",
    "a/b/",
    "a//b",
    "a/b/.",
    "a/b/./",
    "a/b/..",
    "/a",
    "/a/",
    "/a/b",
    "//a//b//",
    "/a/./b/.",
    "a b/ c",
];

#[test]
fn paths_are_taken_apart_as_std_does() {
    for path in PATHS {
        assert_eq!(
            parent_path(path),
            Path::new(path)
                .parent()
                .map(|parent| parent.display().to_string()),
            "{path:?}"
        );
        for other in PATHS {
            assert_eq!(
                paths_match(path, other),
                Path::new(path) == Path::new(other),
                "{path:?} {other:?}"
            );
            assert_eq!(
                join_path(path, other),
                Path::new(path).join(other).display().to_string(),
                "{path:?} {other:?}"
            );
        }
    }
}

#[test]
fn numbers_of_processes_are_read_as_std_reads_them() {
    for text in [
        "", "+", "-", "0", "-0", "+7", "--7", "+-7", "42", "007", "2147483647", "2147483648",
        "-2147483648", "-2147483649", "21474836480", "21474836471x", "99999999999x", "9999x",
        "-99999999999x", "1 2", "\u{663}", "3000000000", "x9999999999",
    ] {
        let told = text.parse::<i32>();
        match read_pid_file("/p", Ok(text.to_string())) {
            Ok(pid) => assert_eq!(told, Ok(pid), "{text:?}"),
            Err(err) => assert_eq!(
                err.to_text(),
                format!("invalid pid in file '/p': {}", told.expect_err("no number")),
                "{text:?}"
            ),
        }
    }
}
