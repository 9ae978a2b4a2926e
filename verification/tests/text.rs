use termiters::data::{parse_json, parse_toml, Data, Evidence, EvidenceTable};
use termiters::digest::{hex_digest, text_digest};
use termiters::fault::Fault;
use termiters::path::{file_name, path_below, path_parts};
use termiters::report::{status_text, BranchReport, BranchStatus, SyncReport};
use termiters::text::number::{count_text, decimal_text, hex, parse_count, read_count, signed_text};
use termiters::text::order::{comes_before, sort_distinct, sort_texts};
use termiters::text::pattern::{
    contains, ends_with, replace, starts_with, take_before, trim_end_char, trim_start_text,
};
use termiters::text::split::{split, split_filled, Separator};
use termiters::text::{
    blank, byte_len, join, same_ignoring_case, take_chars, to_ascii_lower, trim,
    truncate_to_char_boundary,
};

fn list(items: &[&str]) -> Vec<String> {
    items.iter().map(|item| item.to_string()).collect()
}

#[test]
fn numbers_are_written_in_decimal() {
    for n in [0u64, 7, 10, 99, 100, u64::MAX] {
        assert_eq!(decimal_text(n), format!("{}", n));
    }
    assert_eq!(count_text(1234), "1234");
    for n in [0, -1, 128, i32::MIN, i32::MAX] {
        assert_eq!(signed_text(n), format!("{}", n));
    }
    assert_eq!(hex(&[0, 1, 0xab, 0xff]), "0001abff");
}

#[test]
fn counts_are_read_as_the_standard_library_reads_them() {
    for text in [
        "",
        "+",
        "-1",
        "0",
        "+7",
        "007",
        " 1",
        "1 ",
        "12a",
        "18446744073709551615",
        "18446744073709551616",
        "18446744073709551615x",
        "99999999999999999999x",
        "++1",
    ] {
        let expected = text.parse::<usize>();
        assert_eq!(parse_count(text), expected.clone().ok(), "{}", text);
        assert_eq!(
            read_count(text),
            expected.map_err(|error| error.to_string()),
            "{}",
            text
        );
    }
}

#[test]
fn white_space_is_that_of_unicode() {
    for text in ["", " ", "\u{3000}a\u{a0}", "\u{200b}x", "\t a b \r\n", "\u{85}\u{2028}"] {
        assert_eq!(trim(text), text.trim());
        assert_eq!(blank(text), text.trim().is_empty());
        assert_eq!(
            split_filled(text, Separator::Space),
            text.split_whitespace().collect::<Vec<_>>()
        );
    }
}

#[test]
fn texts_are_split_joined_and_cut() {
    assert_eq!(split("a,,b,", Separator::Char(',')), list(&["a", "", "b", ""]));
    assert_eq!(split("", Separator::Char(',')), list(&[""]));
    assert_eq!(split_filled("a,,b,", Separator::Char(',')), list(&["a", "b"]));
    assert_eq!(join(&list(&["a", "", "b"]), ", "), "a, , b");
    assert_eq!(join(&Vec::new(), ", "), "");
    assert_eq!(take_chars("äöü", 2), "äö");
    assert_eq!(byte_len("äö"), 4);
    for max in 0..9 {
        let cut = truncate_to_char_boundary("aä€x", max);
        assert!(cut.len() <= max);
        assert!("aä€x".starts_with(cut.as_str()));
    }
    assert_eq!(truncate_to_char_boundary("aä€x", 5), "aä");
    assert_eq!(truncate_to_char_boundary("aä€x", 6), "aä€");
    assert_eq!(truncate_to_char_boundary("aä€x", 7), "aä€x");
}

#[test]
fn patterns_are_found_from_the_left() {
    assert!(starts_with("abc", "ab") && !starts_with("abc", "b") && starts_with("a", ""));
    assert!(ends_with("abc", "bc") && !ends_with("abc", "b"));
    assert!(contains("aabab", "abab") && !contains("aba", "abab"));
    assert_eq!(replace("aaa", "aa", "b"), "ba");
    assert_eq!(replace("{x}{x}", "{x}", "{x}y"), "{x}y{x}y");
    assert_eq!(take_before("a; b; c", "; "), "a");
    assert_eq!(take_before("abc", "; "), "abc");
    assert_eq!(trim_end_char("a//", '/'), "a");
    assert_eq!(trim_start_text("a/a/b", "a/"), "b");
    assert_eq!(to_ascii_lower("AÄZ"), "aÄz");
    assert!(same_ignoring_case("LoW", "lOw") && !same_ignoring_case("ä", "Ä"));
}

#[test]
fn texts_are_ordered_as_the_standard_library_orders_them() {
    let words = ["b", "", "a", "aa", "ä", "Z", "€", "a", "\u{10000}", "\u{ffff}"];
    for left in words {
        for right in words {
            assert_eq!(comes_before(left, right), left <= right, "{} {}", left, right);
        }
    }
    let mut expected = list(&words);
    expected.sort();
    assert_eq!(sort_texts(list(&words)), expected);
    expected.dedup();
    assert_eq!(sort_distinct(list(&words)), expected);
}

#[test]
fn paths_are_taken_apart_as_the_standard_library_does() {
    for path in [
        "", "/", "a", "a/b", "a//b/", "./a", "a/./b", "a/..", "..", ".", "/a/.", "a/b/./",
    ] {
        let expected = std::path::Path::new(path);
        assert_eq!(
            file_name(path),
            expected.file_name().map(|name| name.to_str().unwrap().to_string()),
            "{}",
            path
        );
        let parts: Vec<String> = expected
            .components()
            .filter(|part| !matches!(part, std::path::Component::RootDir))
            .map(|part| part.as_os_str().to_str().unwrap().to_string())
            .collect();
        assert_eq!(path_parts(path), parts, "{}", path);
        for name in ["x", "/x"] {
            assert_eq!(
                path_below(path, name),
                expected.join(name).to_str().unwrap(),
                "{}",
                path
            );
        }
    }
}

#[test]
fn digests_are_those_of_sha256() {
    assert_eq!(
        hex_digest(b"abc"),
        "ba7816bf8f01cfea414140de5dae2223b00361a396177a9cb410ff61f20015ad"
    );
    assert_eq!(
        hex_digest(b""),
        "e3b0c44298fc1c149afbf4c8996fb92427ae41e4649b934ca495991b7852b855"
    );
    assert_eq!(text_digest("abc"), Some(hex_digest(b"abc")));
}

#[test]
fn documents_are_read_as_plain_values() {
    let document = parse_json("{\"a\":[1,\"x\",null,true],\"b\":{\"c\":\"d\"}}").unwrap();
    let items = document.field("a").unwrap();
    assert_eq!(items.items().unwrap().len(), 4);
    assert!(matches!(items.item(0), Some(Data::Scalar(n)) if n == "1"));
    assert_eq!(items.item(1).unwrap().text(), Some("x".to_string()));
    assert!(matches!(items.item(2), Some(Data::Null)));
    assert!(matches!(items.item(3), Some(Data::Bool(true))));
    assert!(items.item(4).is_none());
    assert_eq!(
        document.field("b").unwrap().text_in("c"),
        Some("d".to_string())
    );
    assert!(document.field("c").is_none());
    assert_eq!(document.text_in("a"), None);
    let table = parse_toml("a = \"x\"\nb = [1.5, 1979-05-27]\nc = false\n").unwrap();
    assert_eq!(table.text_in("a"), Some("x".to_string()));
    let numbers = table.field("b").unwrap();
    assert!(matches!(numbers.item(0), Some(Data::Scalar(n)) if n == "1.5"));
    assert!(matches!(numbers.item(1), Some(Data::Scalar(n)) if n == "1979-05-27"));
    assert!(matches!(table.field("c"), Some(Data::Bool(false))));
}

#[test]
fn documents_that_cannot_be_read_are_explained() {
    assert_eq!(
        parse_json("{").unwrap_err(),
        "EOF while parsing an object at line 1 column 1"
    );
    assert!(parse_toml("a = ").unwrap_err().contains("TOML parse error at line 1"));
}

#[test]
fn evidence_is_written_as_json() {
    let mut table = EvidenceTable::new();
    table.set("b", Evidence::texts(&list(&["x", "\"y\""])));
    table.set("a", Evidence::optional(&None));
    table.set("a", Evidence::optional(&Some("\u{1}".to_string())));
    table.set("c", Evidence::list(vec![Evidence::null(), Evidence::text("z")]));
    assert_eq!(
        table.build().to_json().unwrap(),
        "{\"a\":\"\\u0001\",\"b\":[\"x\",\"\\\"y\\\"\"],\"c\":[null,\"z\"]}"
    );
}

#[test]
fn faults_show_their_causes() {
    let fault = Fault::because("b".to_string(), "c".to_string()).context("a".to_string());
    assert_eq!(fault.text(), "a: b: c");
    assert_eq!(fault.copy().chain, list(&["a", "b", "c"]));
    assert_eq!(Fault::of("x").text(), "x");
}

#[test]
fn reports_collect_branches() {
    let mut report = SyncReport::default();
    assert!(!report.has_activity());
    let mut entry = BranchReport::new("b", "k", BranchStatus::Skipped).detail("one".to_string());
    entry.push_detail("two".to_string());
    report.push(entry.copy());
    assert!(!report.has_activity());
    report.push(entry.active());
    assert!(report.copy().has_activity());
    assert_eq!(report.entries[1].details, list(&["one", "two"]));
    assert_eq!(status_text(BranchStatus::Skipped), "Skipped");
}
