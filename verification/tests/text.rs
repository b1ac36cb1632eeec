use kaku_ai::json::{parse_bytes, parse_text, prettify, Json, JsonNumber};
use kaku_ai::lines::{concatenate, join, split_lines};
use kaku_ai::numeral::{decimal_text, parse_u32, signed_text};
use kaku_ai::order::{less, sort, sort_distinct};
use kaku_ai::report::{
    byte_length, fit, listing, report_command, report_search, shorten, spill_file_name,
    text_of_bytes, track_script, ProcessOutput, MAX_RESULT_BYTES,
};
use kaku_ai::text::{
    clip, contains, ends_with_char, is_blank, is_whitespace, lower, replace_first,
    same, skip_chars, starts_with, trim, trim_trailing, upper,
};

const SAMPLES: [&str; 14] = [
    "", " ", "a", "ab", "ba", "aab", "é", "aé ", "\u{3000}x\u{85}", "a\nb", "a\r\nb\r\n", "\n\n",
    "日本語", "x\r",
];

fn strings(list: &[&str]) -> Vec<String> {
    list.iter().map(|s| s.to_string()).collect()
}

#[test]
fn texts_behave_as_in_std() {
    for a in SAMPLES {
        assert_eq!(trim(a), a.trim(), "{:?}", a);
        assert_eq!(is_blank(a), a.trim().is_empty(), "{:?}", a);
        assert_eq!(trim_trailing(a, 'b'), a.trim_end_matches('b'));
        assert_eq!(lower(a), a.to_ascii_lowercase());
        assert_eq!(upper(a), a.to_uppercase());
        assert_eq!(ends_with_char(a, '\n'), a.ends_with('\n'));
        assert_eq!(byte_length(a), a.len());
        let lines: Vec<String> = a.lines().map(|l| l.to_string()).collect();
        assert_eq!(split_lines(a), lines, "{:?}", a);
        for n in 0..4 {
            let clipped: String = a.chars().take(n).collect();
            assert_eq!(clip(a, n), clipped);
            if n <= a.chars().count() {
                let rest: String = a.chars().skip(n).collect();
                assert_eq!(skip_chars(a, n), rest);
            }
        }
        for b in SAMPLES {
            assert_eq!(same(a, b), a == b);
            assert_eq!(less(a, b), a < b, "{:?} {:?}", a, b);
            assert_eq!(starts_with(a, b), a.starts_with(b), "{:?} {:?}", a, b);
            assert_eq!(contains(a, b), a.contains(b), "{:?} {:?}", a, b);
            let replaced = if a.contains(b) { Some(a.replacen(b, "Z", 1)) } else { None };
            assert_eq!(replace_first(a, b, "Z"), replaced, "{:?} {:?}", a, b);
        }
    }
    assert_eq!(upper("straße"), "STRASSE");
    assert_eq!(upper("GeT"), "GET");
}

#[test]
fn white_space_is_that_of_unicode() {
    for c in '\u{0}'..=char::MAX {
        assert_eq!(is_whitespace(c), c.is_whitespace(), "{:?}", c);
    }
}

#[test]
fn pieces_are_joined() {
    assert_eq!(join(&strings(&[]), ", "), "");
    assert_eq!(join(&strings(&["a"]), ", "), "a");
    assert_eq!(join(&strings(&["a", "", "b"]), ", "), "a, , b");
    assert_eq!(concatenate(&strings(&["a", "", "b"])), "ab");
}

#[test]
fn numbers_are_written_and_read() {
    for n in [0u64, 9, 10, 123, 1000, u64::MAX] {
        assert_eq!(decimal_text(n), n.to_string());
    }
    for n in [0i32, -1, 7, -130, i32::MAX, i32::MIN] {
        assert_eq!(signed_text(n), n.to_string());
    }
    for s in ["", "+", "0", "007", "+5", "-5", "4294967295", "4294967296", "99999999999999999999999",
        "1 ", " 1", "1x", "١"]
    {
        assert_eq!(parse_u32(s), s.parse::<u32>().ok(), "{:?}", s);
    }
}

#[test]
fn texts_are_sorted_by_bytes() {
    let list = strings(&["b", "a", "é", "Z", "b", "", "aa"]);
    let mut expected = list.clone();
    expected.sort();
    assert_eq!(sort(&list), expected);
    expected.dedup();
    assert_eq!(sort_distinct(&list), expected);
    let entries = vec![
        ("b".to_string(), false),
        ("a".to_string(), true),
        ("a-b".to_string(), false),
        ("a0".to_string(), false),
    ];
    assert_eq!(listing(&entries), "a-b\na/\na0\nb");
    assert_eq!(listing(&[]), "");
}

#[test]
fn json_is_parsed_as_serde_does() {
    let value = parse_text(r#"{"b": [1, -2, 1.5, true, null], "a": "xé", "b2": {}}"#).unwrap();
    assert_eq!(
        value,
        Json::Object(vec![
            ("a".to_string(), Json::Text("xé".to_string())),
            (
                "b".to_string(),
                Json::Array(vec![
                    Json::Number(JsonNumber::Unsigned(1)),
                    Json::Number(JsonNumber::Negative(-2)),
                    Json::Number(JsonNumber::Decimal("1.5".to_string())),
                    Json::Bool(true),
                    Json::Null,
                ])
            ),
            ("b2".to_string(), Json::Object(vec![])),
        ])
    );
    assert_eq!(value.copy(), value);
    assert_eq!(value.field("a").text(), Some("xé"));
    assert_eq!(value.field("b").first().unsigned(), Some(1));
    assert_eq!(value.field("none"), &Json::Null);
    assert_eq!(parse_text("{\"a\": 1, \"a\": 2}").unwrap().field("a").unsigned(), Some(2));
    for bad in ["", "{", "{} x", "nul", "'a'"] {
        assert_eq!(parse_text(bad), None, "{}", bad);
    }
    assert_eq!(parse_bytes(&[b'"', 0xff, b'"']), None);
    assert_eq!(parse_bytes(b" 5 "), Some(Json::Number(JsonNumber::Unsigned(5))));
    assert_eq!(prettify("{\"b\":1,\"a\":[]}"), "{\n  \"a\": [],\n  \"b\": 1\n}");
    assert_eq!(prettify("text"), "text");
}

#[test]
fn long_texts_are_cut_between_characters() {
    assert_eq!(fit("aé", 3), "aé");
    assert_eq!(fit("aé", 2), "a");
    assert_eq!(fit("日本", 5), "日");
    assert_eq!(fit("😀", 3), "");
    assert_eq!(fit("abc", 0), "");
    let long = format!("{}é", "x".repeat(MAX_RESULT_BYTES - 1));
    assert_eq!(
        shorten(&long, None),
        format!("{}\n[... truncated at 8000 bytes]", "x".repeat(MAX_RESULT_BYTES - 1))
    );
    assert!(shorten(&long, Some("/t/f")).ends_with("saved to /t/f — use fs_read to access it.]"));
    assert_eq!(spill_file_name(12, 345), "kaku_tool_12_345.txt");
    assert_eq!(spill_file_name(0, u128::MAX), format!("kaku_tool_0_{}.txt", u128::MAX));
}

#[test]
fn bytes_are_read_as_std_does() {
    for bytes in [&b"abc"[..], &[0xc3, 0xa9], &[0xff, b'a'], &[0xe6, 0x97], &[]] {
        assert_eq!(text_of_bytes(bytes), String::from_utf8_lossy(bytes));
    }
}

#[test]
fn what_tells_the_directory_is_taken_away() {
    let report = |stdout: &str, cwd: &str| {
        let output = ProcessOutput {
            stdout: stdout.as_bytes().to_vec(),
            stderr: vec![],
            success: true,
            code: Some(0),
        };
        let mut cwd = cwd.to_string();
        (report_command(&output, &mut cwd), cwd)
    };
    for text in ["a", "a\n", "a\n\nb\n", "a\n\n", "foo", "__KAKU_CWD__:/fake\nb"] {
        let stdout = format!("{}\n__KAKU_CWD__:/new dir\n", text);
        assert_eq!(report(&stdout, "/old"), (text.to_string(), "/new dir".to_string()));
    }
    assert_eq!(
        report("a\n__KAKU_CWD__:/d\nb\n", "/old"),
        ("ab\n".to_string(), "/d".to_string())
    );
    assert_eq!(report("no mark", "/old"), ("no mark".to_string(), "/old".to_string()));
    assert_eq!(
        report("a\n\n__KAKU_CWD__:/d\n", "/old"),
        ("a\n".to_string(), "/d".to_string())
    );
    assert_eq!(report("a\n\n", "/old"), ("a\n".to_string(), "/old".to_string()));
    assert!(track_script("ls").starts_with("ls\n__kaku_rc=$?; printf "));
}

#[test]
fn searches_tell_as_many_results_as_asked_for() {
    let report = |stdout: &str, max: u64| {
        let output = ProcessOutput {
            stdout: stdout.as_bytes().to_vec(),
            stderr: vec![],
            success: true,
            code: Some(0),
        };
        report_search(&output, max)
    };
    let found = "/d/a:1:x\n--\n/d/b:20:y\n--\n/d/c:3:z\n";
    assert_eq!(report(found, 4), "/d/a:1:x\n--\n/d/b:20:y\n--\n/d/c:3:z");
    assert_eq!(report(found, 3), "/d/a:1:x\n--\n/d/b:20:y\n--\n/d/c:3:z");
    assert_eq!(report(found, 1), "/d/a:1:x\n\n[... truncated at 1 results]");
    assert_eq!(report(found, 0), "\n[... truncated at 0 results]");
    assert_eq!(report("/d/a:1:x\n--\n", 1), "/d/a:1:x\n\n[... truncated at 1 results]");
    assert_eq!(report("/d/a-1-x\n/d/a:2:y\n", 1), "/d/a-1-x\n/d/a:2:y");
    assert_eq!(report("1-a: b\n2:c\n3-d\n", 1), "1-a: b\n2:c\n\n[... truncated at 1 results]");
    assert_eq!(report("/d/a-1-x:: y:1\n/d/a-2-z\n", 1), "/d/a-1-x:: y:1\n/d/a-2-z");
    let timed = "/d/f-1-at 10:30:00\n/d/f:2:hit\n/d/f-3-at 10:31:00\n--\n/d/f:9:hit\n";
    assert_eq!(
        report(timed, 1),
        "/d/f-1-at 10:30:00\n/d/f:2:hit\n\n[... truncated at 1 results]"
    );
    assert_eq!(report(timed, 2), timed.trim_end());
    assert_eq!(report("1-at 10:30:00\n2:hit\n", 1), "1-at 10:30:00\n2:hit");
    let dated = "/d/2024-01-02.md:5:hit\n/d/2024-01-02.md:6:hit\n";
    assert_eq!(
        report(dated, 1),
        "/d/2024-01-02.md:5:hit\n\n[... truncated at 1 results]"
    );
    assert_eq!(report("/d/f:2:a-3-b\n/d/f:4:c\n", 2), "/d/f:2:a-3-b\n/d/f:4:c");
}
