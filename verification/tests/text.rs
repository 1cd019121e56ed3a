use axon::text::{
    parse_natural, push_integer, push_joined, push_list, push_natural, push_size, push_size_list,
    same_text, trim_trailing_slashes,
};

fn written(write: impl Fn(&mut String)) -> String {
    let mut out = String::from(">");
    write(&mut out);
    out
}

#[test]
fn numerals_are_decimal() {
    assert_eq!(written(|out| push_natural(out, 0)), ">0");
    assert_eq!(written(|out| push_natural(out, 1234567890)), ">1234567890");
    assert_eq!(written(|out| push_natural(out, u64::MAX)), ">18446744073709551615");
    assert_eq!(written(|out| push_size(out, 10)), ">10");
    assert_eq!(written(|out| push_integer(out, -7)), ">-7");
    assert_eq!(written(|out| push_integer(out, i64::MIN)), ">-9223372036854775808");
    assert_eq!(written(|out| push_integer(out, i64::MAX)), ">9223372036854775807");
}

#[test]
fn lists_are_separated_by_commas() {
    assert_eq!(written(|out| push_joined(out, &vec![])), ">");
    assert_eq!(written(|out| push_joined(out, &vec![1, -2, 30])), ">1, -2, 30");
    assert_eq!(written(|out| push_list(out, &vec![5])), ">[5]");
    assert_eq!(written(|out| push_list(out, &vec![])), ">[]");
    assert_eq!(written(|out| push_size_list(out, &vec![1, 28, 28])), ">[1, 28, 28]");
}

#[test]
fn numbers_are_read_as_the_standard_library_does() {
    let texts = [
        "",
        "+",
        "-",
        "0",
        "007",
        "+42",
        "-0",
        "-5",
        " 1",
        "1 ",
        "1_000",
        "12a",
        "\u{0661}",
        "++1",
        "18446744073709551615",
        "18446744073709551616",
        "99999999999999999999999",
        "latest",
    ];
    for text in texts {
        assert_eq!(parse_natural(text), text.parse::<u64>().ok(), "{text:?}");
    }
}

#[test]
fn numerals_read_back() {
    for n in [0, 1, 9, 10, 99, 100, 65535, u64::MAX / 10, u64::MAX - 1, u64::MAX] {
        let mut text = String::new();
        push_natural(&mut text, n);
        assert_eq!(parse_natural(&text), Some(n));
    }
}

#[test]
fn texts_are_compared_and_trimmed() {
    assert!(same_text("caf\u{e9}", "caf\u{e9}"));
    assert!(!same_text("cafe", "caf\u{e9}"));
    assert!(!same_text("a", "ab"));
    for text in ["", "/", "a/", "a//", "/a/b", "a/ "] {
        assert_eq!(trim_trailing_slashes(text), text.trim_end_matches('/'));
    }
}
