use cargo_quad_apk::text::chars_of;
use cargo_quad_apk::text::concat2;
use cargo_quad_apk::text::concat3;
use cargo_quad_apk::text::contains_text;
use cargo_quad_apk::text::decimal_of;
use cargo_quad_apk::text::find_from;
use cargo_quad_apk::text::find_last;
use cargo_quad_apk::text::has_prefix;
use cargo_quad_apk::text::has_suffix;
use cargo_quad_apk::text::join_strings;
use cargo_quad_apk::text::matches_at;
use cargo_quad_apk::text::padded_decimal_of;
use cargo_quad_apk::text::replace;
use cargo_quad_apk::text::same_str;
use cargo_quad_apk::text::split_lines;
use cargo_quad_apk::text::split_text;
use cargo_quad_apk::text::stands_before;
use cargo_quad_apk::text::text_after_last;
use cargo_quad_apk::text::text_before_first;

fn text(v: &Vec<char>) -> String {
    v.iter().collect()
}

fn rows(v: &Vec<Vec<char>>) -> Vec<String> {
    v.iter().map(text).collect()
}

#[test]
fn chars_keep_order_and_non_ascii() {
    assert_eq!(chars_of("aé\n"), vec!['a', 'é', '\n']);
    assert_eq!(chars_of(""), Vec::<char>::new());
}

#[test]
fn replace_agrees_with_std() {
    let cases = [
        ("a_b_c", "_", "_1"),
        ("com.example-app", "-", "_"),
        ("aaaa", "aa", "b"),
        ("aaa", "aa", "b"),
        ("abc", "", "-"),
        ("", "", "x"),
        ("", "a", "x"),
        ("line1\nline2\n", "\n", "\n    "),
        ("xTOKENyTOKEN", "TOKEN", ""),
        ("héllo wörld", "ö", "oe"),
    ];
    for (s, from, to) in cases {
        assert_eq!(replace(s, from, to), s.replace(from, to), "{:?}", (s, from, to));
    }
}

#[test]
fn replace_exact_values() {
    assert_eq!(replace("a.b.c", ".", "_"), "a_b_c");
    assert_eq!(replace("abab", "ab", "ba"), "baba");
    assert_eq!(replace("ab", "", "-"), "-a-b-");
}

#[test]
fn lines_agree_with_std() {
    let cases = [
        "",
        "a",
        "a\n",
        "a\nb",
        "a\r\nb\r\n",
        "\n",
        "\n\n",
        "a\rb\n",
        "tail\r",
        "\r\n",
        "x\n\r\ny",
    ];
    for s in cases {
        let expected: Vec<String> = s.lines().map(|l| l.to_string()).collect();
        assert_eq!(rows(&split_lines(&chars_of(s))), expected, "{:?}", s);
    }
}

#[test]
fn split_agrees_with_std_for_nonempty_separator() {
    let cases = [("a/b/c", "/"), ("", "/"), ("a/", "/"), ("/a", "/"), ("a//b", "/"), ("com.x.y", "."),
        ("a::b::c", "::"), ("abc", "/")];
    for (s, sep) in cases {
        let expected: Vec<String> = s.split(sep).map(|l| l.to_string()).collect();
        assert_eq!(rows(&split_text(&chars_of(s), &chars_of(sep))), expected, "{:?}", (s, sep));
    }
    assert_eq!(rows(&split_text(&chars_of("abc"), &chars_of(""))), vec!["abc".to_string()]);
}

#[test]
fn searching_finds_first_and_last() {
    let s = chars_of("abcabc");
    let pat = chars_of("bc");
    assert!(matches_at(&s, &pat, 1));
    assert!(!matches_at(&s, &pat, 2));
    assert!(!matches_at(&s, &pat, 5));
    assert!(matches_at(&s, &chars_of(""), 6));
    assert!(!matches_at(&s, &chars_of(""), 7));
    assert_eq!(find_from(&s, &pat, 0), 1);
    assert_eq!(find_from(&s, &pat, 2), 4);
    assert_eq!(find_from(&s, &pat, 5), 6);
    assert_eq!(find_last(&s, &pat), Some(4));
    assert_eq!(find_last(&s, &chars_of("x")), None);
    assert!(contains_text(&s, &chars_of("ca")));
    assert!(!contains_text(&s, &chars_of("cc")));
    assert!(contains_text(&s, &chars_of("")));
}

#[test]
fn after_last_and_before_first() {
    assert_eq!(text(&text_after_last(&chars_of("native=/a=b"), &chars_of("="))), "b");
    assert_eq!(text(&text_after_last(&chars_of("plain"), &chars_of("="))), "plain");
    assert_eq!(text(&text_after_last(&chars_of("x="), &chars_of("="))), "");
    assert_eq!(text(&text_before_first(&chars_of("libc.so]]"), &chars_of("]"))), "libc.so");
    assert_eq!(text(&text_before_first(&chars_of("plain"), &chars_of("]"))), "plain");
}

#[test]
fn prefixes_suffixes_and_equality() {
    assert!(has_prefix("native=/x", "native="));
    assert!(!has_prefix("nativ", "native="));
    assert!(has_suffix("libc.so", ".so"));
    assert!(!has_suffix("so", ".so"));
    assert!(!has_suffix("libc.so.1", ".so"));
    assert!(same_str("-L", "-L"));
    assert!(!same_str("-L", "-l"));
    assert_eq!(concat2("ab", "cd"), "abcd");
    assert_eq!(concat3("a", "", "c"), "ac");
}

#[test]
fn decimal_numerals() {
    assert_eq!(text(&decimal_of(0)), "0");
    assert_eq!(text(&decimal_of(7)), "7");
    assert_eq!(text(&decimal_of(10)), "10");
    assert_eq!(text(&decimal_of(4294967295)), "4294967295");
    assert_eq!(text(&decimal_of(u64::MAX)), u64::MAX.to_string());
    assert_eq!(text(&padded_decimal_of(3, 4)), "0003");
    assert_eq!(text(&padded_decimal_of(255, 4)), "0255");
    assert_eq!(text(&padded_decimal_of(12345, 4)), "12345");
    assert_eq!(text(&padded_decimal_of(0, 0)), "0");
}

#[test]
fn joining_puts_separator_between_parts() {
    let parts = vec!["a".to_string(), "".to_string(), "c".to_string()];
    assert_eq!(join_strings(&parts, ", "), "a, , c");
    assert_eq!(join_strings(&vec![], ", "), "");
    assert_eq!(join_strings(&vec!["".to_string(), "x".to_string()], ", "), ", x");
    assert_eq!(join_strings(&vec!["only".to_string()], ", "), "only");
}

#[test]
fn order_of_strings_agrees_with_std() {
    let words = ["", "a", "A", "ab", "abc", "abd", "b", "é", "z", "𝄞", "a\u{0}", "\u{ffff}", "\u{10000}"];
    for a in words {
        for b in words {
            assert_eq!(stands_before(a, b), a < b, "{:?}", (a, b));
        }
    }
}
