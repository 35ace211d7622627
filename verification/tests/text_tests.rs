use fas_rs::text::{
    after_pattern_exec, before_char_exec, chars_of, contains_exec, lines_exec, parse_i32, parse_u64,
    second_field_exec, string_of, trim_exec, words_exec,
};

fn s(v: &[char]) -> String {
    string_of(v)
}

#[test]
fn trims_unicode_whitespace() {
    assert_eq!(s(&trim_exec(&chars_of("  \t hello world \u{3000}\n"))), "hello world");
    assert_eq!(s(&trim_exec(&chars_of("   "))), "");
}

#[test]
fn splits_words_like_split_whitespace() {
    let w = words_exec(&chars_of("  a bb\t\tccc \n d "));
    let w: Vec<String> = w.iter().map(|x| s(x)).collect();
    assert_eq!(w, vec!["a", "bb", "ccc", "d"]);
    assert!(words_exec(&chars_of(" \t ")).is_empty());
}

#[test]
fn splits_lines_like_str_lines() {
    let text = "one\r\ntwo\n\nthree\n";
    let l: Vec<String> = lines_exec(&chars_of(text)).iter().map(|x| s(x)).collect();
    let expected: Vec<String> = text.lines().map(|x| x.to_string()).collect();
    assert_eq!(l, expected);
    let text = "a\rb\nlast\r";
    let l: Vec<String> = lines_exec(&chars_of(text)).iter().map(|x| s(x)).collect();
    let expected: Vec<String> = text.lines().map(|x| x.to_string()).collect();
    assert_eq!(l, expected);
}

#[test]
fn fields_around_separators() {
    assert_eq!(s(&before_char_exec(&chars_of("com.game:remote"), ':')), "com.game");
    assert_eq!(s(&before_char_exec(&chars_of("com.game"), ':')), "com.game");
    assert_eq!(s(&second_field_exec(&chars_of("a=b=c"), '=').unwrap()), "b");
    assert!(second_field_exec(&chars_of("abc"), '=').is_none());
    let p = after_pattern_exec(&chars_of("x mSession=Session{1 2} mSession=zz"), &chars_of("mSession="));
    assert_eq!(s(&p.unwrap()), "Session{1 2} ");
    assert!(contains_exec(&chars_of("freeform window"), &chars_of("freeform")));
    assert!(!contains_exec(&chars_of("free form"), &chars_of("freeform")));
}

#[test]
fn parses_integers_like_from_str() {
    for t in ["0", "42", "-7", "+9", "2147483647", "-2147483648", "2147483648", "", "-", "+", "1x", " 1"] {
        assert_eq!(parse_i32(&chars_of(t)), t.parse::<i32>().ok(), "{t}");
    }
    for t in ["0", "18446744073709551615", "18446744073709551616", "-1", "+5", "55a"] {
        assert_eq!(parse_u64(&chars_of(t)), t.parse::<u64>().ok(), "{t}");
    }
}
