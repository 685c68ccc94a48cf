use var_desktop::text::{
    ascii_lower_chars, chars_of, concat2, contains_chars, i64_to_string, parse_i64_chars, parse_i64_detailed,
    parse_u64_chars, split_chars, trim_str, IntErrorKind,
};

fn chars(s: &str) -> Vec<char> {
    s.chars().collect()
}

#[test]
fn trimming_matches_str_trim() {
    for s in ["  a b \t\n", "", "\u{3000}x\u{a0}", "nothing"] {
        assert_eq!(trim_str(s), s.trim());
    }
}

#[test]
fn splitting_matches_str_split() {
    for s in ["a,b,,c", "", ",", "abc"] {
        let pieces: Vec<String> = split_chars(&chars(s), ',').into_iter().map(|p| p.into_iter().collect()).collect();
        let expected: Vec<String> = s.split(',').map(str::to_string).collect();
        assert_eq!(pieces, expected);
    }
}

#[test]
fn integers_parse_like_std() {
    for s in ["0", "123", "+5", "-9223372036854775808", "9223372036854775807", "9223372036854775808", "-", "", "12a", " 1"] {
        let ours = parse_i64_detailed(&chars(s));
        match s.parse::<i64>() {
            Ok(v) => assert_eq!(ours, Ok(v)),
            Err(e) => {
                let kind = ours.unwrap_err();
                assert_eq!(kind.message(), e.to_string());
            }
        }
        assert_eq!(parse_i64_chars(&chars(s)), s.parse::<i64>().ok());
    }
    assert_eq!(parse_i64_detailed(&chars("99999999999999999999x")), Err(IntErrorKind::PosOverflow));
    assert_eq!(parse_u64_chars(&chars("18446744073709551615")), Some(u64::MAX));
    assert_eq!(parse_u64_chars(&chars("18446744073709551616")), None);
}

#[test]
fn integers_print_and_read_back() {
    for v in [0i64, 7, -7, i64::MAX, i64::MIN, 1_000_000] {
        let s = i64_to_string(v);
        assert_eq!(s, v.to_string());
        assert_eq!(parse_i64_chars(&chars(&s)), Some(v));
    }
}

#[test]
fn lower_case_and_contains() {
    assert_eq!(ascii_lower_chars(&chars("AbC-É")).into_iter().collect::<String>(), "abc-É");
    assert!(contains_chars(&chars("hevc1"), &chars("evc")));
    assert!(contains_chars(&chars("x"), &chars("")));
    assert!(!contains_chars(&chars("ab"), &chars("abc")));
    assert_eq!(concat2("ab", "cd"), "abcd");
    assert_eq!(chars_of("中文"), vec!['中', '文']);
}
