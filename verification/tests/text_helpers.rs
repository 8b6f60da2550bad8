use mc_motd::text::{chars_of, ends_with, find_char, parse_u32, split_ranges, starts_with};
use mc_motd::wire::append_bytes;

fn chars(s: &str) -> Vec<char> {
    s.chars().collect()
}

fn pieces(s: &str, sep: char) -> Vec<String> {
    let cs = chars(s);
    split_ranges(&cs, sep).into_iter().map(|(a, b)| cs[a..b].iter().collect()).collect()
}

#[test]
fn chars_of_a_string() {
    assert_eq!(chars_of(""), Vec::<char>::new());
    assert_eq!(chars_of("a"), vec!['a']);
    assert_eq!(chars_of("状态: x"), vec!['状', '态', ':', ' ', 'x']);
}

#[test]
fn finds_the_first_occurrence() {
    let cs = chars("a.b.c");
    assert_eq!(find_char(&cs, 0, '.'), 1);
    assert_eq!(find_char(&cs, 1, '.'), 1);
    assert_eq!(find_char(&cs, 2, '.'), 3);
    assert_eq!(find_char(&cs, 4, '.'), 5);
    assert_eq!(find_char(&cs, 5, '.'), 5);
    assert_eq!(find_char(&cs, 0, ';'), 5);
    assert_eq!(find_char(&[], 0, ';'), 0);
}

#[test]
fn splits_as_the_standard_library_splits() {
    for text in ["", ";", "a", "a;b", "a;;b", ";a", "a;", ";;", "a;b;c;d;e;f;g;h;i;j", "世;界"] {
        let expected: Vec<String> = text.split(';').map(|p| p.to_string()).collect();
        assert_eq!(pieces(text, ';'), expected);
    }
    assert_eq!(pieces("a.b", ';'), vec!["a.b".to_string()]);
    assert_eq!(pieces("", ';'), vec![String::new()]);
    assert_eq!(pieces("a;;b", ';'), vec!["a".to_string(), String::new(), "b".to_string()]);
}

#[test]
fn prefixes_and_suffixes() {
    assert!(starts_with(&chars("abc"), &chars("")));
    assert!(starts_with(&chars("abc"), &chars("ab")));
    assert!(starts_with(&chars("abc"), &chars("abc")));
    assert!(!starts_with(&chars("abc"), &chars("abcd")));
    assert!(!starts_with(&chars("abc"), &chars("b")));
    assert!(ends_with(&chars("abc"), &chars("")));
    assert!(ends_with(&chars("abc"), &chars("bc")));
    assert!(ends_with(&chars("abc"), &chars("abc")));
    assert!(!ends_with(&chars("abc"), &chars("xabc")));
    assert!(!ends_with(&chars("abc"), &chars("b")));
    assert!(ends_with(&chars(""), &chars("")));
}

#[test]
fn parses_unsigned_numbers() {
    assert_eq!(parse_u32(&chars("0")), Some(0));
    assert_eq!(parse_u32(&chars("527")), Some(527));
    assert_eq!(parse_u32(&chars("+527")), Some(527));
    assert_eq!(parse_u32(&chars("000527")), Some(527));
    assert_eq!(parse_u32(&chars("4294967295")), Some(u32::MAX));
    assert_eq!(parse_u32(&chars("4294967296")), None);
    assert_eq!(parse_u32(&chars("42949672950")), None);
    assert_eq!(parse_u32(&chars("")), None);
    assert_eq!(parse_u32(&chars("+")), None);
    assert_eq!(parse_u32(&chars("-1")), None);
    assert_eq!(parse_u32(&chars("1 ")), None);
    assert_eq!(parse_u32(&chars("12a")), None);
    assert_eq!(parse_u32(&chars("99999999999a")), None);
}

#[test]
fn appends_bytes() {
    let mut buf = vec![1u8, 2];
    append_bytes(&mut buf, &[3, 4, 5]);
    assert_eq!(buf, vec![1, 2, 3, 4, 5]);
    append_bytes(&mut buf, &[]);
    assert_eq!(buf, vec![1, 2, 3, 4, 5]);
}
