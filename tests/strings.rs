use search_aggregator::string_patterns::{
    extract_inner_segment, extract_segment, CharGroupMatch, ExtractSegments, PatternMatch,
};

#[test]
fn string_pattern_match_and_replace() {
    let s = "Hello World".to_string();
    assert_eq!(s.pattern_match_opt("world", true), Some(true));
    assert_eq!(s.pattern_match_opt("world", false), Some(false));
    assert_eq!(s.pattern_match_opt("(", false), None);
    assert!(s.pattern_match("^hello", true));
    assert_eq!(s.pattern_replace("o", "0", false), "Hell0 W0rld");
    assert_eq!(s.pattern_replace("(", "0", false), "Hello World");
    assert_eq!(s.pattern_replace_opt("L+", "_", true), Some("He_o Wor_d".to_string()));
    assert_eq!(s.pattern_replace_opt("[", "_", true), None);
    assert_eq!("a-b c!1é".to_string().strip_non_chars(), "abc1é");
}

#[test]
fn vec_pattern_match_and_replace() {
    let v = vec!["abc".to_string(), "XYZ".to_string()];
    assert_eq!(v.pattern_match_opt("xyz", true), Some(true));
    assert_eq!(v.pattern_match_opt("q", true), Some(false));
    assert_eq!(v.pattern_match_opt("(", true), None);
    let empty: Vec<String> = vec![];
    assert_eq!(empty.pattern_match_opt("a", true), Some(false));
    assert_eq!(empty.pattern_match_opt("(", true), None);
    assert!(!v.pattern_match("(", true));
    assert_eq!(v.pattern_replace("[a-z]", "-", false), vec!["---".to_string(), "XYZ".to_string()]);
    assert_eq!(v.pattern_replace("(", "-", false), v);
    assert_eq!(v.pattern_replace_opt("(", "-", false), None);
    assert_eq!(vec!["a b".to_string()].strip_non_chars(), vec!["ab".to_string()]);
}

#[test]
fn char_groups() {
    assert!("ab3".to_string().has_digits());
    assert!(!"abc".to_string().has_digits());
    assert!("--a".to_string().has_alphanumeric());
    assert!(!"--".to_string().has_alphanumeric());
    assert!("1é".to_string().has_alphabetic());
    assert!(!"12".to_string().has_alphabetic());
}

#[test]
fn segments() {
    let s = "a/b/c".to_string();
    assert_eq!(s.extract_segments("/"), vec!["a", "b", "c"]);
    assert_eq!(s.extract_head("/"), "a");
    assert_eq!(s.extract_tail("/"), "c");
    assert_eq!(s.extract_segment("/", 1), Some("b".to_string()));
    assert_eq!(s.extract_segment("/", -1), Some("c".to_string()));
    assert_eq!(s.extract_segment("/", -4), None);
    assert_eq!(s.extract_segment("/", 3), None);
    assert_eq!(s.extract_head_pair("/"), ("a".to_string(), "b/c".to_string()));
    assert_eq!("abc".to_string().extract_head_pair("/"), ("".to_string(), "abc".to_string()));
    assert_eq!(s.extract_tail_pair("/"), ("c".to_string(), "a/b".to_string()));
    assert_eq!("abc".to_string().extract_tail_pair("/"), ("abc".to_string(), "".to_string()));
    assert_eq!("abc".to_string().extract_head("/"), "abc");
    assert_eq!(extract_segment("x,y", ",", 0), Some("x".to_string()));
}

#[test]
fn inner_segments() {
    let s = "a/b:c/d".to_string();
    assert_eq!(s.extract_inner_segment(&[("/", 1), (":", 1)]), Some("c".to_string()));
    assert_eq!(s.extract_inner_segment(&[("/", 5), (":", 1)]), None);
    assert_eq!(s.extract_inner_segment(&[]), None);
    assert_eq!(extract_inner_segment("", &[("/", 0)]), None);
    assert_eq!(extract_inner_segment("a//b", &[("/", 1), ("x", 0)]), Some("".to_string()));
}
