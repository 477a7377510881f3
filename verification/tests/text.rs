use palbox::text::{
    chars_of, dec_string, trimmed, line_spans, signed_dec_string, span_contains, trim_span, word_spans,
    Edge,
};

fn pieces(s: &str, spans: &[(usize, usize)]) -> Vec<String> {
    let v: Vec<char> = s.chars().collect();
    spans.iter().map(|&(a, b)| v[a..b].iter().collect()).collect()
}

#[test]
fn decimal() {
    assert_eq!(dec_string(0), "0");
    assert_eq!(dec_string(10), "10");
    assert_eq!(dec_string(u128::MAX), u128::MAX.to_string());
    assert_eq!(signed_dec_string(0), "0");
    assert_eq!(signed_dec_string(-42), "-42");
    assert_eq!(signed_dec_string(i32::MIN), "-2147483648");
    assert_eq!(signed_dec_string(i32::MAX), "2147483647");
}

#[test]
fn lines_match_std() {
    for s in ["", "a", "a\n", "a\r\nb", "\n\nx\r", "x\r\r\n", "\r\n", "a\nb\n\nc"] {
        let v = chars_of(s);
        let want: Vec<String> = s.lines().map(|l| l.to_string()).collect();
        assert_eq!(pieces(s, &line_spans(&v)), want, "lines of {s:?}");
    }
}

#[test]
fn words_match_std() {
    for s in ["", "  ", "a b", " a\u{3000}b\t\nc ", "x\u{85}y\u{a0}z"] {
        let v = chars_of(s);
        let want: Vec<String> = s.split_whitespace().map(|w| w.to_string()).collect();
        assert_eq!(pieces(s, &word_spans(&v)), want, "words of {s:?}");
    }
}

#[test]
fn trims() {
    let s = " \u{2028}hi there\t";
    let v = chars_of(s);
    let (a, b) = trim_span(&v, 0, v.len(), Edge::WhiteSpace);
    assert_eq!(pieces(s, &[(a, b)]), vec![s.trim().to_string()]);
    let s = "((a.b:1))";
    let v = chars_of(s);
    let (a, b) = trim_span(&v, 0, v.len(), Edge::NonAddress);
    assert_eq!(pieces(s, &[(a, b)]), vec!["a.b:1".to_string()]);
    let s = "\u{1}\u{1}";
    let v = chars_of(s);
    let (a, b) = trim_span(&v, 0, v.len(), Edge::NonGraphic);
    assert_eq!(a, b);
}

#[test]
fn substring_search() {
    let v = chars_of("hello world");
    assert!(span_contains(&v, 0, v.len(), &chars_of("o w")));
    assert!(span_contains(&v, 0, v.len(), &chars_of("")));
    assert!(!span_contains(&v, 0, 4, &chars_of("lo")));
    assert!(span_contains(&v, 3, 5, &chars_of("lo")));
    assert!(!span_contains(&v, 0, v.len(), &chars_of("worlds")));
}

#[test]
fn trimmed_matches_std() {
    for s in ["", "  ", " a b ", "\u{3000}x\u{85}", "\u{1}y"] {
        assert_eq!(trimmed(s), s.trim());
    }
}
