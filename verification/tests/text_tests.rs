use zero_trust_gateway::text::{parse_decimal_usize, push_decimal, trimmed};

#[test]
fn decimal_reads_back() {
    for n in [0usize, 7, 10, 42, 2049, usize::MAX] {
        let mut s = String::new();
        push_decimal(&mut s, n);
        assert_eq!(s, n.to_string());
        let chars: Vec<char> = s.chars().collect();
        assert_eq!(parse_decimal_usize(&chars), Some(n));
    }
}

#[test]
fn decimal_parse_matches_std() {
    for s in ["", "+", "-1", "+12", "0012", "1_000", "18446744073709551616", "18446744073709551615", " 1"] {
        let chars: Vec<char> = s.chars().collect();
        assert_eq!(parse_decimal_usize(&chars), s.parse::<usize>().ok(), "{:?}", s);
    }
}

#[test]
fn trimming_drops_ascii_whitespace_on_both_sides() {
    let chars: Vec<char> = " \t a b \r\n".chars().collect();
    assert_eq!(trimmed(&chars), "a b");
    let blank: Vec<char> = "   ".chars().collect();
    assert_eq!(trimmed(&blank), "");
}
