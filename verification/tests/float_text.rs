use omnyssh::float_text::float_exceeds_in;

fn above(s: &str, limit: u64) -> Option<bool> {
    float_exceeds_in(&s.chars().collect(), limit)
}

fn f64_above(s: &str, limit: u64) -> Option<bool> {
    s.parse::<f64>().ok().map(|x| x > limit as f64)
}

#[test]
fn reads_what_f64_reads() {
    let cases = [
        "90", "90.0", "90.5", "89.99", "1e2", "9.1E1", "0.9e2", "+.5e3", "1.e2", "1e+1", "9000e-2",
        "inf", "-INF", "Infinity", "+iNfInItY", "nan", "NaN", "-nan", "1e999", "1e-999", "-1e999",
        "0", "-0.0", "000091", "0.000", "12", "5e1", "50.000001", ".", "e5", "1e", "1e+", "--1",
        "1.2.3", "", "+", "infin", "1 2", "0x10", "1_0", "١",
    ];
    for c in cases {
        assert_eq!(above(c, 90), f64_above(c, 90), "limit 90, text {:?}", c);
        assert_eq!(above(c, 50), f64_above(c, 50), "limit 50, text {:?}", c);
    }
}

#[test]
fn huge_exponents_are_decided_by_magnitude() {
    assert_eq!(above("1e99999999999999999999999999", 90), Some(true));
    assert_eq!(above("1e-99999999999999999999999999", 90), Some(false));
    assert_eq!(above("0e99999999999999999999999999", 90), Some(false));
}
