use std::collections::HashSet;
use vanity_miner::catalog::PatternCatalog;

fn fingerprint_with_window(window: &str) -> String {
    let mut f = String::new();
    for _ in 0..24 {
        f.push('A');
    }
    f.push_str(window);
    for _ in 0..8 {
        f.push('B');
    }
    f
}

#[test]
fn build_is_deterministic() {
    let a = PatternCatalog::build();
    let b = PatternCatalog::build();
    let sa: HashSet<String> = a.to_vec().into_iter().collect();
    let sb: HashSet<String> = b.to_vec().into_iter().collect();
    assert_eq!(sa, sb);
}

#[test]
fn build_has_no_duplicates() {
    let c = PatternCatalog::build();
    let v = c.to_vec();
    let s: HashSet<String> = v.iter().cloned().collect();
    assert_eq!(v.len(), s.len());
}

#[test]
fn catalog_size_matches_construction() {
    // 47 * 47 ordered word pairs; the three direct literals and all sixteen
    // repeated digits are already word pairs; 240 repeated distinct digit
    // pairs of which twelve are word pairs; the two runs are new.
    let c = PatternCatalog::build();
    assert_eq!(c.to_vec().len(), 47 * 47 + 228 + 2);
}

#[test]
fn catalog_patterns_are_eight_chars() {
    let c = PatternCatalog::build();
    for p in c.to_vec() {
        assert_eq!(p.len(), 8);
    }
}

#[test]
fn test_hits_word_pair() {
    let c = PatternCatalog::build();
    let f = fingerprint_with_window("DEADBEEF");
    assert_eq!(f.len(), 40);
    assert_eq!(c.test(&f), Some("DEADBEEF".to_string()));
    let g = fingerprint_with_window("CAFE1337");
    assert_eq!(c.test(&g), Some("CAFE1337".to_string()));
}

#[test]
fn test_hits_repeated_digit() {
    let c = PatternCatalog::build();
    let f = fingerprint_with_window("00000000");
    assert_eq!(c.test(&f), Some("00000000".to_string()));
}

#[test]
fn test_hits_repeated_pair() {
    let c = PatternCatalog::build();
    let f = fingerprint_with_window("01010101");
    assert_eq!(c.test(&f), Some("01010101".to_string()));
    let g = fingerprint_with_window("F5E4F5E4");
    assert_eq!(c.test(&g), None);
}

#[test]
fn test_hits_runs() {
    let c = PatternCatalog::build();
    assert_eq!(
        c.test(&fingerprint_with_window("01234567")),
        Some("01234567".to_string())
    );
    assert_eq!(
        c.test(&fingerprint_with_window("FEDCBA98")),
        Some("FEDCBA98".to_string())
    );
}

#[test]
fn test_misses_unknown_window() {
    let c = PatternCatalog::build();
    assert_eq!(c.test(&fingerprint_with_window("ABCDEF01")), None);
    assert_eq!(c.test(&fingerprint_with_window("00000001")), None);
}

#[test]
fn test_short_fingerprint_never_matches() {
    let c = PatternCatalog::build();
    let mut f = String::new();
    for _ in 0..24 {
        f.push('A');
    }
    f.push_str("DEADBEEF");
    for _ in 0..7 {
        f.push('B');
    }
    assert_eq!(f.len(), 39);
    assert_eq!(c.test(&f), None);
    assert_eq!(c.test(""), None);
    assert_eq!(c.test("DEADBEEF"), None);
}

#[test]
fn test_only_looks_at_fixed_window() {
    // The pattern appears at the start but not in the window: no match.
    let c = PatternCatalog::build();
    let mut f = String::from("DEADBEEF");
    for _ in 0..32 {
        f.push('9');
    }
    assert_eq!(f.len(), 40);
    // The window [24, 32) is "99999999", itself a repeated digit.
    assert_eq!(c.test(&f), Some("99999999".to_string()));
    let mut g = String::from("DEADBEEF");
    for _ in 0..16 {
        g.push('A');
    }
    g.push_str("ABCDEF01");
    for _ in 0..8 {
        g.push('A');
    }
    assert_eq!(g.len(), 40);
    assert_eq!(c.test(&g), None);
}
