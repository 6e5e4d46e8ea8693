use vanity_miner::cli::{parse_total_keys, usage_message, usage_required, Config, DEFAULT_TOTAL_KEYS};

#[test]
fn default_budget_value() {
    assert_eq!(DEFAULT_TOTAL_KEYS, 2_000_000);
}

#[test]
fn unparsable_budget_falls_back_to_default() {
    assert_eq!(parse_total_keys(Some("abc")), DEFAULT_TOTAL_KEYS);
    assert_eq!(parse_total_keys(Some("")), DEFAULT_TOTAL_KEYS);
    assert_eq!(parse_total_keys(Some("-5")), DEFAULT_TOTAL_KEYS);
    assert_eq!(parse_total_keys(Some("12.5")), DEFAULT_TOTAL_KEYS);
    assert_eq!(parse_total_keys(Some("99999999999999999999")), DEFAULT_TOTAL_KEYS);
}

#[test]
fn missing_budget_uses_default() {
    assert_eq!(parse_total_keys(None), DEFAULT_TOTAL_KEYS);
}

#[test]
fn valid_budget_is_used() {
    assert_eq!(parse_total_keys(Some("10")), 10);
    assert_eq!(parse_total_keys(Some("0")), 0);
    assert_eq!(parse_total_keys(Some("2000000")), 2_000_000);
}

#[test]
fn usage_needed_for_wrong_argument_counts() {
    // The count includes the program name.
    assert!(usage_required(0));
    assert!(usage_required(1));
    assert!(usage_required(2));
    assert!(!usage_required(3));
    assert!(!usage_required(4));
    assert!(usage_required(5));
}

#[test]
fn usage_text_is_exact() {
    assert_eq!(
        usage_message("miner"),
        "Usage: miner \"Your Name\" \"your.email@example.com\" [total_keys]"
    );
}

#[test]
fn config_holds_given_values_and_fixed_export_dir() {
    let c = Config::new("Alice".to_string(), "alice@example.com".to_string(), 10);
    assert_eq!(c.name, "Alice");
    assert_eq!(c.email, "alice@example.com");
    assert_eq!(c.total_keys, 10);
    assert_eq!(c.export_dir, "./gpg_export");
}

#[test]
fn identity_combines_name_and_email() {
    let c = Config::new("Alice".to_string(), "alice@example.com".to_string(), 1);
    assert_eq!(c.identity(), "Alice <alice@example.com>");
}
