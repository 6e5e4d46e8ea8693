use vanity_miner::artifact::{log_line, match_announcement, private_key_filename, public_key_filename};
use vanity_miner::catalog::PatternCatalog;
use vanity_miner::engine::{AttemptOutcome, MatchRecord, SearchState};
use vanity_miner::registry::MatchRegistry;

fn fingerprint_with_window(window: &str) -> String {
    let mut f = String::new();
    for _ in 0..24 {
        f.push('A');
    }
    f.push_str(window);
    for _ in 0..8 {
        f.push('B');
    }
    f
}

#[test]
fn registry_reports_a_value_new_exactly_once() {
    let mut r = MatchRegistry::new();
    let f = fingerprint_with_window("DEADDEAD");
    assert!(r.insert(f.clone()));
    assert!(!r.insert(f.clone()));
    assert!(!r.insert(f.clone()));
    assert_eq!(r.len(), 1);
    assert!(r.contains(&f));
}

#[test]
fn registry_distinguishes_values() {
    let mut r = MatchRegistry::new();
    let f = fingerprint_with_window("DEADDEAD");
    let g = fingerprint_with_window("CAFECAFE");
    assert!(!r.contains(&f));
    assert!(r.insert(f.clone()));
    assert!(r.insert(g.clone()));
    assert!(!r.insert(f));
    assert!(!r.insert(g));
    assert_eq!(r.len(), 2);
}

#[test]
fn fixed_generator_run_persists_exactly_one_match() {
    // A stub generator that always returns the same fingerprint, with a
    // catalog pattern in the matched window, under a budget of ten.
    let catalog = PatternCatalog::build();
    let mut state = SearchState::new(10);
    let f = fingerprint_with_window("DEADDEAD");
    let mut records: Vec<MatchRecord> = Vec::new();
    for _ in 0..10 {
        if let Some(record) = state.step(&catalog, AttemptOutcome::Generated(f.clone())) {
            records.push(record);
        }
    }
    assert_eq!(records.len(), 1);
    assert_eq!(records[0].index, 0);
    assert_eq!(records[0].fingerprint, f);
    assert_eq!(records[0].pattern, "DEADDEAD");
    assert_eq!(state.attempts_completed(), 10);
    assert_eq!(state.matches_found(), 1);
    assert_eq!(public_key_filename(records[0].index), "public_key_0.asc");
    assert_eq!(private_key_filename(records[0].index), "private_key_0.asc");
    assert_eq!(
        log_line(records[0].index, &records[0].fingerprint, &records[0].pattern),
        format!("[0] {} - Matched pattern: DEADDEAD", f)
    );
}

#[test]
fn zero_budget_performs_no_attempts() {
    let catalog = PatternCatalog::build();
    let mut state = SearchState::new(0);
    assert!(!state.should_attempt());
    let f = fingerprint_with_window("DEADDEAD");
    assert!(state.step(&catalog, AttemptOutcome::Generated(f)).is_none());
    assert_eq!(state.attempts_completed(), 0);
    assert_eq!(state.matches_found(), 0);
}

#[test]
fn attempts_never_pass_the_budget() {
    let catalog = PatternCatalog::build();
    let mut state = SearchState::new(3);
    let f = fingerprint_with_window("ABCDEF01");
    for _ in 0..5 {
        state.step(&catalog, AttemptOutcome::Generated(f.clone()));
        assert!(state.matches_found() <= state.attempts_completed());
        assert!(state.attempts_completed() <= state.total());
    }
    assert_eq!(state.attempts_completed(), 3);
    assert!(!state.should_attempt());
}

#[test]
fn failed_generation_is_not_counted() {
    let catalog = PatternCatalog::build();
    let mut state = SearchState::new(5);
    assert!(state.step(&catalog, AttemptOutcome::Failed).is_none());
    assert!(state.step(&catalog, AttemptOutcome::Failed).is_none());
    assert_eq!(state.attempts_completed(), 0);
    assert_eq!(state.matches_found(), 0);
    assert!(state.should_attempt());
}

#[test]
fn distinct_matches_get_increasing_indices() {
    let catalog = PatternCatalog::build();
    let mut state = SearchState::new(10);
    let f = fingerprint_with_window("DEADDEAD");
    let g = fingerprint_with_window("CAFECAFE");
    let h = fingerprint_with_window("11111111");
    let first = state.step(&catalog, AttemptOutcome::Generated(f)).unwrap();
    let miss = state.step(&catalog, AttemptOutcome::Generated(fingerprint_with_window("ABCDEF01")));
    let second = state.step(&catalog, AttemptOutcome::Generated(g)).unwrap();
    let third = state.step(&catalog, AttemptOutcome::Generated(h)).unwrap();
    assert!(miss.is_none());
    assert_eq!(first.index, 0);
    assert_eq!(second.index, 1);
    assert_eq!(third.index, 2);
    assert_eq!(state.matches_found(), 3);
    assert_eq!(state.attempts_completed(), 4);
}

#[test]
fn non_matching_fingerprint_is_counted_but_not_recorded() {
    let catalog = PatternCatalog::build();
    let mut state = SearchState::new(10);
    let f = fingerprint_with_window("ABCDEF01");
    assert!(state.step(&catalog, AttemptOutcome::Generated(f)).is_none());
    assert_eq!(state.attempts_completed(), 1);
    assert_eq!(state.matches_found(), 0);
}

#[test]
fn announcement_text_is_exact() {
    let f = fingerprint_with_window("DEADDEAD");
    assert_eq!(
        match_announcement(&f, "DEADDEAD"),
        format!("MATCH FOUND! Key: {} Pattern: DEADDEAD", f)
    );
}
