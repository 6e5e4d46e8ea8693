use vanity_miner::artifact::{log_filename, log_line, private_key_filename, public_key_filename};
use vanity_miner::progress::{progress_message, reporter_running, throughput};

#[test]
fn throughput_truncates_to_whole_seconds() {
    assert_eq!(throughput(1000, 4), 250);
    assert_eq!(throughput(999, 1000), 0);
    assert_eq!(throughput(7, 2), 3);
}

#[test]
fn throughput_is_zero_before_one_second() {
    assert_eq!(throughput(5, 0), 0);
    assert_eq!(throughput(0, 0), 0);
}

#[test]
fn reporter_runs_until_budget_reached() {
    assert!(reporter_running(0, 1));
    assert!(reporter_running(99, 100));
    assert!(!reporter_running(100, 100));
    assert!(!reporter_running(0, 0));
}

#[test]
fn progress_text_is_exact() {
    assert_eq!(progress_message(250, 3), "(250/s) | Found: 3");
    assert_eq!(progress_message(0, 0), "(0/s) | Found: 0");
}

#[test]
fn artifact_names_use_the_index() {
    assert_eq!(public_key_filename(0), "public_key_0.asc");
    assert_eq!(private_key_filename(0), "private_key_0.asc");
    assert_eq!(public_key_filename(12345), "public_key_12345.asc");
    assert_eq!(private_key_filename(12345), "private_key_12345.asc");
    assert_eq!(log_filename(), "found_keys.txt");
}

#[test]
fn log_lines_follow_the_format() {
    assert_eq!(
        log_line(7, "ABCDEF", "DEADBEEF"),
        "[7] ABCDEF - Matched pattern: DEADBEEF"
    );
}
