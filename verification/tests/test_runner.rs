use dyad::language::TestRunnerKind;
use dyad::test_runner::{command_line, finish_run, parse, parse_summary_line, tail};

const SAMPLE: &str = "\
running 2 tests
test tests::adds ... ok
test tests::subtracts ... ok

test result: ok. 2 passed; 0 failed; 1 ignored; 0 measured; 0 filtered out; finished in 0.01s

running 1 test
test tests::divides ... FAILED

failures:

---- tests::divides stdout ----
thread 'tests::divides' panicked at src/math.rs:42:9:
assertion `left == right` failed
  left: 3
 right: 2

failures:
    tests::divides

test result: FAILED. 0 passed; 1 failed; 0 ignored; 0 measured; 0 filtered out; finished in 0.00s
";

#[test]
fn sums_counts_across_binaries() {
    let r = parse(TestRunnerKind::CargoTest, SAMPLE);
    assert_eq!(r.passed, 2);
    assert_eq!(r.failed, 1);
    assert_eq!(r.ignored, 1);
}

#[test]
fn captures_failure_name_and_message() {
    let r = parse(TestRunnerKind::CargoTest, SAMPLE);
    assert_eq!(r.failures.len(), 1);
    let f = &r.failures[0];
    assert_eq!(f.name, "tests::divides");
    assert!(
        f.message.starts_with("thread 'tests::divides' panicked"),
        "message was: {:?}",
        f.message
    );
    assert!(f.message.contains("left: 3"));
    assert!(!f.message.contains("failures:"));
    assert!(!f.message.ends_with('\n'));
}

#[test]
fn all_green_run_has_no_failures() {
    let text = "\
running 1 test
test tests::works ... ok

test result: ok. 1 passed; 0 failed; 0 ignored; 0 measured; 0 filtered out; finished in 0.00s
";
    let r = parse(TestRunnerKind::CargoTest, text);
    assert_eq!((r.passed, r.failed, r.ignored), (1, 0, 0));
    assert!(r.failures.is_empty());
}

#[test]
fn non_test_output_parses_to_zeros() {
    let r = parse(TestRunnerKind::CargoTest, "error[E0425]: cannot find value `x`\n");
    assert_eq!((r.passed, r.failed, r.ignored), (0, 0, 0));
    assert!(r.failures.is_empty());
}

#[test]
fn tail_snaps_to_char_boundary() {
    let s = "é".repeat(10);
    let t = tail(&s, 5);
    assert!(t.len() <= 5);
    assert!(t.chars().all(|c| c == 'é'));
    assert_eq!(t, "éé");
}

#[test]
fn tail_returns_whole_string_when_short() {
    assert_eq!(tail("short", 4096), "short");
}

#[test]
fn run_rejects_a_filter_that_smells_like_a_flag() {
    let err = command_line(&vec!["cargo", "test"], Some("--manifest-path=/etc/passwd"))
        .unwrap_err();
    assert!(
        err.message().contains("must not start with '-'"),
        "unexpected error: {}",
        err.message(),
    );
    assert!(err.message().contains("\"--manifest-path=/etc/passwd\""));
}

#[test]
fn a_filter_follows_the_command() {
    let err = command_line(&vec![], Some("adds")).unwrap_err();
    assert_eq!(err.message(), "empty test command (language descriptor bug)");
    assert_eq!(
        command_line(&vec!["cargo", "test"], Some("adds")).unwrap(),
        vec!["cargo", "test", "--color", "never", "--", "adds"]
    );
    assert_eq!(command_line(&vec!["cargo", "test"], None).unwrap(), vec!["cargo", "test", "--color", "never"]);
}

#[test]
fn summary_lines_are_read_by_their_words() {
    assert_eq!(
        parse_summary_line("test result: ok. 12 passed; 3 failed; 4 ignored; 0 measured"),
        Some((12, 3, 4))
    );
    assert_eq!(parse_summary_line("running 3 tests"), None);
}

#[test]
fn a_finished_run_keeps_its_exit_and_its_tail() {
    let r = finish_run(TestRunnerKind::CargoTest, SAMPLE, "warning: x\n", false);
    assert!(!r.exit_ok);
    assert_eq!((r.passed, r.failed, r.ignored), (2, 1, 1));
    assert!(r.raw_tail.len() <= 4096);
    assert!(r.raw_tail.contains("test result: FAILED."));
}

#[test]
fn sums_that_are_too_large_stay_at_the_largest_number() {
    let most = usize::MAX;
    let line = format!("test result: ok. {most} passed; 1 failed; 0 ignored\n");
    let r = parse(TestRunnerKind::CargoTest, &format!("{line}{line}"));
    assert_eq!((r.passed, r.failed, r.ignored), (most, 2, 0));
    let done = finish_run(TestRunnerKind::CargoTest, &line, "", false);
    assert_eq!((done.passed, done.exit_ok), (most, false));
}

#[test]
fn counts_of_outputs_behind_one_another_add_up() {
    let other = "running 4 tests\r\ntest result: ok. 3 passed; 2 failed; 5 ignored; 0 measured\r\n";
    let a = parse(TestRunnerKind::CargoTest, SAMPLE);
    let b = parse(TestRunnerKind::CargoTest, other);
    let both = parse(TestRunnerKind::CargoTest, &format!("{SAMPLE}{other}"));
    assert_eq!(both.passed, a.passed + b.passed);
    assert_eq!(both.failed, a.failed + b.failed);
    assert_eq!(both.ignored, a.ignored + b.ignored);
    assert_eq!((both.passed, both.failed, both.ignored), (5, 3, 6));
}
