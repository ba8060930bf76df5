use webbench::status::classify;
use webbench::status::CycleOutcome;
use webbench::status::Status;

#[test]
fn new_is_zeroed() {
    let s = Status::new();
    assert_eq!(s.received, 0);
    assert_eq!(s.success, 0);
    assert_eq!(s.failed, 0);
    assert!(!s.interrupted);
    let d = Status::default();
    assert_eq!(d, s);
}

#[test]
fn classify_zero_is_failure() {
    assert_eq!(classify(0), CycleOutcome::Failure);
}

#[test]
fn classify_nonzero_is_success() {
    assert_eq!(classify(1), CycleOutcome::Success(1));
    assert_eq!(classify(1024), CycleOutcome::Success(1024));
}

#[test]
fn record_success_adds_bytes_and_count() {
    let mut s = Status::new();
    s.record(CycleOutcome::Success(100));
    assert_eq!(s.received, 100);
    assert_eq!(s.success, 1);
    assert_eq!(s.failed, 0);
    s.record(CycleOutcome::Success(24));
    assert_eq!(s.received, 124);
    assert_eq!(s.success, 2);
    assert_eq!(s.failed, 0);
}

#[test]
fn record_failure_leaves_bytes_unchanged() {
    let mut s = Status::new();
    s.record(CycleOutcome::Success(50));
    s.record(CycleOutcome::Failure);
    assert_eq!(s.received, 50);
    assert_eq!(s.success, 1);
    assert_eq!(s.failed, 1);
}

#[test]
fn zero_byte_cycle_counts_as_failure() {
    let mut s = Status::new();
    s.record(classify(0));
    assert_eq!(s.failed, 1);
    assert_eq!(s.success, 0);
    assert_eq!(s.received, 0);
}

#[test]
fn counters_sum_equals_completed_cycles() {
    let outcomes = vec![
        CycleOutcome::Success(10),
        CycleOutcome::Failure,
        CycleOutcome::Success(30),
        CycleOutcome::Failure,
        CycleOutcome::Failure,
    ];
    let mut s = Status::new();
    let mut last_sum = 0u64;
    for (i, o) in outcomes.iter().enumerate() {
        s.record(*o);
        let sum = s.success as u64 + s.failed as u64;
        assert_eq!(sum, (i + 1) as u64);
        assert!(sum >= last_sum);
        last_sum = sum;
    }
    assert_eq!(s.received, 40);
    assert_eq!(s.success, 2);
    assert_eq!(s.failed, 3);
}

#[test]
fn set_interrupted_touches_only_the_flag() {
    let mut s = Status::new();
    s.record(CycleOutcome::Success(7));
    s.set_interrupted();
    assert!(s.interrupted);
    assert_eq!(s.received, 7);
    assert_eq!(s.success, 1);
    assert_eq!(s.failed, 0);
}
