use webbench::status::CycleOutcome;
use webbench::status::Status;
use webbench::worker::Action;
use webbench::worker::Event;
use webbench::worker::Worker;
use webbench::worker::WorkerState;
use webbench::worker::READ_BUF_LEN;

/// Drives one worker against a cooperative server double that accepts
/// every connection, accepts every write whole, and answers each request
/// with one short read of `response_len` bytes. Returns how many
/// connections were opened and the final counters.
fn drive(keep_alive: bool, request_len: usize, response_len: usize, cycles: usize) -> (u32, Status) {
    let mut w = Worker::new(keep_alive, request_len);
    let mut status = Status::new();
    let mut connects = 0u32;
    let mut completed = 0usize;
    while completed < cycles {
        let action = w.next_action();
        let event = match action {
            Action::Connect => {
                connects += 1;
                Event::Connected
            }
            Action::Write { from } => Event::Wrote(request_len - from),
            Action::Read => Event::Read(response_len),
            Action::Stop => break,
        };
        assert!(w.accepts_event(&event));
        if let Some(outcome) = w.step(event) {
            status.record(outcome);
            completed += 1;
        }
    }
    (connects, status)
}

#[test]
fn spawned_worker_wants_to_connect() {
    let w = Worker::new(true, 44);
    assert_eq!(w.state, WorkerState::Connecting);
    assert_eq!(w.next_action(), Action::Connect);
}

#[test]
fn connect_failure_counts_and_retries_immediately() {
    let mut w = Worker::new(false, 44);
    let outcome = w.step(Event::ConnectFailed);
    assert_eq!(outcome, Some(CycleOutcome::Failure));
    assert_eq!(w.state, WorkerState::Connecting);
    assert_eq!(w.next_action(), Action::Connect);
}

#[test]
fn partial_writes_resume_at_the_suffix() {
    let mut w = Worker::new(false, 10);
    assert_eq!(w.step(Event::Connected), None);
    assert_eq!(w.next_action(), Action::Write { from: 0 });
    assert_eq!(w.step(Event::Wrote(4)), None);
    assert_eq!(w.next_action(), Action::Write { from: 4 });
    assert_eq!(w.step(Event::Wrote(6)), None);
    assert_eq!(w.next_action(), Action::Read);
}

#[test]
fn write_failure_counts_and_reconnects() {
    let mut w = Worker::new(true, 10);
    w.step(Event::Connected);
    let outcome = w.step(Event::WriteFailed);
    assert_eq!(outcome, Some(CycleOutcome::Failure));
    assert_eq!(w.next_action(), Action::Connect);
}

#[test]
fn full_reads_accumulate_until_a_short_read() {
    let mut w = Worker::new(false, 10);
    w.step(Event::Connected);
    w.step(Event::Wrote(10));
    assert_eq!(w.step(Event::Read(READ_BUF_LEN)), None);
    assert_eq!(w.next_action(), Action::Read);
    let outcome = w.step(Event::Read(24));
    assert_eq!(outcome, Some(CycleOutcome::Success((READ_BUF_LEN + 24) as u64)));
}

#[test]
fn zero_byte_response_is_a_failure() {
    let mut w = Worker::new(false, 44);
    w.step(Event::Connected);
    w.step(Event::Wrote(44));
    let outcome = w.step(Event::Read(0));
    assert_eq!(outcome, Some(CycleOutcome::Failure));
    let mut s = Status::new();
    s.record(outcome.unwrap());
    assert_eq!(s.failed, 1);
    assert_eq!(s.received, 0);
    assert_eq!(s.success, 0);
}

#[test]
fn read_error_after_data_still_counts_the_bytes() {
    let mut w = Worker::new(false, 10);
    w.step(Event::Connected);
    w.step(Event::Wrote(10));
    w.step(Event::Read(READ_BUF_LEN));
    let outcome = w.step(Event::ReadFailed);
    assert_eq!(outcome, Some(CycleOutcome::Success(READ_BUF_LEN as u64)));
}

#[test]
fn read_error_with_no_data_is_a_failure() {
    let mut w = Worker::new(false, 10);
    w.step(Event::Connected);
    w.step(Event::Wrote(10));
    let outcome = w.step(Event::ReadFailed);
    assert_eq!(outcome, Some(CycleOutcome::Failure));
}

#[test]
fn persistent_mode_reuses_one_connection() {
    let (connects, status) = drive(true, 44, 100, 5);
    assert_eq!(connects, 1);
    assert_eq!(status.success, 5);
    assert_eq!(status.failed, 0);
    assert_eq!(status.received, 500);
}

#[test]
fn one_shot_mode_connects_every_cycle() {
    let (connects, status) = drive(false, 44, 100, 5);
    assert_eq!(connects, 5);
    assert_eq!(status.success, 5);
    assert_eq!(status.failed, 0);
    assert_eq!(status.received, 500);
}

#[test]
fn persistent_failure_forces_a_reconnect() {
    let mut w = Worker::new(true, 10);
    w.step(Event::Connected);
    w.step(Event::Wrote(10));
    let outcome = w.step(Event::Read(0));
    assert_eq!(outcome, Some(CycleOutcome::Failure));
    assert_eq!(w.next_action(), Action::Connect);
}

#[test]
fn persistent_success_sends_again_without_reconnecting() {
    let mut w = Worker::new(true, 10);
    w.step(Event::Connected);
    w.step(Event::Wrote(10));
    let outcome = w.step(Event::Read(100));
    assert_eq!(outcome, Some(CycleOutcome::Success(100)));
    assert_eq!(w.next_action(), Action::Write { from: 0 });
}

#[test]
fn cancellation_stops_the_worker_without_counting() {
    let mut w = Worker::new(false, 44);
    w.step(Event::Connected);
    let outcome = w.step(Event::Cancelled);
    assert_eq!(outcome, None);
    assert_eq!(w.state, WorkerState::Finished);
    assert_eq!(w.next_action(), Action::Stop);
    assert!(!w.accepts_event(&Event::Connected));
    assert!(!w.accepts_event(&Event::Read(10)));
    assert!(!w.accepts_event(&Event::Cancelled));
}

#[test]
fn four_one_shot_clients_against_a_fixed_body_server() {
    let request = b"GET / HTTP/1.1\r\nHost: x\r\nConnection: close\r\n\r\n";
    let mut bytes = 0u64;
    let mut success = 0u32;
    let mut failed = 0u32;
    for _ in 0..4 {
        let (_, status) = drive(false, request.len(), 100, 3);
        bytes += status.received;
        success += status.success;
        failed += status.failed;
    }
    assert_eq!(failed, 0);
    assert!(success > 0);
    assert!(bytes > 0);
    assert_eq!(bytes % 100, 0);
}
