use print_transport::error::{ErrorKind, TransportError};
use print_transport::serial::{
    SerialAction, SerialEvent, SerialJob, SerialStep, CHUNK_PAUSE_MS, CHUNK_SIZE,
    SERIAL_TIMEOUT_MS,
};

/// Answers every action of a job with success, but for the action at index
/// `fail_at`, which is answered with `failure`; gives the actions that the
/// job asked for, the first one included, and the outcome of the call.
fn run(
    port: &str,
    baud_rate: u32,
    payload: &[u8],
    fail_at: Option<(usize, SerialEvent)>,
) -> (Vec<SerialAction>, Result<(), TransportError>) {
    let (mut job, first) = SerialJob::begin(port.to_string(), baud_rate, payload.to_vec());
    let mut actions = vec![first];
    loop {
        let asked = actions.len() - 1;
        let event = match &fail_at {
            Some((index, failure)) if *index == asked => failure.clone(),
            _ => match &actions[asked] {
                SerialAction::Open { .. } => SerialEvent::Opened,
                SerialAction::Write { .. } => SerialEvent::Written,
                SerialAction::Pause { .. } => SerialEvent::Paused,
                SerialAction::Flush => SerialEvent::Flushed,
            },
        };
        match job.step(event) {
            SerialStep::Continue(next, action) => {
                job = next;
                actions.push(action);
            }
            SerialStep::Finished(outcome) => return (actions, outcome),
        }
    }
}

fn chunks(actions: &[SerialAction]) -> Vec<Vec<u8>> {
    let mut found = Vec::new();
    for action in actions {
        if let SerialAction::Write { chunk } = action {
            found.push(chunk.clone());
        }
    }
    found
}

fn pattern(len: usize) -> Vec<u8> {
    (0..len).map(|i| (i % 253) as u8).collect()
}

#[test]
fn chunking_constants() {
    assert_eq!(CHUNK_SIZE, 512);
    assert_eq!(CHUNK_PAUSE_MS, 20);
    assert_eq!(SERIAL_TIMEOUT_MS, 3000);
}

#[test]
fn sends_1025_bytes_as_three_writes() {
    let payload = pattern(1025);
    let (actions, outcome) = run("COM3", 9600, &payload, None);
    assert_eq!(
        actions,
        vec![
            SerialAction::Open { port: "COM3".to_string(), baud_rate: 9600, timeout_ms: 3000 },
            SerialAction::Write { chunk: payload[0..512].to_vec() },
            SerialAction::Pause { millis: 20 },
            SerialAction::Write { chunk: payload[512..1024].to_vec() },
            SerialAction::Pause { millis: 20 },
            SerialAction::Write { chunk: payload[1024..1025].to_vec() },
            SerialAction::Pause { millis: 20 },
            SerialAction::Flush,
        ]
    );
    let sizes: Vec<usize> = chunks(&actions).iter().map(|chunk| chunk.len()).collect();
    assert_eq!(sizes, vec![512, 512, 1]);
    assert_eq!(outcome, Ok(()));
}

#[test]
fn begins_by_opening_the_port() {
    let (_, action) = SerialJob::begin("/dev/rfcomm0".to_string(), 115200, vec![1]);
    assert_eq!(
        action,
        SerialAction::Open { port: "/dev/rfcomm0".to_string(), baud_rate: 115200, timeout_ms: 3000 }
    );
}

#[test]
fn an_empty_payload_is_opened_and_flushed() {
    let (actions, outcome) = run("COM1", 19200, &[], None);
    assert_eq!(
        actions,
        vec![
            SerialAction::Open { port: "COM1".to_string(), baud_rate: 19200, timeout_ms: 3000 },
            SerialAction::Flush,
        ]
    );
    assert_eq!(outcome, Ok(()));
}

#[test]
fn a_payload_of_one_chunk_is_written_at_once() {
    for len in [1usize, 2, 511, 512] {
        let payload = pattern(len);
        let (actions, outcome) = run("COM1", 9600, &payload, None);
        assert_eq!(chunks(&actions), vec![payload.clone()]);
        assert_eq!(actions.len(), 4);
        assert_eq!(outcome, Ok(()));
    }
}

#[test]
fn chunks_are_the_payload_in_order() {
    for len in [0usize, 1, 511, 512, 513, 1023, 1024, 1025, 1536, 2000, 5121] {
        let payload = pattern(len);
        let (actions, outcome) = run("COM1", 9600, &payload, None);
        let written = chunks(&actions);
        assert_eq!(written.concat(), payload);
        assert_eq!(written.len(), (len + 511) / 512);
        for (index, chunk) in written.iter().enumerate() {
            assert!(!chunk.is_empty());
            assert!(chunk.len() <= 512);
            if index + 1 < written.len() {
                assert_eq!(chunk.len(), 512);
            }
        }
        assert_eq!(outcome, Ok(()));
    }
}

#[test]
fn every_write_is_followed_by_the_pause() {
    let (actions, _) = run("COM1", 9600, &pattern(1600), None);
    for (index, action) in actions.iter().enumerate() {
        if matches!(action, SerialAction::Write { .. }) {
            assert_eq!(actions[index + 1], SerialAction::Pause { millis: 20 });
        }
    }
    assert_eq!(actions.last(), Some(&SerialAction::Flush));
}

#[test]
fn a_port_that_cannot_be_opened_is_an_open_error() {
    let failure = SerialEvent::OpenFailed { cause: "No such file or directory".to_string() };
    let (actions, outcome) = run("/dev/ttyNONE", 9600, &pattern(700), Some((0, failure)));
    assert_eq!(actions.len(), 1);
    assert!(chunks(&actions).is_empty());
    let error = outcome.expect_err("the call failed");
    assert_eq!(error.kind, ErrorKind::OpenError);
    assert_eq!(
        error.message,
        "Unable to open serial port /dev/ttyNONE: No such file or directory"
    );
}

#[test]
fn a_chunk_that_cannot_be_written_is_a_write_error() {
    let failure = SerialEvent::WriteFailed { cause: "Operation timed out".to_string() };
    let payload = pattern(1500);
    let (actions, outcome) = run("COM3", 9600, &payload, Some((3, failure)));
    assert_eq!(chunks(&actions), vec![payload[0..512].to_vec(), payload[512..1024].to_vec()]);
    assert_eq!(actions.len(), 4);
    let error = outcome.expect_err("the call failed");
    assert_eq!(error.kind, ErrorKind::WriteError);
    assert_eq!(error.message, "Serial write failed (COM3): Operation timed out");
}

#[test]
fn a_flush_that_fails_fails_the_call() {
    let failure = SerialEvent::FlushFailed { cause: "device removed".to_string() };
    let (actions, outcome) = run("COM3", 9600, &pattern(10), Some((3, failure)));
    assert_eq!(actions.last(), Some(&SerialAction::Flush));
    let error = outcome.expect_err("the call failed");
    assert_eq!(error.kind, ErrorKind::WriteError);
    assert_eq!(error.message, "Serial flush failed (COM3): device removed");
}

#[test]
fn a_serial_event_that_answers_nothing_fails_the_task() {
    let cases: Vec<(usize, SerialEvent)> = vec![
        (0, SerialEvent::Written),
        (0, SerialEvent::Flushed),
        (1, SerialEvent::Opened),
        (1, SerialEvent::Paused),
        (1, SerialEvent::FlushFailed { cause: "early".to_string() }),
        (2, SerialEvent::Written),
        (2, SerialEvent::WriteFailed { cause: "late".to_string() }),
        (3, SerialEvent::Paused),
        (3, SerialEvent::OpenFailed { cause: "late".to_string() }),
    ];
    for (index, event) in cases {
        let (actions, outcome) = run("COM8", 9600, &pattern(3), Some((index, event)));
        assert_eq!(actions.len(), index + 1);
        let error = outcome.expect_err("the call failed");
        assert_eq!(error.kind, ErrorKind::TaskFailure);
        assert_eq!(error.message, "Print task failed (COM8): unexpected event");
    }
}

#[test]
fn a_call_asks_for_two_actions_a_chunk_and_two_more() {
    for len in [0usize, 1, 512, 513, 4096, 4097] {
        let (actions, outcome) = run("COM1", 9600, &pattern(len), None);
        assert_eq!(actions.len(), 2 * ((len + 511) / 512) + 2);
        assert_eq!(outcome, Ok(()));
    }
}
