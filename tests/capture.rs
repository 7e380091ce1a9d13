use wasm_build_runtime::capture::{
    file_name, fresh_file_name, rotation_plan, ActiveStreams, CaptureError, CapturePhase, FileRole,
    Renumber, StreamCapturer, StreamKind,
};

#[test]
fn file_names_per_role() {
    assert_eq!(file_name(FileRole::Stdout, 42), "/tmp/capture_stdout_42");
    assert_eq!(file_name(FileRole::Stderr, 0), "/tmp/capture_stderr_0");
    assert_eq!(file_name(FileRole::Stdin, 18446744073709551615), "/tmp/capture_stdin_18446744073709551615");
    assert_eq!(file_name(FileRole::Scratch, 7), "/tmp/exchange_local_fd_7");
    assert_eq!(file_name(FileRole::Pool, 123), "/tmp/jobserver_123");
    assert_ne!(file_name(FileRole::Stdout, 1), file_name(FileRole::Stderr, 1));
}

#[test]
fn fresh_names_carry_a_number() {
    let n = fresh_file_name(FileRole::Stdout).expect("the system gives random bytes");
    let digits = n.strip_prefix("/tmp/capture_stdout_").expect("the role's prefix");
    assert!(!digits.is_empty());
    assert!(digits.parse::<u64>().is_ok());
}

#[test]
fn rotation_goes_through_scratch() {
    assert_eq!(
        rotation_plan(1, 9, 12),
        vec![Renumber { from: 1, to: 12 }, Renumber { from: 9, to: 1 }, Renumber { from: 12, to: 9 }]
    );
}

#[test]
fn capture_starts_and_stops_once() {
    let mut active = ActiveStreams::new();
    let mut c = StreamCapturer::new(StreamKind::Output, 9, "/tmp/capture_stdout_5".to_string());
    assert_eq!(c.current_phase(), CapturePhase::Ready);
    assert!(matches!(c.stop_capture(&mut active, 12), Err(CaptureError::NotActive)));
    let start = c.start_capture(&mut active, 12).unwrap();
    assert_eq!(start, rotation_plan(1, 9, 12));
    assert!(matches!(c.start_capture(&mut active, 12), Err(CaptureError::AlreadyStarted)));
    let stop = c.stop_capture(&mut active, 13).unwrap();
    assert_eq!(stop, rotation_plan(9, 1, 13));
    assert_eq!(c.current_phase(), CapturePhase::Finished);
    assert_eq!(c.file_name(), "/tmp/capture_stdout_5");
}

#[test]
fn input_capture_rotates_descriptor_zero() {
    let mut active = ActiveStreams::new();
    let mut c = StreamCapturer::new(StreamKind::Input, 6, "/tmp/capture_stdin_1".to_string());
    assert_eq!(c.kind().fd(), 0);
    assert_eq!(c.start_capture(&mut active, 8).unwrap(), rotation_plan(0, 6, 8));
}

#[test]
fn capture_after_abort_recovery_starts_normally() {
    let mut active = ActiveStreams::new();
    let mut c = StreamCapturer::new(StreamKind::Output, 9, "/tmp/capture_stdout_5".to_string());
    c.start_capture(&mut active, 12).unwrap();
    c.finish_restored(&mut active);
    assert_eq!(c.current_phase(), CapturePhase::Finished);
    let mut again = StreamCapturer::new(StreamKind::Output, 10, "/tmp/capture_stdout_6".to_string());
    assert_eq!(again.start_capture(&mut active, 12).unwrap(), rotation_plan(1, 10, 12));
}

fn apply(table: &mut std::collections::HashMap<i32, Vec<u8>>, plan: &[Renumber]) {
    for step in plan {
        let file = table.remove(&step.from).expect("an open slot");
        table.insert(step.to, file);
    }
}

fn table() -> std::collections::HashMap<i32, Vec<u8>> {
    let mut t = std::collections::HashMap::new();
    t.insert(0, b"keyboard".to_vec());
    t.insert(1, b"terminal".to_vec());
    t.insert(9, Vec::new());
    t
}

#[test]
fn capture_without_writes_yields_nothing() {
    let mut active = ActiveStreams::new();
    let mut t = table();
    let before = t.clone();
    let mut c = StreamCapturer::new(StreamKind::Output, 9, "/tmp/capture_stdout_2".to_string());
    apply(&mut t, &c.start_capture(&mut active, 20).unwrap());
    apply(&mut t, &c.stop_capture(&mut active, 20).unwrap());
    assert_eq!(t[&9], Vec::<u8>::new());
    assert_eq!(t, before);
}

#[test]
fn capture_round_trip_is_exact() {
    let mut active = ActiveStreams::new();
    let mut t = table();
    let mut c = StreamCapturer::new(StreamKind::Output, 9, "/tmp/capture_stdout_3".to_string());
    apply(&mut t, &c.start_capture(&mut active, 20).unwrap());
    t.get_mut(&1).unwrap().extend_from_slice(&[0, 255, 10, 13, 7]);
    apply(&mut t, &c.stop_capture(&mut active, 21).unwrap());
    assert_eq!(t[&9], vec![0, 255, 10, 13, 7]);
    assert_eq!(t[&1], b"terminal".to_vec());
}

#[test]
fn stdin_reads_exactly_the_input() {
    let mut active = ActiveStreams::new();
    let mut t = table();
    t.insert(9, vec![1, 2, 3]);
    let mut c = StreamCapturer::new(StreamKind::Input, 9, "/tmp/capture_stdin_3".to_string());
    apply(&mut t, &c.start_capture(&mut active, 20).unwrap());
    assert_eq!(t[&0], vec![1, 2, 3]);
    apply(&mut t, &c.stop_capture(&mut active, 20).unwrap());
    assert_eq!(t[&0], b"keyboard".to_vec());
}

#[test]
fn second_capture_of_a_stream_is_refused() {
    let mut active = ActiveStreams::new();
    let mut first = StreamCapturer::new(StreamKind::Output, 9, "/tmp/capture_stdout_7".to_string());
    let mut second = StreamCapturer::new(StreamKind::Output, 10, "/tmp/capture_stdout_8".to_string());
    let mut other = StreamCapturer::new(StreamKind::Error, 11, "/tmp/capture_stderr_8".to_string());
    first.start_capture(&mut active, 20).unwrap();
    assert!(active.active(StreamKind::Output));
    assert!(matches!(second.start_capture(&mut active, 20), Err(CaptureError::StreamBusy)));
    assert_eq!(second.current_phase(), CapturePhase::Ready);
    assert!(other.start_capture(&mut active, 20).is_ok());
    first.stop_capture(&mut active, 20).unwrap();
    assert!(!active.active(StreamKind::Output));
    assert!(active.active(StreamKind::Error));
    assert!(second.start_capture(&mut active, 20).is_ok());
}

#[test]
fn recovered_capture_frees_its_stream() {
    let mut active = ActiveStreams::new();
    let mut c = StreamCapturer::new(StreamKind::Input, 9, "/tmp/capture_stdin_7".to_string());
    c.start_capture(&mut active, 20).unwrap();
    c.finish_restored(&mut active);
    assert!(!active.active(StreamKind::Input));
}
