use gvac::errors::AppError;
use gvac::registry::Registry;
use gvac::terminal::{
    append_buffer, check_terminal_open, drain_output, find_terminal, flush_step, new_terminal_id,
    pty_dimensions, read_step, remove_terminal, set_last_error, take_session_terminals,
    terminal_read_result, worker_step, worker_unavailable, write_begin, write_step, FlushOutcome,
    ReadControl, ReadOutcome, TerminalSession, TerminalWorkerCommand, WorkerAction, WorkerEvent,
    WorkerPhase, WriteControl, WriteOutcome, MAX_BUFFER_BYTES, MAX_READ_BYTES_PER_TICK,
};

#[test]
fn buffer_keeps_latest_output() {
    let mut b = vec![1u8, 2, 3];
    append_buffer(&mut b, &[]);
    assert_eq!(b, vec![1, 2, 3]);
    append_buffer(&mut b, &[4, 5]);
    assert_eq!(b, vec![1, 2, 3, 4, 5]);
    let mut big = vec![0u8; MAX_BUFFER_BYTES - 1];
    append_buffer(&mut big, &[7, 8, 9]);
    assert_eq!(big.len(), MAX_BUFFER_BYTES);
    assert_eq!(&big[big.len() - 3..], &[7, 8, 9]);
    let drained = drain_output(&mut big);
    assert_eq!(drained.len(), MAX_BUFFER_BYTES);
    assert!(big.is_empty());
}

#[test]
fn last_error_and_checks() {
    let mut slot = None;
    set_last_error(&mut slot, "x".to_string());
    assert_eq!(slot.as_deref(), Some("x"));
    assert_eq!(pty_dimensions(3, 2), (20, 5));
    assert_eq!(pty_dimensions(120, 40), (120, 40));
    assert!(check_terminal_open(false).is_ok());
    assert!(matches!(check_terminal_open(true), Err(AppError::InvalidInput(m)) if m == "terminal closed"));
    assert!(matches!(worker_unavailable(), AppError::InvalidInput(m) if m == "terminal worker unavailable"));
}

#[test]
fn reading_a_terminal() {
    assert_eq!(terminal_read_result(b"hi \xe2\x9c\x93".to_vec(), true, None).unwrap(), "hi ✓");
    assert_eq!(terminal_read_result(vec![0x66, 0xff], false, None).unwrap(), "f\u{FFFD}");
    assert_eq!(terminal_read_result(vec![], false, None).unwrap(), "");
    assert!(matches!(terminal_read_result(vec![], true, None), Err(AppError::Io(m)) if m == "terminal worker stopped"));
    assert!(matches!(
        terminal_read_result(vec![], true, Some("transport read: eof".to_string())),
        Err(AppError::Io(m)) if m == "transport read: eof"
    ));
}

#[test]
fn write_loop_decisions() {
    assert!(matches!(write_begin(0), WriteControl::Flush { pause: false }));
    assert!(matches!(write_begin(3), WriteControl::Write { offset: 0, pause: false }));
    assert!(matches!(write_step(0, 10, WriteOutcome::Wrote(4)), WriteControl::Write { offset: 4, pause: false }));
    assert!(matches!(write_step(4, 10, WriteOutcome::Wrote(0)), WriteControl::Write { offset: 4, pause: true }));
    assert!(matches!(write_step(4, 10, WriteOutcome::WouldBlock), WriteControl::Write { offset: 4, pause: true }));
    assert!(matches!(write_step(4, 10, WriteOutcome::Wrote(6)), WriteControl::Flush { pause: false }));
    assert!(matches!(write_step(4, 10, WriteOutcome::Failed("e".to_string())), WriteControl::Failed(m) if m == "e"));
    assert!(matches!(flush_step(FlushOutcome::Flushed), WriteControl::Finished));
    assert!(matches!(flush_step(FlushOutcome::WouldBlock), WriteControl::Flush { pause: true }));
}

#[test]
fn read_loop_decisions() {
    let mut out = Vec::new();
    assert!(matches!(read_step(&mut out, ReadOutcome::Got(vec![1, 2])), ReadControl::More));
    assert_eq!(out, vec![1, 2]);
    assert!(matches!(read_step(&mut out, ReadOutcome::Got(vec![])), ReadControl::Done));
    assert!(matches!(read_step(&mut out, ReadOutcome::WouldBlock), ReadControl::Done));
    assert!(matches!(read_step(&mut out, ReadOutcome::Failed("x".to_string())), ReadControl::Failed(_)));
    let mut full = vec![0u8; MAX_READ_BYTES_PER_TICK - 1];
    assert!(matches!(read_step(&mut full, ReadOutcome::Got(vec![9])), ReadControl::Done));
}

#[test]
fn worker_state_machine() {
    let (p, a) = worker_step(WorkerPhase::Polling, WorkerEvent::Received(TerminalWorkerCommand::Write(vec![1])));
    assert!(matches!(p, WorkerPhase::Writing) && matches!(a, WorkerAction::Write(ref d) if d == &vec![1]));
    let (p, a) = worker_step(p, WorkerEvent::Done);
    assert!(matches!(p, WorkerPhase::Polling) && matches!(a, WorkerAction::PollQueue));
    let (p, a) = worker_step(p, WorkerEvent::Received(TerminalWorkerCommand::Resize { cols: 10, rows: 50 }));
    assert!(matches!(p, WorkerPhase::Resizing) && matches!(a, WorkerAction::Resize { cols: 20, rows: 50 }));
    let (p, _) = worker_step(p, WorkerEvent::Done);
    let (p, a) = worker_step(p, WorkerEvent::QueueEmpty);
    assert!(matches!(p, WorkerPhase::Reading) && matches!(a, WorkerAction::Read));
    let (p, a) = worker_step(p, WorkerEvent::ReadChunk(vec![]));
    assert!(matches!(p, WorkerPhase::Polling) && matches!(a, WorkerAction::IdleThenPoll));
    let (p, _) = worker_step(p, WorkerEvent::QueueEmpty);
    let (p, a) = worker_step(p, WorkerEvent::ReadChunk(vec![5]));
    assert!(matches!(p, WorkerPhase::Polling) && matches!(a, WorkerAction::Append(ref c) if c == &vec![5]));
    let (p, a) = worker_step(p, WorkerEvent::Received(TerminalWorkerCommand::Close));
    assert!(matches!(p, WorkerPhase::Stopped) && matches!(a, WorkerAction::Shutdown { error: None }));
    let (p, a) = worker_step(p, WorkerEvent::QueueEmpty);
    assert!(matches!(p, WorkerPhase::Stopped) && matches!(a, WorkerAction::Shutdown { error: None }));
}

#[test]
fn worker_failures_carry_their_reason() {
    let (_, a) = worker_step(WorkerPhase::Writing, WorkerEvent::Failed("broken pipe".to_string()));
    assert!(matches!(a, WorkerAction::Shutdown { error: Some(ref m) } if m == "transport write: broken pipe"));
    let (_, a) = worker_step(WorkerPhase::Resizing, WorkerEvent::Failed("nope".to_string()));
    assert!(matches!(a, WorkerAction::Shutdown { error: Some(ref m) } if m == "pty resize: nope"));
    let (_, a) = worker_step(WorkerPhase::Reading, WorkerEvent::Failed("eof".to_string()));
    assert!(matches!(a, WorkerAction::Shutdown { error: Some(ref m) } if m == "transport read: eof"));
    let (_, a) = worker_step(WorkerPhase::Reading, WorkerEvent::LockPoisoned);
    assert!(matches!(a, WorkerAction::Shutdown { error: Some(ref m) } if m == "state lock poisoned"));
    let (p, a) = worker_step(WorkerPhase::Polling, WorkerEvent::QueueDisconnected);
    assert!(matches!(p, WorkerPhase::Stopped) && matches!(a, WorkerAction::Shutdown { error: None }));
}

#[test]
fn terminal_table() {
    let mut t: Registry<TerminalSession<u32>> = Registry::new();
    let id = new_terminal_id();
    assert_eq!(id.len(), 36);
    t.insert(id.clone(), TerminalSession { session_id: "s1".to_string(), handle: 1 });
    t.insert("t2".to_string(), TerminalSession { session_id: "s2".to_string(), handle: 2 });
    t.insert("t3".to_string(), TerminalSession { session_id: "s1".to_string(), handle: 3 });
    assert_eq!(find_terminal(&t, "t2").ok().unwrap().handle, 2);
    assert!(matches!(find_terminal(&t, "zz"), Err(AppError::TerminalNotFound)));
    let mut taken: Vec<u32> = take_session_terminals(&mut t, "s1").into_iter().map(|(_, x)| x.handle).collect();
    taken.sort();
    assert_eq!(taken, vec![1, 3]);
    assert_eq!(t.len(), 1);
    assert!(t.contains_key("t2"));
    assert!(take_session_terminals(&mut t, "s9").is_empty());
    assert_eq!(remove_terminal(&mut t, "t2").ok().unwrap().handle, 2);
    assert!(matches!(remove_terminal(&mut t, "t2"), Err(AppError::TerminalNotFound)));
}

#[test]
fn output_is_read_back_in_order() {
    let mut b = Vec::new();
    append_buffer(&mut b, b"hello ");
    append_buffer(&mut b, b"");
    append_buffer(&mut b, b"world");
    let data = drain_output(&mut b);
    assert_eq!(terminal_read_result(data, false, None).unwrap(), "hello world");
    assert_eq!(terminal_read_result(drain_output(&mut b), false, None).unwrap(), "");
}
