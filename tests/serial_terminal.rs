use fleascope_rs::serial_terminal::{frame_command, DrainStep, ExecStep, HandshakeStep, INTERRUPT};
use fleascope_rs::{FleaPreTerminal, FleaTerminalError, IdleFleaTerminal, ReadEvent};

fn data(bytes: &[u8]) -> ReadEvent {
    ReadEvent::Data(bytes.to_vec())
}

fn idle() -> IdleFleaTerminal<()> {
    let handshake = FleaPreTerminal::new(()).initialize();
    let mut expected = vec![INTERRUPT];
    expected.extend_from_slice(b"prompt on\n");
    assert_eq!(handshake.request_bytes(), &expected);
    let handshake = match handshake.step(data(b"prompt on\r\n"), 10) {
        HandshakeStep::Pending(h) => h,
        _ => panic!("handshake ended early"),
    };
    match handshake.step(data(b"> "), 20) {
        HandshakeStep::Ready(idle) => idle,
        _ => panic!("handshake did not complete"),
    }
}

#[test]
fn frames_end_with_line_feed() {
    assert_eq!(frame_command("ver"), b"ver\n".to_vec());
}

#[test]
fn handshake_timeout_hands_link_back() {
    let handshake = FleaPreTerminal::new(()).initialize();
    match handshake.step(ReadEvent::Nothing, 1000) {
        HandshakeStep::Failed(_, e) => assert_eq!(e, FleaTerminalError::Timeout { timeout_ms: 1000 }),
        _ => panic!("expected a timeout"),
    }
    let handshake = FleaPreTerminal::new(()).initialize();
    match handshake.step(ReadEvent::Lost, 0) {
        HandshakeStep::Failed(_, e) => assert_eq!(e, FleaTerminalError::ConnectionLost),
        _ => panic!("expected a lost link"),
    }
}

#[test]
fn response_is_collected_until_marker() {
    let busy = idle().exec_async("ver");
    assert_eq!(busy.request_bytes(), &b"ver\n".to_vec());
    let busy = match busy.is_ready(data(b"FleaScope ")) {
        Ok(Err(b)) => b,
        _ => panic!("no marker yet"),
    };
    let busy = match busy.is_ready(ReadEvent::Nothing) {
        Ok(Err(b)) => b,
        _ => panic!("no marker yet"),
    };
    let busy = match busy.is_ready(data(b"v1.2\r\n>")) {
        Ok(Err(b)) => b,
        _ => panic!("marker incomplete"),
    };
    match busy.is_ready(data(b" ")) {
        Ok(Ok((payload, _idle))) => assert_eq!(payload, b"FleaScope v1.2\r\n".to_vec()),
        _ => panic!("expected completion"),
    }
    assert!(idle().exec_async("ver").is_ready(ReadEvent::Lost).is_err());
}

#[test]
fn blocking_step_times_out_and_stays_busy() {
    let busy = idle().exec_async("scope 90 0x00 0x00 0");
    let busy = match busy.exec_sync_step(data(b"12,0x1\r\n"), 5, Some(10)) {
        ExecStep::Pending(b) => b,
        _ => panic!("expected pending"),
    };
    let busy = match busy.exec_sync_step(ReadEvent::Nothing, 10, Some(10)) {
        ExecStep::TimedOut(b, e) => {
            assert_eq!(e, FleaTerminalError::Timeout { timeout_ms: 10 });
            b
        }
        _ => panic!("expected a timeout"),
    };
    match busy.exec_sync_step(data(b"> "), 50, None) {
        ExecStep::Complete(payload, _) => assert_eq!(payload, b"12,0x1\r\n".to_vec()),
        _ => panic!("expected completion"),
    }
}

#[test]
fn cancel_leaves_no_residue() {
    let busy = idle().exec_async("scope 1000 0x00 0x00 0");
    let busy = match busy.is_ready(data(b"1,0x0\r\n2,0x")) {
        Ok(Err(b)) => b,
        _ => panic!("no marker yet"),
    };
    let cancelling = busy.cancel();
    let cancelling = match cancelling.step(data(b"0\r\n3,0x0\r\n>"), 1, 100) {
        DrainStep::Pending(c) => c,
        _ => panic!("not drained yet"),
    };
    let idle = match cancelling.step(data(b" "), 2, 100) {
        DrainStep::Drained(idle) => idle,
        _ => panic!("expected drained"),
    };
    let busy = idle.exec_async("ver");
    match busy.is_ready(data(b"v1.2\r\n> ")) {
        Ok(Ok((payload, _))) => assert_eq!(payload, b"v1.2\r\n".to_vec()),
        _ => panic!("expected completion"),
    }
}

#[test]
fn drain_window_slides_over_single_bytes() {
    let cancelling = idle().exec_async("scope 1000 0x00 0x00 0").cancel();
    let mut c = cancelling;
    for b in b"4,0x0\r\n>".iter() {
        c = match c.step(ReadEvent::Data(vec![*b]), 0, 100) {
            DrainStep::Pending(c) => c,
            _ => panic!("not drained yet"),
        };
    }
    assert!(matches!(c.step(data(b" "), 0, 100), DrainStep::Drained(_)));
}

#[test]
fn drain_times_out_and_is_lost() {
    let c = idle().exec_async("x").cancel();
    assert!(matches!(c.step(ReadEvent::Nothing, 100, 100), DrainStep::TimedOut(_, _)));
    let c = idle().exec_async("x").cancel();
    assert!(matches!(c.step(ReadEvent::Lost, 0, 100), DrainStep::Lost(_)));
}

#[test]
fn empty_reads_never_complete() {
    let busy = idle().exec_async("ver");
    let busy = match busy.is_ready(data(b"")) {
        Ok(Err(b)) => b,
        _ => panic!("an empty read completes nothing"),
    };
    match busy.is_ready(data(b"1\r\n> ")) {
        Ok(Ok((payload, _))) => assert_eq!(payload, b"1\r\n".to_vec()),
        _ => panic!("expected completion"),
    }
}
