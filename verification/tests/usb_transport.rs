use payjoin_blackpill_test::transport::{
    echo_reply_len, recv_result, FrameSender, IoOutcome, SendAction,
};

#[test]
fn recv_maps_outcomes() {
    assert_eq!(recv_result(IoOutcome::Transferred(7)), Ok(7));
    assert_eq!(recv_result(IoOutcome::Transferred(0)), Ok(0));
    assert_eq!(recv_result(IoOutcome::WouldBlock), Ok(0));
    assert_eq!(recv_result(IoOutcome::Failed), Err(()));
}

#[test]
fn echo_only_nonempty_reads() {
    assert_eq!(echo_reply_len(IoOutcome::Transferred(64)), Some(64));
    assert_eq!(echo_reply_len(IoOutcome::Transferred(0)), None);
    assert_eq!(echo_reply_len(IoOutcome::WouldBlock), None);
    assert_eq!(echo_reply_len(IoOutcome::Failed), None);
}

#[test]
fn empty_frame_completes_at_once() {
    let sender = FrameSender::new(0);
    assert_eq!(sender.next_action(), SendAction::Complete);
    assert_eq!(sender.result(), Some(Ok(())));
}

#[test]
fn frame_sent_in_chunks_with_retries() {
    let frame: Vec<u8> = (0..10u8).collect();
    let mut sender = FrameSender::new(frame.len());
    assert_eq!(sender.next_action(), SendAction::Write(0));
    assert_eq!(sender.pending(&frame), &frame[..]);
    sender.on_write(IoOutcome::WouldBlock);
    assert_eq!(sender.next_action(), SendAction::Write(0));
    sender.on_write(IoOutcome::Transferred(4));
    assert_eq!(sender.next_action(), SendAction::Write(4));
    assert_eq!(sender.pending(&frame), &frame[4..]);
    assert_eq!(sender.result(), None);
    sender.on_write(IoOutcome::Transferred(0));
    assert_eq!(sender.sent(), 4);
    sender.on_write(IoOutcome::Transferred(6));
    assert_eq!(sender.sent(), 10);
    assert_eq!(sender.next_action(), SendAction::Complete);
    assert_eq!(sender.result(), Some(Ok(())));
    assert!(sender.pending(&frame).is_empty());
}

#[test]
fn write_error_aborts() {
    let mut sender = FrameSender::new(3);
    sender.on_write(IoOutcome::Transferred(1));
    sender.on_write(IoOutcome::Failed);
    assert_eq!(sender.next_action(), SendAction::Abort);
    assert_eq!(sender.result(), Some(Err(())));
    assert_eq!(sender.sent(), 1);
}

#[test]
fn count_beyond_frame_completes() {
    let mut sender = FrameSender::new(5);
    sender.on_write(IoOutcome::Transferred(2));
    sender.on_write(IoOutcome::Transferred(usize::MAX));
    assert_eq!(sender.sent(), 5);
    assert_eq!(sender.next_action(), SendAction::Complete);
}

#[test]
fn stalling_port_finishes_within_bound() {
    // Three pending bytes, never more than one stall in a row: done within
    // (1 + 1) * 3 = 6 writes.
    let outcomes = [
        IoOutcome::WouldBlock,
        IoOutcome::Transferred(1),
        IoOutcome::Transferred(0),
        IoOutcome::Transferred(1),
        IoOutcome::WouldBlock,
        IoOutcome::Transferred(1),
    ];
    let mut sender = FrameSender::new(3);
    let mut writes = 0;
    for outcome in outcomes {
        if let SendAction::Write(_) = sender.next_action() {
            sender.on_write(outcome);
            writes += 1;
        }
    }
    assert_eq!(writes, 6);
    assert_eq!(sender.next_action(), SendAction::Complete);
}
