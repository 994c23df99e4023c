use tftp::connection::{
    Action, GetTransfer, PutTransfer, Status, TransferError, ERROR_ILLEGAL_OPERATION,
};
use tftp::packet::{encode, Mode, Packet};

fn data_frame(block: u16, payload: Vec<u8>) -> Vec<u8> {
    encode(&Packet::Data { block, payload })
}

fn ack_frame(block: u16) -> Vec<u8> {
    encode(&Packet::Ack { block })
}

#[test]
fn get_accepts_blocks_in_order() {
    let mut t = GetTransfer::new(None);
    match t.on_frame(&data_frame(1, vec![1u8; 512])) {
        Action::Send(Packet::Ack { block }) => assert_eq!(block, 1),
        _ => panic!("expected an acknowledgment"),
    }
    assert!(matches!(t.status, Status::Active));
    match t.on_frame(&data_frame(2, vec![2u8; 10])) {
        Action::Send(Packet::Ack { block }) => assert_eq!(block, 2),
        _ => panic!("expected an acknowledgment"),
    }
    assert!(matches!(t.status, Status::Complete));
    let mut expected = vec![1u8; 512];
    expected.extend(vec![2u8; 10]);
    assert_eq!(t.into_output(), expected);
}

#[test]
fn get_duplicate_block_appended_once_acked_twice() {
    let mut t = GetTransfer::new(None);
    let frame = data_frame(1, vec![7u8; 512]);
    match t.on_frame(&frame) {
        Action::Send(Packet::Ack { block }) => assert_eq!(block, 1),
        _ => panic!("expected an acknowledgment"),
    }
    match t.on_frame(&frame) {
        Action::Send(Packet::Ack { block }) => assert_eq!(block, 1),
        _ => panic!("expected the duplicate to be acknowledged too"),
    }
    assert!(matches!(t.status, Status::Active));
    assert_eq!(t.output.len(), 512);
}

#[test]
fn get_stale_block_reacknowledges_last_accepted() {
    let mut t = GetTransfer::new(None);
    match t.on_frame(&data_frame(5, vec![1u8; 512])) {
        Action::Send(Packet::Ack { block }) => assert_eq!(block, 0),
        _ => panic!("expected an acknowledgment"),
    }
    assert!(matches!(t.status, Status::Active));
    assert!(t.output.is_empty());
}

#[test]
fn get_timeout_resends_then_fails() {
    let mut t = GetTransfer::new(Some(2));
    t.on_frame(&data_frame(1, vec![1u8; 512]));
    match t.on_timeout() {
        Action::Send(Packet::Ack { block }) => assert_eq!(block, 1),
        _ => panic!("expected the last acknowledgment again"),
    }
    match t.on_timeout() {
        Action::Send(Packet::Ack { block }) => assert_eq!(block, 1),
        _ => panic!("expected the last acknowledgment again"),
    }
    match t.on_timeout() {
        Action::Nothing => {}
        _ => panic!("expected no packet after the budget ran out"),
    }
    assert!(matches!(t.status, Status::Failed(TransferError::Timeout)));
}

#[test]
fn get_unbounded_budget_never_times_out() {
    let mut t = GetTransfer::new(None);
    for _ in 0..100 {
        match t.on_timeout() {
            Action::Send(Packet::Ack { block }) => assert_eq!(block, 0),
            _ => panic!("expected a resent acknowledgment"),
        }
    }
    assert!(matches!(t.status, Status::Active));
}

#[test]
fn get_remote_error_fails_with_message() {
    let mut t = GetTransfer::new(None);
    let frame = encode(&Packet::Error { code: 2, message: b"access violation".to_vec() });
    match t.on_frame(&frame) {
        Action::Nothing => {}
        _ => panic!("a remote error is not answered"),
    }
    match &t.status {
        Status::Failed(TransferError::RemoteError { code, message }) => {
            assert_eq!(*code, 2);
            assert_eq!(message, &b"access violation".to_vec());
        }
        _ => panic!("expected the remote error to surface"),
    }
}

#[test]
fn get_unexpected_packet_kind_is_protocol_violation() {
    let mut t = GetTransfer::new(None);
    match t.on_frame(&ack_frame(1)) {
        Action::Send(Packet::Error { code, .. }) => assert_eq!(code, ERROR_ILLEGAL_OPERATION),
        _ => panic!("expected an error reply"),
    }
    assert!(matches!(t.status, Status::Failed(TransferError::ProtocolViolation)));
}

#[test]
fn get_malformed_frame_is_protocol_violation() {
    let mut t = GetTransfer::new(None);
    match t.on_frame(&vec![0u8, 9, 9]) {
        Action::Send(Packet::Error { code, .. }) => assert_eq!(code, ERROR_ILLEGAL_OPERATION),
        _ => panic!("expected an error reply"),
    }
    assert!(matches!(t.status, Status::Failed(TransferError::ProtocolViolation)));
}

#[test]
fn put_walks_blocks_in_order() {
    let mut src = vec![3u8; 512];
    src.extend(vec![4u8; 100]);
    let mut t = PutTransfer::new(src, None);
    match t.current_packet() {
        Packet::Data { block, payload } => {
            assert_eq!(block, 1);
            assert_eq!(payload, vec![3u8; 512]);
        }
        _ => panic!("the first packet is Data block 1"),
    }
    match t.on_frame(&ack_frame(1)) {
        Action::Send(Packet::Data { block, payload }) => {
            assert_eq!(block, 2);
            assert_eq!(payload, vec![4u8; 100]);
        }
        _ => panic!("expected the next Data block"),
    }
    match t.on_frame(&ack_frame(2)) {
        Action::Nothing => {}
        _ => panic!("nothing is sent after the final acknowledgment"),
    }
    assert!(matches!(t.status, Status::Complete));
}

#[test]
fn put_exact_multiple_sends_empty_final_block() {
    let mut t = PutTransfer::new(vec![9u8; 1024], None);
    match t.on_frame(&ack_frame(1)) {
        Action::Send(Packet::Data { block, payload }) => {
            assert_eq!(block, 2);
            assert_eq!(payload.len(), 512);
        }
        _ => panic!("expected the next Data block"),
    }
    match t.on_frame(&ack_frame(2)) {
        Action::Send(Packet::Data { block, payload }) => {
            assert_eq!(block, 3);
            assert!(payload.is_empty());
        }
        _ => panic!("an exact multiple of 512 ends with an empty block"),
    }
    match t.on_frame(&ack_frame(3)) {
        Action::Nothing => {}
        _ => panic!("nothing is sent after the final acknowledgment"),
    }
    assert!(matches!(t.status, Status::Complete));
}

#[test]
fn put_retry_bound_sends_block_max_plus_one_times() {
    let max = 3u32;
    let mut t = PutTransfer::new(vec![5u8; 40], Some(max));
    let mut transmissions = 0u32;
    let _first = t.current_packet();
    transmissions += 1;
    loop {
        match t.on_timeout() {
            Action::Send(Packet::Data { block, payload }) => {
                assert_eq!(block, 1);
                assert_eq!(payload, vec![5u8; 40]);
                transmissions += 1;
            }
            Action::Nothing => break,
            _ => panic!("a timeout resends the current block or gives up"),
        }
    }
    assert_eq!(transmissions, max + 1);
    assert!(matches!(t.status, Status::Failed(TransferError::Timeout)));
}

#[test]
fn put_stale_ack_is_ignored() {
    let mut t = PutTransfer::new(vec![1u8; 700], None);
    match t.on_frame(&ack_frame(0)) {
        Action::Nothing => {}
        _ => panic!("a stale acknowledgment is ignored"),
    }
    assert!(matches!(t.status, Status::Active));
    assert_eq!(t.block, 1);
    assert_eq!(t.offset, 0);
}

#[test]
fn put_remote_error_fails_with_message() {
    let mut t = PutTransfer::new(vec![1u8; 10], None);
    let frame = encode(&Packet::Error { code: 3, message: b"disk full".to_vec() });
    match t.on_frame(&frame) {
        Action::Nothing => {}
        _ => panic!("a remote error is not answered"),
    }
    match &t.status {
        Status::Failed(TransferError::RemoteError { code, message }) => {
            assert_eq!(*code, 3);
            assert_eq!(message, &b"disk full".to_vec());
        }
        _ => panic!("expected the remote error to surface"),
    }
}

#[test]
fn put_unexpected_packet_kind_is_protocol_violation() {
    let mut t = PutTransfer::new(vec![1u8; 10], None);
    let frame = encode(&Packet::Rrq { filename: b"x".to_vec(), mode: Mode::Octet });
    match t.on_frame(&frame) {
        Action::Send(Packet::Error { code, .. }) => assert_eq!(code, ERROR_ILLEGAL_OPERATION),
        _ => panic!("expected an error reply"),
    }
    assert!(matches!(t.status, Status::Failed(TransferError::ProtocolViolation)));
}

#[test]
fn get_block_numbers_wrap_after_65535() {
    let mut t = GetTransfer::new(None);
    let mut frame = data_frame(1, vec![0u8; 512]);
    // The block number lives in bytes 2 and 3 of the frame; patch it in
    // place instead of re-encoding 65537 packets.
    let mut n: u32 = 1;
    loop {
        let block = (n % 65536) as u16;
        frame[2] = (block >> 8) as u8;
        frame[3] = (block & 0xff) as u8;
        match t.on_frame(&frame) {
            Action::Send(Packet::Ack { block: acked }) => assert_eq!(acked, block),
            _ => panic!("expected an acknowledgment"),
        }
        if n == 65535 {
            assert_eq!(t.expected, 0, "numbering continues at 0 after 65535");
        }
        if n == 65537 {
            break;
        }
        n += 1;
    }
    assert_eq!(t.expected, 2);
    assert!(matches!(t.status, Status::Active));
    assert_eq!(t.output.len(), 65537 * 512);
}

#[test]
fn put_block_numbers_wrap_after_65535() {
    // 65536 full blocks and one final short block.
    let total: usize = 65536 * 512 + 3;
    let mut t = PutTransfer::new(vec![8u8; total], None);
    let mut ack = ack_frame(1);
    let mut n: u32 = 1;
    loop {
        let block = (n % 65536) as u16;
        ack[2] = (block >> 8) as u8;
        ack[3] = (block & 0xff) as u8;
        match t.on_frame(&ack) {
            Action::Send(Packet::Data { block: sent, payload }) => {
                let next = ((n + 1) % 65536) as u16;
                assert_eq!(sent, next);
                if n == 65535 {
                    assert_eq!(sent, 0, "numbering continues at 0 after 65535");
                }
                if n == 65536 {
                    assert_eq!(payload, vec![8u8; 3]);
                } else {
                    assert_eq!(payload.len(), 512);
                }
            }
            Action::Nothing => {
                assert_eq!(n, 65537);
                break;
            }
            _ => panic!("expected the next Data block"),
        }
        n += 1;
    }
    assert!(matches!(t.status, Status::Complete));
}
