use tftp::client::Builder;
use tftp::connection::{
    Action, GetTransfer, PutTransfer, Status, TransferError, ERROR_FILE_NOT_FOUND,
    MIN_PORT_NUMBER,
};
use tftp::packet::{encode, Packet};
use tftp::RetransmissionConfig;

#[test]
fn scenario_put_thousand_byte_file() {
    // A 1000-byte octet-mode upload: Data(1) carries 512 bytes, Data(2)
    // the remaining 488, and the transfer completes on the second
    // acknowledgment.
    let mut source = vec![1u8; 512];
    source.extend(vec![2u8; 488]);
    let mut t = PutTransfer::new(source, Some(5));
    match t.current_packet() {
        Packet::Data { block, payload } => {
            assert_eq!(block, 1);
            assert_eq!(payload, vec![1u8; 512]);
        }
        _ => panic!("the engine starts with Data block 1"),
    }
    match t.on_frame(&encode(&Packet::Ack { block: 1 })) {
        Action::Send(Packet::Data { block, payload }) => {
            assert_eq!(block, 2);
            assert_eq!(payload, vec![2u8; 488]);
        }
        _ => panic!("expected Data block 2"),
    }
    match t.on_frame(&encode(&Packet::Ack { block: 2 })) {
        Action::Nothing => {}
        _ => panic!("nothing follows the final acknowledgment"),
    }
    assert!(matches!(t.status, Status::Complete));
}

#[test]
fn scenario_get_empty_file() {
    // A 0-byte download: the server's Data(1) carries no bytes, the client
    // acknowledges it, and the transfer completes with an empty output.
    let mut t = GetTransfer::new(Some(5));
    match t.on_frame(&encode(&Packet::Data { block: 1, payload: Vec::new() })) {
        Action::Send(Packet::Ack { block }) => assert_eq!(block, 1),
        _ => panic!("expected the acknowledgment of block 1"),
    }
    assert!(matches!(t.status, Status::Complete));
    assert!(t.into_output().is_empty());
}

#[test]
fn scenario_get_file_not_found() {
    // The server answers the read request with an Error packet: the
    // download fails with the remote's code and message, verbatim, and no
    // Data block is exchanged.
    let mut t = GetTransfer::new(Some(5));
    let reply = encode(&Packet::Error {
        code: ERROR_FILE_NOT_FOUND,
        message: b"file not found".to_vec(),
    });
    match t.on_frame(&reply) {
        Action::Nothing => {}
        _ => panic!("a remote error is not answered"),
    }
    match &t.status {
        Status::Failed(TransferError::RemoteError { code, message }) => {
            assert_eq!(*code, ERROR_FILE_NOT_FOUND);
            assert_eq!(message, &b"file not found".to_vec());
        }
        _ => panic!("expected the remote error to surface"),
    }
    assert!(t.output.is_empty());
}

#[test]
fn builder_chooses_ephemeral_port() {
    let b = Builder::new(None);
    assert!(b.port >= MIN_PORT_NUMBER);
    assert!(b.port < u16::MAX);
    assert!(b.retransmission_config.is_none());
}

#[test]
fn builder_try_clone_keeps_policy() {
    let config = RetransmissionConfig { timeout_millis: 250, max_retransmissions: Some(4) };
    let b = Builder::new(Some(config));
    let c = b.try_clone();
    assert!(c.port >= MIN_PORT_NUMBER);
    assert!(c.port < u16::MAX);
    let kept = c.retransmission_config.expect("the policy is kept");
    assert_eq!(kept.timeout_millis, 250);
    assert_eq!(kept.max_retransmissions, Some(4));
}
