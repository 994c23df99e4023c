//! The connection engine: a lock-step state machine that drives one file
//! transfer (get or put) to completion or failure.
//!
//! The engine owns no socket. Each call hands it one network event — a
//! received UDP payload ([`GetTransfer::on_frame`], [`PutTransfer::on_frame`])
//! or the expiry of the receive timeout ([`GetTransfer::on_timeout`],
//! [`PutTransfer::on_timeout`]) — and it answers with the packet to send, if
//! any. The caller performs the sends and receives and stops as soon as the
//! engine reaches a terminal status. Every step is proved equal to a
//! mathematical transition function on the engine's model, so the protocol
//! rules (in-order delivery, duplicate suppression, bounded retransmission,
//! block-number wraparound) are stated and checked once, on the model.

use vstd::prelude::*;

use crate::packet::{
    spec_decode, decode, Packet, PacketModel, MAX_PAYLOAD_SIZE,
};

verus! {

/// Smallest port number a freshly chosen Transfer ID may use; everything
/// below is reserved for well-known services.
pub const MIN_PORT_NUMBER: u16 = 1025;

/// TFTP error code: illegal TFTP operation.
pub const ERROR_ILLEGAL_OPERATION: u16 = 4;

/// TFTP error code: file not found.
pub const ERROR_FILE_NOT_FOUND: u16 = 1;

/// Why a transfer failed.
pub enum TransferError {
    /// The retransmission budget ran out with no response.
    Timeout,
    /// The peer sent an Error packet; its code and message are kept verbatim.
    RemoteError { code: u16, message: Vec<u8> },
    /// A structurally valid but contextually unexpected packet arrived, or
    /// an inbound frame did not parse.
    ProtocolViolation,
    /// The local source or sink failed (reported by the embedding code).
    LocalIO,
}

/// Mathematical model of [`TransferError`].
pub enum TransferErrorModel {
    Timeout,
    RemoteError { code: u16, message: Seq<u8> },
    ProtocolViolation,
    LocalIO,
}

impl View for TransferError {
    type V = TransferErrorModel;

    open spec fn view(&self) -> TransferErrorModel {
        match self {
            TransferError::Timeout => TransferErrorModel::Timeout,
            TransferError::RemoteError { code, message } => TransferErrorModel::RemoteError {
                code: *code,
                message: message@,
            },
            TransferError::ProtocolViolation => TransferErrorModel::ProtocolViolation,
            TransferError::LocalIO => TransferErrorModel::LocalIO,
        }
    }
}

/// Where a transfer stands.
pub enum Status {
    /// Mid-transfer; the engine expects another event.
    Active,
    /// The transfer finished; no further packet is sent.
    Complete,
    /// The transfer failed; no further packet is sent.
    Failed(TransferError),
}

/// Mathematical model of [`Status`].
pub enum StatusModel {
    Active,
    Complete,
    Failed(TransferErrorModel),
}

impl View for Status {
    type V = StatusModel;

    open spec fn view(&self) -> StatusModel {
        match self {
            Status::Active => StatusModel::Active,
            Status::Complete => StatusModel::Complete,
            Status::Failed(e) => StatusModel::Failed(e@),
        }
    }
}

/// What the caller must do after handing the engine an event.
pub enum Action {
    /// Encode and send this packet to the peer.
    Send(Packet),
    /// Send nothing; wait for the next event (or stop, if the status is
    /// terminal).
    Nothing,
}

/// Mathematical model of [`Action`].
pub enum ActionModel {
    Send(PacketModel),
    Nothing,
}

impl View for Action {
    type V = ActionModel;

    open spec fn view(&self) -> ActionModel {
        match self {
            Action::Send(p) => ActionModel::Send(p@),
            Action::Nothing => ActionModel::Nothing,
        }
    }
}

/// The next block number: after 65535 numbering continues at 0.
pub open spec fn wrap_inc(b: u16) -> u16 {
    if b == 65535 {
        0
    } else {
        (b + 1) as u16
    }
}

/// The previous block number, wrapping below 0 to 65535.
pub open spec fn wrap_dec(b: u16) -> u16 {
    if b == 0 {
        65535
    } else {
        (b - 1) as u16
    }
}

/// The bytes of the text `"illegal operation"`.
pub open spec fn illegal_operation_message() -> Seq<u8> {
    seq![
        105u8, 108u8, 108u8, 101u8, 103u8, 97u8, 108u8, 32u8, 111u8, 112u8, 101u8, 114u8, 97u8,
        116u8, 105u8, 111u8, 110u8,
    ]
}

/// The Error packet the engine answers with when an inbound frame is
/// malformed or contextually impossible.
pub open spec fn illegal_operation_model() -> PacketModel {
    PacketModel::Error { code: ERROR_ILLEGAL_OPERATION, message: illegal_operation_message() }
}

/// Builds the illegal-operation Error reply.
pub fn illegal_operation_packet() -> (p: Packet)
    ensures
        p@ == illegal_operation_model(),
        p@.wf(),
{
    let message: Vec<u8> = vec![
        105u8, 108u8, 108u8, 101u8, 103u8, 97u8, 108u8, 32u8, 111u8, 112u8, 101u8, 114u8, 97u8,
        116u8, 105u8, 111u8, 110u8,
    ];
    proof {
        assert(message@ =~= illegal_operation_message());
    }
    Packet::Error { code: ERROR_ILLEGAL_OPERATION, message }
}

/// Mathematical model of a download in progress.
pub struct GetModel {
    /// The block number the engine will accept next (1-based, wrapping).
    pub expected: u16,
    /// Every payload byte accepted so far, in order.
    pub output: Seq<u8>,
    /// Retransmissions allowed per wait; `None` means unbounded.
    pub max_retransmissions: Option<u32>,
    /// Retransmissions already spent on the current wait.
    pub retries: u32,
    /// Where the transfer stands.
    pub status: StatusModel,
}

impl GetModel {
    /// Internal invariant: the retry budget is never overdrawn.
    pub open spec fn wf(self) -> bool {
        self.max_retransmissions matches Some(m) ==> self.retries <= m
    }
}

/// The transition of a download on a received UDP payload.
///
/// The expected Data block is appended and acknowledged, and a short
/// payload completes the transfer; any other Data block is answered by
/// re-acknowledging the last accepted block without touching the output; an
/// Error packet fails the transfer with the peer's reason; anything else —
/// a malformed frame or a packet kind a downloader cannot receive — fails
/// it as a protocol violation, answered with an Error reply.
pub open spec fn spec_get_on_frame(s: GetModel, frame: Seq<u8>) -> (GetModel, ActionModel) {
    match spec_decode(frame) {
        None => (
            GetModel { status: StatusModel::Failed(TransferErrorModel::ProtocolViolation), ..s },
            ActionModel::Send(illegal_operation_model()),
        ),
        Some(p) => match p {
            PacketModel::Data { block, payload } => {
                if block == s.expected {
                    (
                        GetModel {
                            expected: wrap_inc(s.expected),
                            output: s.output + payload,
                            retries: 0,
                            status: if payload.len() < MAX_PAYLOAD_SIZE {
                                StatusModel::Complete
                            } else {
                                StatusModel::Active
                            },
                            ..s
                        },
                        ActionModel::Send(PacketModel::Ack { block }),
                    )
                } else {
                    (s, ActionModel::Send(PacketModel::Ack { block: wrap_dec(s.expected) }))
                }
            },
            PacketModel::Error { code, message } => (
                GetModel {
                    status: StatusModel::Failed(TransferErrorModel::RemoteError { code, message }),
                    ..s
                },
                ActionModel::Nothing,
            ),
            _ => (
                GetModel {
                    status: StatusModel::Failed(TransferErrorModel::ProtocolViolation),
                    ..s
                },
                ActionModel::Send(illegal_operation_model()),
            ),
        },
    }
}

/// The transition of a download on a receive timeout: while budget remains
/// the acknowledgment of the last accepted block is sent again, otherwise
/// the transfer fails. Before any block has arrived that is ACK(0), the
/// acknowledgment that accepted the peer's write request.
pub open spec fn spec_get_on_timeout(s: GetModel) -> (GetModel, ActionModel) {
    match s.max_retransmissions {
        None => (s, ActionModel::Send(PacketModel::Ack { block: wrap_dec(s.expected) })),
        Some(m) => if s.retries < m {
            (
                GetModel { retries: (s.retries + 1) as u32, ..s },
                ActionModel::Send(PacketModel::Ack { block: wrap_dec(s.expected) }),
            )
        } else {
            (GetModel { status: StatusModel::Failed(TransferErrorModel::Timeout), ..s },
            ActionModel::Nothing)
        },
    }
}

/// A download in progress: receives Data blocks, acknowledges them, and
/// accumulates their payloads.
pub struct GetTransfer {
    /// The block number the engine will accept next.
    pub expected: u16,
    /// Every payload byte accepted so far, in order.
    pub output: Vec<u8>,
    /// Retransmissions allowed per wait; `None` means unbounded.
    pub max_retransmissions: Option<u32>,
    /// Retransmissions already spent on the current wait.
    pub retries: u32,
    /// Where the transfer stands.
    pub status: Status,
}

impl View for GetTransfer {
    type V = GetModel;

    open spec fn view(&self) -> GetModel {
        GetModel {
            expected: self.expected,
            output: self.output@,
            max_retransmissions: self.max_retransmissions,
            retries: self.retries,
            status: self.status@,
        }
    }
}

impl GetTransfer {
    /// Starts a download: the triggering read request was already sent by
    /// the caller, so the engine awaits Data block 1.
    pub fn new(max_retransmissions: Option<u32>) -> (r: Self)
        ensures
            r@ == (GetModel {
                expected: 1u16,
                output: Seq::<u8>::empty(),
                max_retransmissions,
                retries: 0u32,
                status: StatusModel::Active,
            }),
            r@.wf(),
    {
        let r = GetTransfer {
            expected: 1,
            output: Vec::new(),
            max_retransmissions,
            retries: 0,
            status: Status::Active,
        };
        proof {
            assert(r@.output =~= Seq::<u8>::empty());
        }
        r
    }

    /// Feeds the engine one received UDP payload.
    pub fn on_frame(&mut self, frame: &Vec<u8>) -> (a: Action)
        requires
            old(self)@.status is Active,
            old(self)@.wf(),
        ensures
            final(self)@ == spec_get_on_frame(old(self)@, frame@).0,
            a@ == spec_get_on_frame(old(self)@, frame@).1,
            final(self)@.wf(),
    {
        match decode(frame) {
            Err(_) => {
                self.status = Status::Failed(TransferError::ProtocolViolation);
                Action::Send(illegal_operation_packet())
            }
            Ok(p) => match p {
                Packet::Data { block, payload } => {
                    if block == self.expected {
                        let is_final = payload.len() < MAX_PAYLOAD_SIZE;
                        let mut payload = payload;
                        self.output.append(&mut payload);
                        self.expected = if self.expected == 65535 {
                            0
                        } else {
                            self.expected + 1
                        };
                        self.retries = 0;
                        if is_final {
                            self.status = Status::Complete;
                        }
                        Action::Send(Packet::Ack { block })
                    } else {
                        let last = if self.expected == 0 {
                            65535
                        } else {
                            self.expected - 1
                        };
                        Action::Send(Packet::Ack { block: last })
                    }
                }
                Packet::Error { code, message } => {
                    self.status = Status::Failed(TransferError::RemoteError { code, message });
                    Action::Nothing
                }
                _ => {
                    self.status = Status::Failed(TransferError::ProtocolViolation);
                    Action::Send(illegal_operation_packet())
                }
            },
        }
    }

    /// Tells the engine that the receive timeout expired with nothing
    /// received.
    pub fn on_timeout(&mut self) -> (a: Action)
        requires
            old(self)@.status is Active,
            old(self)@.wf(),
        ensures
            final(self)@ == spec_get_on_timeout(old(self)@).0,
            a@ == spec_get_on_timeout(old(self)@).1,
            final(self)@.wf(),
    {
        let resend: bool = match self.max_retransmissions {
            None => true,
            Some(m) => self.retries < m,
        };
        if resend {
            if let Some(_) = self.max_retransmissions {
                self.retries = self.retries + 1;
            }
            let last = if self.expected == 0 {
                65535
            } else {
                self.expected - 1
            };
            Action::Send(Packet::Ack { block: last })
        } else {
            self.status = Status::Failed(TransferError::Timeout);
            Action::Nothing
        }
    }

    /// Hands the accumulated file contents out once the transfer completed.
    pub fn into_output(self) -> (r: Vec<u8>)
        requires
            self@.status is Complete,
        ensures
            r@ == self@.output,
    {
        self.output
    }
}

/// The bytes of the Data block that starts at `offset`: up to 512 bytes.
pub open spec fn chunk_at(data: Seq<u8>, offset: int) -> Seq<u8>
    recommends
        0 <= offset <= data.len(),
{
    if offset + MAX_PAYLOAD_SIZE <= data.len() {
        data.subrange(offset, offset + MAX_PAYLOAD_SIZE)
    } else {
        data.subrange(offset, data.len() as int)
    }
}

/// The block at `offset` is the last one iff fewer than 512 bytes remain
/// (so an exact multiple of 512 ends with an empty final block).
pub open spec fn final_at(data: Seq<u8>, offset: int) -> bool {
    data.len() - offset < MAX_PAYLOAD_SIZE
}

/// Mathematical model of an upload in progress.
pub struct PutModel {
    /// The whole local source.
    pub data: Seq<u8>,
    /// Where the current (not yet acknowledged) block starts in `data`.
    pub offset: int,
    /// The current block's number (1-based, wrapping).
    pub block: u16,
    /// Retransmissions allowed per wait; `None` means unbounded.
    pub max_retransmissions: Option<u32>,
    /// Retransmissions already spent on the current wait.
    pub retries: u32,
    /// Where the transfer stands.
    pub status: StatusModel,
}

impl PutModel {
    /// Internal invariant: the current block starts inside the source and
    /// the retry budget is never overdrawn.
    pub open spec fn wf(self) -> bool {
        &&& 0 <= self.offset <= self.data.len()
        &&& (self.max_retransmissions matches Some(m) ==> self.retries <= m)
    }

    /// The Data packet for the current block.
    pub open spec fn current_packet_model(self) -> PacketModel {
        PacketModel::Data { block: self.block, payload: chunk_at(self.data, self.offset) }
    }
}

/// The transition of an upload on a received UDP payload.
///
/// The acknowledgment of the current block either completes the transfer
/// (when that block was short) or moves to the next block and sends it; a
/// stale or duplicate acknowledgment is ignored, recovery being left to the
/// timeout path; an Error packet fails the transfer with the peer's reason;
/// anything else fails it as a protocol violation, answered with an Error
/// reply.
pub open spec fn spec_put_on_frame(s: PutModel, frame: Seq<u8>) -> (PutModel, ActionModel) {
    match spec_decode(frame) {
        None => (
            PutModel { status: StatusModel::Failed(TransferErrorModel::ProtocolViolation), ..s },
            ActionModel::Send(illegal_operation_model()),
        ),
        Some(p) => match p {
            PacketModel::Ack { block } => {
                if block == s.block {
                    if final_at(s.data, s.offset) {
                        (PutModel { status: StatusModel::Complete, ..s }, ActionModel::Nothing)
                    } else {
                        let next = PutModel {
                            offset: s.offset + MAX_PAYLOAD_SIZE,
                            block: wrap_inc(s.block),
                            retries: 0,
                            ..s
                        };
                        (next, ActionModel::Send(next.current_packet_model()))
                    }
                } else {
                    (s, ActionModel::Nothing)
                }
            },
            PacketModel::Error { code, message } => (
                PutModel {
                    status: StatusModel::Failed(TransferErrorModel::RemoteError { code, message }),
                    ..s
                },
                ActionModel::Nothing,
            ),
            _ => (
                PutModel {
                    status: StatusModel::Failed(TransferErrorModel::ProtocolViolation),
                    ..s
                },
                ActionModel::Send(illegal_operation_model()),
            ),
        },
    }
}

/// The transition of an upload on a receive timeout: while budget remains
/// the current Data block is sent again unchanged, otherwise the transfer
/// fails.
pub open spec fn spec_put_on_timeout(s: PutModel) -> (PutModel, ActionModel) {
    match s.max_retransmissions {
        None => (s, ActionModel::Send(s.current_packet_model())),
        Some(m) => if s.retries < m {
            (
                PutModel { retries: (s.retries + 1) as u32, ..s },
                ActionModel::Send(s.current_packet_model()),
            )
        } else {
            (PutModel { status: StatusModel::Failed(TransferErrorModel::Timeout), ..s },
            ActionModel::Nothing)
        },
    }
}

/// An upload in progress: sends Data blocks and awaits each one's
/// acknowledgment before moving to the next.
pub struct PutTransfer {
    /// The whole local source.
    pub data: Vec<u8>,
    /// Where the current (not yet acknowledged) block starts in `data`.
    pub offset: usize,
    /// The current block's number.
    pub block: u16,
    /// Retransmissions allowed per wait; `None` means unbounded.
    pub max_retransmissions: Option<u32>,
    /// Retransmissions already spent on the current wait.
    pub retries: u32,
    /// Where the transfer stands.
    pub status: Status,
}

impl View for PutTransfer {
    type V = PutModel;

    open spec fn view(&self) -> PutModel {
        PutModel {
            data: self.data@,
            offset: self.offset as int,
            block: self.block,
            max_retransmissions: self.max_retransmissions,
            retries: self.retries,
            status: self.status@,
        }
    }
}

impl PutTransfer {
    /// Starts an upload of `data`: the triggering write request was already
    /// sent and its acknowledgment consumed by the caller, so the engine's
    /// first packet is Data block 1 (see [`Self::current_packet`]).
    pub fn new(data: Vec<u8>, max_retransmissions: Option<u32>) -> (r: Self)
        ensures
            r@ == (PutModel {
                data: data@,
                offset: 0int,
                block: 1u16,
                max_retransmissions,
                retries: 0u32,
                status: StatusModel::Active,
            }),
            r@.wf(),
    {
        PutTransfer {
            data,
            offset: 0,
            block: 1,
            max_retransmissions,
            retries: 0,
            status: Status::Active,
        }
    }

    /// The Data packet for the current block: sent once when the block
    /// becomes current, and again on each retransmission.
    pub fn current_packet(&self) -> (p: Packet)
        requires
            self@.wf(),
        ensures
            p@ == self@.current_packet_model(),
            p@.wf(),
    {
        let end: usize = if self.data.len() - self.offset >= MAX_PAYLOAD_SIZE {
            self.offset + MAX_PAYLOAD_SIZE
        } else {
            self.data.len()
        };
        let mut payload: Vec<u8> = Vec::new();
        let mut i: usize = self.offset;
        while i < end
            invariant
                self.offset <= i <= end <= self.data.len(),
                payload@ == self.data@.subrange(self.offset as int, i as int),
            decreases end - i,
        {
            payload.push(self.data[i]);
            i += 1;
            proof {
                assert(payload@ =~= self.data@.subrange(self.offset as int, i as int));
            }
        }
        proof {
            assert(payload@ =~= chunk_at(self.data@, self.offset as int));
        }
        Packet::Data { block: self.block, payload }
    }

    /// Feeds the engine one received UDP payload.
    pub fn on_frame(&mut self, frame: &Vec<u8>) -> (a: Action)
        requires
            old(self)@.status is Active,
            old(self)@.wf(),
        ensures
            final(self)@ == spec_put_on_frame(old(self)@, frame@).0,
            a@ == spec_put_on_frame(old(self)@, frame@).1,
            final(self)@.wf(),
    {
        match decode(frame) {
            Err(_) => {
                self.status = Status::Failed(TransferError::ProtocolViolation);
                Action::Send(illegal_operation_packet())
            }
            Ok(p) => match p {
                Packet::Ack { block } => {
                    if block == self.block {
                        if self.data.len() - self.offset < MAX_PAYLOAD_SIZE {
                            self.status = Status::Complete;
                            Action::Nothing
                        } else {
                            self.offset = self.offset + MAX_PAYLOAD_SIZE;
                            self.block = if self.block == 65535 {
                                0
                            } else {
                                self.block + 1
                            };
                            self.retries = 0;
                            Action::Send(self.current_packet())
                        }
                    } else {
                        Action::Nothing
                    }
                }
                Packet::Error { code, message } => {
                    self.status = Status::Failed(TransferError::RemoteError { code, message });
                    Action::Nothing
                }
                _ => {
                    self.status = Status::Failed(TransferError::ProtocolViolation);
                    Action::Send(illegal_operation_packet())
                }
            },
        }
    }

    /// Tells the engine that the receive timeout expired with nothing
    /// received.
    pub fn on_timeout(&mut self) -> (a: Action)
        requires
            old(self)@.status is Active,
            old(self)@.wf(),
        ensures
            final(self)@ == spec_put_on_timeout(old(self)@).0,
            a@ == spec_put_on_timeout(old(self)@).1,
            final(self)@.wf(),
    {
        let resend: bool = match self.max_retransmissions {
            None => true,
            Some(m) => self.retries < m,
        };
        if resend {
            if let Some(_) = self.max_retransmissions {
                self.retries = self.retries + 1;
            }
            Action::Send(self.current_packet())
        } else {
            self.status = Status::Failed(TransferError::Timeout);
            Action::Nothing
        }
    }
}

/// Duplicate-suppression law for downloads: when the same Data block
/// arrives twice in a row, its payload enters the output exactly once, and
/// an acknowledgment for it is sent both times. (Stated for a block that
/// does not end the transfer; a short block completes it on first receipt
/// and the engine is not stepped again.)
pub proof fn lemma_get_duplicate_data(s: GetModel, frame: Seq<u8>, block: u16, payload: Seq<u8>)
    requires
        s.status is Active,
        spec_decode(frame) == Some(PacketModel::Data { block, payload }),
        block == s.expected,
        payload.len() == MAX_PAYLOAD_SIZE,
    ensures
        spec_get_on_frame(s, frame).0.output == s.output + payload,
        spec_get_on_frame(spec_get_on_frame(s, frame).0, frame).0.output == s.output + payload,
        spec_get_on_frame(s, frame).1 == ActionModel::Send(PacketModel::Ack { block }),
        spec_get_on_frame(spec_get_on_frame(s, frame).0, frame).1 == ActionModel::Send(
            PacketModel::Ack { block },
        ),
{
    let s1 = spec_get_on_frame(s, frame).0;
    assert(s1.expected == wrap_inc(s.expected));
    assert(wrap_inc(s.expected) != s.expected);
    assert(wrap_dec(wrap_inc(s.expected)) == s.expected);
}

/// `n` applications of the upload timeout transition.
pub open spec fn iter_put_timeouts(s: PutModel, n: nat) -> PutModel
    decreases n,
{
    if n == 0 {
        s
    } else {
        spec_put_on_timeout(iter_put_timeouts(s, (n - 1) as nat)).0
    }
}

/// Retry-bound law for uploads: from a freshly sent block with a budget of
/// `m` retransmissions, each of the first `m` timeouts sends the current
/// Data block again unchanged, and the timeout after that fails the
/// transfer with `Timeout` and sends nothing — so the block goes out
/// exactly `m + 1` times (the initial send plus `m` retransmissions).
pub proof fn lemma_put_retry_bound(s: PutModel, m: u32, n: nat)
    requires
        s.status is Active,
        s.max_retransmissions == Some(m),
        s.retries == 0,
        n <= m,
    ensures
        iter_put_timeouts(s, n) == (PutModel { retries: n as u32, ..s }),
        n < m ==> spec_put_on_timeout(iter_put_timeouts(s, n)).1 == ActionModel::Send(
            s.current_packet_model(),
        ),
        n == m ==> spec_put_on_timeout(iter_put_timeouts(s, n)).0.status == StatusModel::Failed(
            TransferErrorModel::Timeout,
        ),
        n == m ==> spec_put_on_timeout(iter_put_timeouts(s, n)).1 == ActionModel::Nothing,
    decreases n,
{
    if n > 0 {
        lemma_put_retry_bound(s, m, (n - 1) as nat);
    }
}

/// Final-block law for downloads: the expected Data block completes the
/// transfer exactly when its payload is shorter than 512 bytes — a full
/// 512-byte payload leaves the transfer running, and a 0-byte payload
/// (the final block of a file that is an exact multiple of 512) ends it.
pub proof fn lemma_get_final_block(s: GetModel, frame: Seq<u8>, block: u16, payload: Seq<u8>)
    requires
        s.status is Active,
        spec_decode(frame) == Some(PacketModel::Data { block, payload }),
        block == s.expected,
    ensures
        spec_get_on_frame(s, frame).0.status is Complete <==> payload.len() < MAX_PAYLOAD_SIZE,
        spec_get_on_frame(s, frame).0.status is Active <==> payload.len() == MAX_PAYLOAD_SIZE,
{
    assert(frame.len() <= 4 + MAX_PAYLOAD_SIZE);
    assert(payload =~= frame.subrange(4, frame.len() as int));
}

/// Final-block law for uploads: the acknowledgment of the current block
/// completes the transfer exactly when that block carried fewer than 512
/// bytes; otherwise the next block is sent.
pub proof fn lemma_put_final_block(s: PutModel, frame: Seq<u8>)
    requires
        s.status is Active,
        s.wf(),
        spec_decode(frame) == Some(PacketModel::Ack { block: s.block }),
    ensures
        spec_put_on_frame(s, frame).0.status is Complete <==> chunk_at(s.data, s.offset).len()
            < MAX_PAYLOAD_SIZE,
        spec_put_on_frame(s, frame).0.status is Active <==> chunk_at(s.data, s.offset).len()
            == MAX_PAYLOAD_SIZE,
{
}

/// Wraparound law for downloads: accepting block 65535 makes 0 the next
/// expected block number, and the transfer goes on.
pub proof fn lemma_get_wraparound(s: GetModel, frame: Seq<u8>, payload: Seq<u8>)
    requires
        s.status is Active,
        s.expected == 65535,
        spec_decode(frame) == Some(PacketModel::Data { block: 65535u16, payload }),
        payload.len() == MAX_PAYLOAD_SIZE,
    ensures
        spec_get_on_frame(s, frame).0.expected == 0,
        spec_get_on_frame(s, frame).0.status is Active,
        spec_get_on_frame(s, frame).1 == ActionModel::Send(PacketModel::Ack { block: 65535u16 }),
{
}

/// Wraparound law for uploads: when block 65535 is acknowledged and more
/// data remains, the next Data block goes out with number 0.
pub proof fn lemma_put_wraparound(s: PutModel, frame: Seq<u8>)
    requires
        s.status is Active,
        s.wf(),
        s.block == 65535,
        !final_at(s.data, s.offset),
        spec_decode(frame) == Some(PacketModel::Ack { block: 65535u16 }),
    ensures
        spec_put_on_frame(s, frame).0.block == 0,
        spec_put_on_frame(s, frame).0.status is Active,
        spec_put_on_frame(s, frame).1 == ActionModel::Send(
            PacketModel::Data {
                block: 0u16,
                payload: chunk_at(s.data, s.offset + MAX_PAYLOAD_SIZE),
            },
        ),
{
}

} // verus!
