//! The TFTP wire codec: the five packet kinds and their byte-exact UDP
//! payload representation, with encoding and decoding proved to be mutual
//! inverses.

use vstd::prelude::*;

verus! {

/// Largest number of file bytes one Data packet may carry.
pub const MAX_PAYLOAD_SIZE: usize = 512;

/// Largest wire size of any packet: a full Data packet
/// (2-byte opcode + 2-byte block number + 512 payload bytes).
pub const MAX_PACKET_SIZE: usize = 516;

/// TFTP transfer mode: `netascii` translates line endings at the boundary
/// with the local source or sink, `octet` carries raw bytes.
#[derive(Clone, Copy, PartialEq, Eq, Structural, Debug)]
pub enum Mode {
    Netascii,
    Octet,
}

/// Mathematical model of a packet: the same five variants over `Seq<u8>`.
pub enum PacketModel {
    Rrq { filename: Seq<u8>, mode: Mode },
    Wrq { filename: Seq<u8>, mode: Mode },
    Data { block: u16, payload: Seq<u8> },
    Ack { block: u16 },
    Error { code: u16, message: Seq<u8> },
}

/// One TFTP message. Text fields are byte strings because the wire format
/// is C-style null-terminated bytes; a filename or error message therefore
/// may not contain a 0 byte (see [`PacketModel::wf`]).
pub enum Packet {
    /// Client asks to download `filename`.
    Rrq { filename: Vec<u8>, mode: Mode },
    /// Client asks to upload `filename`.
    Wrq { filename: Vec<u8>, mode: Mode },
    /// One transfer unit; a payload shorter than 512 bytes marks the end.
    Data { block: u16, payload: Vec<u8> },
    /// Confirms receipt of the data block with that number.
    Ack { block: u16 },
    /// Terminates the transfer with a reason.
    Error { code: u16, message: Vec<u8> },
}

impl View for Packet {
    type V = PacketModel;

    open spec fn view(&self) -> PacketModel {
        match self {
            Packet::Rrq { filename, mode } => PacketModel::Rrq { filename: filename@, mode: *mode },
            Packet::Wrq { filename, mode } => PacketModel::Wrq { filename: filename@, mode: *mode },
            Packet::Data { block, payload } => PacketModel::Data { block: *block, payload: payload@ },
            Packet::Ack { block } => PacketModel::Ack { block: *block },
            Packet::Error { code, message } => PacketModel::Error { code: *code, message: message@ },
        }
    }
}

/// The bytes of the mode string `"netascii"`.
pub open spec fn netascii_mode_bytes() -> Seq<u8> {
    seq![110u8, 101u8, 116u8, 97u8, 115u8, 99u8, 105u8, 105u8]
}

/// The bytes of the mode string `"octet"`.
pub open spec fn octet_mode_bytes() -> Seq<u8> {
    seq![111u8, 99u8, 116u8, 101u8, 116u8]
}

/// The wire bytes of a mode string.
pub open spec fn mode_bytes(m: Mode) -> Seq<u8> {
    match m {
        Mode::Netascii => netascii_mode_bytes(),
        Mode::Octet => octet_mode_bytes(),
    }
}

/// A byte string is fit for a null-terminated wire field iff it holds no 0 byte.
pub open spec fn zero_free(s: Seq<u8>) -> bool {
    forall|i: int| 0 <= i < s.len() ==> s[i] != 0
}

impl PacketModel {
    /// Well-formed packets: exactly those that have a wire representation.
    pub open spec fn wf(self) -> bool {
        match self {
            PacketModel::Rrq { filename, .. } => zero_free(filename),
            PacketModel::Wrq { filename, .. } => zero_free(filename),
            PacketModel::Data { payload, .. } => payload.len() <= MAX_PAYLOAD_SIZE,
            PacketModel::Ack { .. } => true,
            PacketModel::Error { message, .. } => zero_free(message),
        }
    }
}

/// Big-endian bytes of a 16-bit integer.
pub open spec fn be16(x: u16) -> Seq<u8> {
    seq![((x as int) / 256) as u8, ((x as int) % 256) as u8]
}

/// The exact UDP payload of a packet (meaningful for well-formed packets).
pub open spec fn spec_encode(p: PacketModel) -> Seq<u8> {
    match p {
        PacketModel::Rrq { filename, mode } =>
            seq![0u8, 1u8] + filename + seq![0u8] + mode_bytes(mode) + seq![0u8],
        PacketModel::Wrq { filename, mode } =>
            seq![0u8, 2u8] + filename + seq![0u8] + mode_bytes(mode) + seq![0u8],
        PacketModel::Data { block, payload } => seq![0u8, 3u8] + be16(block) + payload,
        PacketModel::Ack { block } => seq![0u8, 4u8] + be16(block),
        PacketModel::Error { code, message } => seq![0u8, 5u8] + be16(code) + message + seq![0u8],
    }
}

/// Serialises a well-formed packet to its exact wire bytes.
pub fn encode(p: &Packet) -> (r: Vec<u8>)
    requires
        p@.wf(),
    ensures
        r@ == spec_encode(p@),
{
    let mut out: Vec<u8> = Vec::new();
    match p {
        Packet::Rrq { filename, mode } => {
            out.push(0);
            out.push(1);
            push_all(&mut out, filename);
            out.push(0);
            push_mode(&mut out, *mode);
            out.push(0);
        }
        Packet::Wrq { filename, mode } => {
            out.push(0);
            out.push(2);
            push_all(&mut out, filename);
            out.push(0);
            push_mode(&mut out, *mode);
            out.push(0);
        }
        Packet::Data { block, payload } => {
            out.push(0);
            out.push(3);
            push_be16(&mut out, *block);
            push_all(&mut out, payload);
        }
        Packet::Ack { block } => {
            out.push(0);
            out.push(4);
            push_be16(&mut out, *block);
        }
        Packet::Error { code, message } => {
            out.push(0);
            out.push(5);
            push_be16(&mut out, *code);
            push_all(&mut out, message);
            out.push(0);
        }
    }
    proof {
        assert(out@ =~= spec_encode(p@));
    }
    out
}

/// Appends every byte of `src` to `out`.
fn push_all(out: &mut Vec<u8>, src: &Vec<u8>)
    ensures
        final(out)@ == old(out)@ + src@,
{
    let mut i: usize = 0;
    while i < src.len()
        invariant
            i <= src.len(),
            out@ == old(out)@ + src@.subrange(0, i as int),
        decreases src.len() - i,
    {
        out.push(src[i]);
        i += 1;
        proof {
            assert(out@ =~= old(out)@ + src@.subrange(0, i as int));
        }
    }
    proof {
        assert(out@ =~= old(out)@ + src@);
    }
}

/// Appends the two big-endian bytes of `x` to `out`.
fn push_be16(out: &mut Vec<u8>, x: u16)
    ensures
        final(out)@ == old(out)@ + be16(x),
{
    out.push((x / 256) as u8);
    out.push((x % 256) as u8);
    proof {
        assert(out@ =~= old(out)@ + be16(x));
    }
}

/// Appends the wire bytes of the mode string to `out`.
fn push_mode(out: &mut Vec<u8>, m: Mode)
    ensures
        final(out)@ == old(out)@ + mode_bytes(m),
{
    match m {
        Mode::Netascii => {
            out.push(110);
            out.push(101);
            out.push(116);
            out.push(97);
            out.push(115);
            out.push(99);
            out.push(105);
            out.push(105);
        }
        Mode::Octet => {
            out.push(111);
            out.push(99);
            out.push(116);
            out.push(101);
            out.push(116);
        }
    }
    proof {
        assert(out@ =~= old(out)@ + mode_bytes(m));
    }
}

/// Index of the first 0 byte of `s`, if any.
pub open spec fn find_zero(s: Seq<u8>) -> Option<int>
    decreases s.len(),
{
    if s.len() == 0 {
        None
    } else if s[0] == 0 {
        Some(0)
    } else {
        match find_zero(s.drop_first()) {
            None => None,
            Some(i) => Some(i + 1),
        }
    }
}

/// What `find_zero` returns: the index of a 0 byte with none before it,
/// or `None` when the string is zero-free.
pub proof fn lemma_find_zero_some(s: Seq<u8>, i: int)
    requires
        find_zero(s) == Some(i),
    ensures
        0 <= i < s.len(),
        s[i] == 0,
        forall|j: int| 0 <= j < i ==> s[j] != 0,
    decreases s.len(),
{
    if s.len() > 0 && s[0] != 0 {
        lemma_find_zero_some(s.drop_first(), i - 1);
        assert forall|j: int| 0 <= j < i implies s[j] != 0 by {
            if j > 0 {
                assert(s.drop_first()[j - 1] != 0);
            }
        }
    }
}

/// The converse: a 0 byte preceded only by non-zero bytes is the first zero.
pub proof fn lemma_find_zero_at(s: Seq<u8>, i: int)
    requires
        0 <= i < s.len(),
        s[i] == 0,
        forall|j: int| 0 <= j < i ==> s[j] != 0,
    ensures
        find_zero(s) == Some(i),
    decreases s.len(),
{
    if i > 0 {
        assert forall|j: int| 0 <= j < i - 1 implies s.drop_first()[j] != 0 by {
            assert(s[j + 1] != 0);
        }
        assert(s.drop_first()[i - 1] == 0);
        lemma_find_zero_at(s.drop_first(), i - 1);
    }
}

/// Decodes the tail of a request frame (everything after the opcode):
/// `filename ++ [0] ++ mode-string ++ [0]`, with nothing following.
pub open spec fn spec_decode_request(b: Seq<u8>) -> Option<(Seq<u8>, Mode)> {
    match find_zero(b) {
        None => None,
        Some(i) => {
            let filename = b.subrange(0, i);
            let rest = b.subrange(i + 1, b.len() as int);
            if rest == netascii_mode_bytes() + seq![0u8] {
                Some((filename, Mode::Netascii))
            } else if rest == octet_mode_bytes() + seq![0u8] {
                Some((filename, Mode::Octet))
            } else {
                None
            }
        }
    }
}

/// The 16-bit opcode of a frame (meaningful when the frame has two bytes).
pub open spec fn spec_opcode(b: Seq<u8>) -> int {
    (b[0] as int) * 256 + (b[1] as int)
}

/// The packet a byte sequence represents, or `None` when it is malformed:
/// too short for its opcode, an unrecognised opcode or mode string, a
/// missing terminator, trailing bytes after a terminated field, or a Data
/// payload longer than 512 bytes.
pub open spec fn spec_decode(b: Seq<u8>) -> Option<PacketModel> {
    if b.len() < 2 {
        None
    } else {
        let op = spec_opcode(b);
        if op == 1 {
            match spec_decode_request(b.subrange(2, b.len() as int)) {
                None => None,
                Some((filename, mode)) => Some(PacketModel::Rrq { filename, mode }),
            }
        } else if op == 2 {
            match spec_decode_request(b.subrange(2, b.len() as int)) {
                None => None,
                Some((filename, mode)) => Some(PacketModel::Wrq { filename, mode }),
            }
        } else if op == 3 {
            if b.len() < 4 || b.len() > 4 + MAX_PAYLOAD_SIZE {
                None
            } else {
                Some(PacketModel::Data {
                    block: ((b[2] as int) * 256 + (b[3] as int)) as u16,
                    payload: b.subrange(4, b.len() as int),
                })
            }
        } else if op == 4 {
            if b.len() == 4 {
                Some(PacketModel::Ack { block: ((b[2] as int) * 256 + (b[3] as int)) as u16 })
            } else {
                None
            }
        } else if op == 5 {
            if b.len() >= 5 && find_zero(b.subrange(4, b.len() as int)) == Some(b.len() - 5) {
                Some(PacketModel::Error {
                    code: ((b[2] as int) * 256 + (b[3] as int)) as u16,
                    message: b.subrange(4, b.len() - 1),
                })
            } else {
                None
            }
        } else {
            None
        }
    }
}

/// Round-trip law: decoding the encoding of any well-formed packet gives
/// that packet back.
pub proof fn lemma_round_trip(p: PacketModel)
    requires
        p.wf(),
    ensures
        spec_decode(spec_encode(p)) == Some(p),
{
    let b = spec_encode(p);
    match p {
        PacketModel::Rrq { filename, mode } => {
            lemma_request_round_trip(b, filename, mode, 1);
        }
        PacketModel::Wrq { filename, mode } => {
            lemma_request_round_trip(b, filename, mode, 2);
        }
        PacketModel::Data { block, payload } => {
            assert(b[0] == 0 && b[1] == 3);
            assert(spec_opcode(b) == 3);
            lemma_be16_round_trip(block, b[2], b[3]);
            assert(b.subrange(4, b.len() as int) =~= payload);
        }
        PacketModel::Ack { block } => {
            assert(b[0] == 0 && b[1] == 4);
            assert(spec_opcode(b) == 4);
            lemma_be16_round_trip(block, b[2], b[3]);
        }
        PacketModel::Error { code, message } => {
            assert(b[0] == 0 && b[1] == 5);
            assert(spec_opcode(b) == 5);
            lemma_be16_round_trip(code, b[2], b[3]);
            let t = b.subrange(4, b.len() as int);
            assert(t =~= message + seq![0u8]);
            assert(t[message.len() as int] == 0);
            assert(forall|j: int| 0 <= j < message.len() ==> t[j] == message[j]);
            lemma_find_zero_at(t, message.len() as int);
            assert(b.subrange(4, b.len() - 1) =~= message);
        }
    }
}

/// The big-endian bytes of a 16-bit integer read back as that integer.
proof fn lemma_be16_round_trip(x: u16, hi: u8, lo: u8)
    requires
        hi == ((x as int) / 256) as u8,
        lo == ((x as int) % 256) as u8,
    ensures
        (hi as int) * 256 + (lo as int) == x,
{
    vstd::arithmetic::div_mod::lemma_fundamental_div_mod(x as int, 256);
}

/// Shared round-trip argument for the two request packets.
proof fn lemma_request_round_trip(b: Seq<u8>, filename: Seq<u8>, mode: Mode, opc: u8)
    requires
        opc == 1 || opc == 2,
        zero_free(filename),
        b == seq![0u8, opc] + filename + seq![0u8] + mode_bytes(mode) + seq![0u8],
    ensures
        b.len() >= 2,
        spec_opcode(b) == opc,
        spec_decode_request(b.subrange(2, b.len() as int)) == Some((filename, mode)),
{
    assert(b[0] == 0 && b[1] == opc);
    let t = b.subrange(2, b.len() as int);
    assert(t =~= filename + seq![0u8] + mode_bytes(mode) + seq![0u8]);
    assert(t[filename.len() as int] == 0);
    assert(forall|j: int| 0 <= j < filename.len() ==> t[j] == filename[j]);
    lemma_find_zero_at(t, filename.len() as int);
    assert(t.subrange(0, filename.len() as int) =~= filename);
    let rest = t.subrange(filename.len() as int + 1, t.len() as int);
    assert(rest =~= mode_bytes(mode) + seq![0u8]);
    if mode == Mode::Octet {
        assert(rest.len() == 6);
        assert((netascii_mode_bytes() + seq![0u8]).len() == 9);
    }
}

/// Smallest number of bytes any frame with the given opcode can have and
/// still decode: requests need an empty filename, its terminator, and the
/// shortest mode string `"octet"` with its terminator; Data and ACK need a
/// block number; Error needs a code and a message terminator.
pub open spec fn min_frame_size(op: int) -> int {
    if op == 1 || op == 2 {
        9
    } else if op == 3 || op == 4 {
        4
    } else if op == 5 {
        5
    } else {
        2
    }
}

/// Malformed-input law, short frames: a byte sequence shorter than the
/// minimum frame size for its opcode decodes to nothing (and the executable
/// [`decode`] then returns `MalformedPacket` and never panics).
pub proof fn lemma_short_frame_malformed(b: Seq<u8>)
    requires
        b.len() < 2 || b.len() < min_frame_size(spec_opcode(b)),
    ensures
        spec_decode(b) is None,
{
    if b.len() >= 2 {
        let op = spec_opcode(b);
        if op == 1 || op == 2 {
            let t = b.subrange(2, b.len() as int);
            match find_zero(t) {
                None => {}
                Some(i) => {
                    lemma_find_zero_some(t, i);
                    let rest = t.subrange(i + 1, t.len() as int);
                    assert(rest.len() < 6);
                    assert((netascii_mode_bytes() + seq![0u8]).len() == 9);
                    assert((octet_mode_bytes() + seq![0u8]).len() == 6);
                }
            }
        }
    }
}

/// Malformed-input law, missing terminator: a frame whose opcode calls for
/// a null-terminated text field but whose body holds no 0 byte decodes to
/// nothing.
pub proof fn lemma_unterminated_malformed(b: Seq<u8>)
    requires
        b.len() >= 2,
        spec_opcode(b) == 1 || spec_opcode(b) == 2 || spec_opcode(b) == 5,
        zero_free(b.subrange(2, b.len() as int)),
    ensures
        spec_decode(b) is None,
{
    let op = spec_opcode(b);
    if op == 1 || op == 2 {
        let t = b.subrange(2, b.len() as int);
        match find_zero(t) {
            None => {}
            Some(i) => {
                lemma_find_zero_some(t, i);
            }
        }
    } else if b.len() >= 5 {
        let t = b.subrange(4, b.len() as int);
        if find_zero(t) == Some(b.len() - 5) {
            lemma_find_zero_some(t, b.len() - 5);
            assert(b.subrange(2, b.len() as int)[b.len() - 3] == t[b.len() - 5]);
        }
    }
}

/// Decoding failure: the bytes do not form any packet.
#[derive(Clone, Copy, PartialEq, Eq, Structural, Debug)]
pub enum PacketError {
    MalformedPacket,
}

/// Index of the first 0 byte of `buf` at or after `start`.
fn scan_zero(buf: &Vec<u8>, start: usize) -> (r: Option<usize>)
    requires
        start <= buf.len(),
    ensures
        match r {
            Some(i) => start <= i < buf.len() && buf@[i as int] == 0 && (forall|j: int|
                start <= j < i ==> buf@[j] != 0),
            None => forall|j: int| start <= j < buf.len() ==> buf@[j] != 0,
        },
{
    let mut i: usize = start;
    while i < buf.len()
        invariant
            start <= i <= buf.len(),
            forall|j: int| start <= j < i ==> buf@[j] != 0,
        decreases buf.len() - i,
    {
        if buf[i] == 0 {
            return Some(i);
        }
        i += 1;
    }
    None
}

/// True iff the bytes of `buf` from `start` to the end are exactly the
/// given mode string followed by its terminator.
fn tail_is_mode(buf: &Vec<u8>, start: usize, m: Mode) -> (r: bool)
    requires
        start <= buf.len(),
    ensures
        r <==> buf@.subrange(start as int, buf.len() as int) == mode_bytes(m) + seq![0u8],
{
    let pattern: Vec<u8> = match m {
        Mode::Netascii => {
            let mut v: Vec<u8> = Vec::new();
            push_mode(&mut v, Mode::Netascii);
            v
        }
        Mode::Octet => {
            let mut v: Vec<u8> = Vec::new();
            push_mode(&mut v, Mode::Octet);
            v
        }
    };
    proof {
        assert(pattern@ =~= mode_bytes(m));
    }
    if buf.len() - start != pattern.len() + 1 {
        proof {
            assert(buf@.subrange(start as int, buf.len() as int).len() != (mode_bytes(m)
                + seq![0u8]).len());
        }
        return false;
    }
    let mut i: usize = 0;
    while i < pattern.len()
        invariant
            i <= pattern.len(),
            start <= buf.len(),
            buf.len() - start == pattern.len() + 1,
            pattern@ == mode_bytes(m),
            forall|j: int| 0 <= j < i ==> buf@[start + j] == pattern@[j],
        decreases pattern.len() - i,
    {
        if buf[start + i] != pattern[i] {
            proof {
                assert(buf@.subrange(start as int, buf.len() as int)[i as int] == buf@[start
                    + i]);
                assert((mode_bytes(m) + seq![0u8])[i as int] == mode_bytes(m)[i as int]);
                assert(buf@.subrange(start as int, buf.len() as int)[i as int] != (mode_bytes(m)
                    + seq![0u8])[i as int]);
            }
            return false;
        }
        i += 1;
    }
    if buf[buf.len() - 1] != 0 {
        proof {
            let k = pattern@.len() as int;
            assert(buf@.subrange(start as int, buf.len() as int)[k] != (mode_bytes(m)
                + seq![0u8])[k]);
        }
        return false;
    }
    proof {
        assert(buf@.subrange(start as int, buf.len() as int) =~= mode_bytes(m) + seq![0u8]);
    }
    true
}

/// Copies `buf[start..end]` into a fresh vector.
fn copy_range(buf: &Vec<u8>, start: usize, end: usize) -> (r: Vec<u8>)
    requires
        start <= end <= buf.len(),
    ensures
        r@ == buf@.subrange(start as int, end as int),
{
    let mut out: Vec<u8> = Vec::new();
    let mut i: usize = start;
    while i < end
        invariant
            start <= i <= end <= buf.len(),
            out@ == buf@.subrange(start as int, i as int),
        decreases end - i,
    {
        out.push(buf[i]);
        i += 1;
        proof {
            assert(out@ =~= buf@.subrange(start as int, i as int));
        }
    }
    out
}

/// Parses a UDP payload as a TFTP packet; fails on exactly the byte
/// sequences that represent no well-formed packet, and never panics.
pub fn decode(buf: &Vec<u8>) -> (r: Result<Packet, PacketError>)
    ensures
        match r {
            Ok(p) => spec_decode(buf@) == Some(p@),
            Err(e) => spec_decode(buf@) is None && e == PacketError::MalformedPacket,
        },
{
    if buf.len() < 2 {
        return Err(PacketError::MalformedPacket);
    }
    let op: u16 = (buf[0] as u16) * 256 + (buf[1] as u16);
    if op == 1 || op == 2 {
        let ghost tail = buf@.subrange(2, buf@.len() as int);
        match scan_zero(buf, 2) {
            None => {
                proof {
                    match find_zero(tail) {
                        Some(i) => lemma_find_zero_some(tail, i),
                        None => (),
                    }
                }
                Err(PacketError::MalformedPacket)
            }
            Some(i) => {
                proof {
                    lemma_find_zero_at(tail, i - 2);
                    assert(tail.subrange(i - 2 + 1, tail.len() as int) =~= buf@.subrange(
                        i + 1,
                        buf@.len() as int,
                    ));
                    assert(tail.subrange(0, i - 2) =~= buf@.subrange(2, i as int));
                }
                let mode: Mode = if tail_is_mode(buf, i + 1, Mode::Netascii) {
                    Mode::Netascii
                } else if tail_is_mode(buf, i + 1, Mode::Octet) {
                    Mode::Octet
                } else {
                    proof {
                        assert((netascii_mode_bytes() + seq![0u8]).len() != (octet_mode_bytes()
                            + seq![0u8]).len());
                    }
                    return Err(PacketError::MalformedPacket);
                };
                let filename = copy_range(buf, 2, i);
                if op == 1 {
                    Ok(Packet::Rrq { filename, mode })
                } else {
                    Ok(Packet::Wrq { filename, mode })
                }
            }
        }
    } else if op == 3 {
        if buf.len() < 4 || buf.len() > 4 + MAX_PAYLOAD_SIZE {
            return Err(PacketError::MalformedPacket);
        }
        let block: u16 = (buf[2] as u16) * 256 + (buf[3] as u16);
        let payload = copy_range(buf, 4, buf.len());
        Ok(Packet::Data { block, payload })
    } else if op == 4 {
        if buf.len() != 4 {
            return Err(PacketError::MalformedPacket);
        }
        let block: u16 = (buf[2] as u16) * 256 + (buf[3] as u16);
        Ok(Packet::Ack { block })
    } else if op == 5 {
        if buf.len() < 5 {
            return Err(PacketError::MalformedPacket);
        }
        let ghost tail = buf@.subrange(4, buf@.len() as int);
        match scan_zero(buf, 4) {
            None => {
                proof {
                    match find_zero(tail) {
                        Some(i) => lemma_find_zero_some(tail, i),
                        None => (),
                    }
                }
                Err(PacketError::MalformedPacket)
            }
            Some(i) => {
                proof {
                    lemma_find_zero_at(tail, i - 4);
                }
                if i != buf.len() - 1 {
                    return Err(PacketError::MalformedPacket);
                }
                let code: u16 = (buf[2] as u16) * 256 + (buf[3] as u16);
                let message = copy_range(buf, 4, buf.len() - 1);
                Ok(Packet::Error { code, message })
            }
        }
    } else {
        Err(PacketError::MalformedPacket)
    }
}

} // verus!
