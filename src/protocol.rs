//! Framing of the Feetech instruction and reply packets.

use vstd::prelude::*;

verus! {

/// First two bytes of every packet.
pub const HEADER_BYTE: u8 = 0xFF;

/// Instruction code of a register read.
pub const INSTR_READ: u8 = 0x02;

/// Register address of the present position (two bytes, little-endian).
pub const PRESENT_POSITION: u8 = 56;

/// Sum of the bytes, as an unbounded integer.
pub open spec fn byte_sum(s: Seq<u8>) -> nat
    decreases s.len(),
{
    if s.len() == 0 {
        0
    } else {
        byte_sum(s.drop_last()) + s.last() as nat
    }
}

/// One's complement of the 8-bit wrapping sum of the bytes.
pub open spec fn checksum_of(s: Seq<u8>) -> u8 {
    (255 - (byte_sum(s) % 256)) as u8
}

/// Checksum of a packet body: the bitwise NOT of the wrapping sum.
pub fn checksum(data: &[u8]) -> (r: u8)
    ensures
        r == checksum_of(data@),
{
    let mut s: u8 = 0;
    let mut i: usize = 0;
    while i < data.len()
        invariant
            i <= data@.len(),
            s as nat == byte_sum(data@.subrange(0, i as int)) % 256,
        decreases data@.len() - i,
    {
        proof {
            let pre = data@.subrange(0, i as int);
            let next = data@.subrange(0, i as int + 1);
            assert(next.drop_last() =~= pre);
        }
        s = ((s as u16 + data[i] as u16) % 256) as u8;
        i = i + 1;
    }
    assert(data@.subrange(0, data@.len() as int) =~= data@);
    let r = !s;
    assert(r == 255 - s) by (bit_vector)
        requires
            r == !s,
    ;
    r
}


/// Why a reply could not be read as a packet.
#[derive(Debug, Clone, Copy, PartialEq, Eq, Structural)]
pub enum ProtocolError {
    /// The first two bytes are not `0xFF, 0xFF`.
    BadHeader,
    /// The bytes end before the header or the declared length is complete.
    Truncated,
    /// The declared length leaves no room for the status and checksum bytes.
    BadLength,
    /// The payload holds fewer than the two bytes of a position.
    ShortResponse,
}

/// Value of the length byte for a packet carrying `n` parameter bytes.
pub open spec fn length_byte(n: nat) -> u8 {
    ((n + 2) % 256) as u8
}

/// The bytes that the checksum covers: id, length, instruction, parameters.
pub open spec fn packet_body(id: u8, instr: u8, params: Seq<u8>) -> Seq<u8> {
    seq![id, length_byte(params.len()), instr] + params
}

/// A complete instruction packet.
pub open spec fn packet_of(id: u8, instr: u8, params: Seq<u8>) -> Seq<u8> {
    seq![HEADER_BYTE, HEADER_BYTE] + packet_body(id, instr, params) + seq![
        checksum_of(packet_body(id, instr, params)),
    ]
}

/// Outcome of reading a reply from the front of a byte stream.
pub open spec fn reply_of(b: Seq<u8>) -> Result<Seq<u8>, ProtocolError> {
    if b.len() < 4 {
        Err(ProtocolError::Truncated)
    } else if b[0] != HEADER_BYTE || b[1] != HEADER_BYTE {
        Err(ProtocolError::BadHeader)
    } else if b.len() < 4 + b[3] {
        Err(ProtocolError::Truncated)
    } else if b[3] < 2 {
        Err(ProtocolError::BadLength)
    } else {
        Ok(b.subrange(5, 3 + b[3] as int))
    }
}

/// Little-endian value of the first two bytes, or the error of a short payload.
pub open spec fn position_of(data: Seq<u8>) -> Result<u16, ProtocolError> {
    if data.len() < 2 {
        Err(ProtocolError::ShortResponse)
    } else {
        Ok((data[0] as nat + 256 * (data[1] as nat)) as u16)
    }
}

/// Builds `[0xFF, 0xFF, id, len, instruction, params.., checksum]`, where
/// `len` is the parameter count plus two, truncated to a byte.
pub fn encode_instruction(id: u8, instr: u8, params: &[u8]) -> (r: Vec<u8>)
    requires
        params@.len() + 6 <= usize::MAX,
    ensures
        r@ == packet_of(id, instr, params@),
{
    let length = ((params.len() + 2) % 256) as u8;
    let mut body: Vec<u8> = Vec::new();
    body.push(id);
    body.push(length);
    body.push(instr);
    let mut i: usize = 0;
    while i < params.len()
        invariant
            i <= params@.len(),
            body@ == seq![id, length, instr] + params@.subrange(0, i as int),
        decreases params@.len() - i,
    {
        body.push(params[i]);
        i = i + 1;
        assert(body@ =~= seq![id, length, instr] + params@.subrange(0, i as int));
    }
    assert(params@.subrange(0, params@.len() as int) =~= params@);
    let cs = checksum(body.as_slice());
    let mut pkt: Vec<u8> = Vec::new();
    pkt.push(HEADER_BYTE);
    pkt.push(HEADER_BYTE);
    let mut j: usize = 0;
    while j < body.len()
        invariant
            j <= body@.len(),
            pkt@ == seq![HEADER_BYTE, HEADER_BYTE] + body@.subrange(0, j as int),
        decreases body@.len() - j,
    {
        pkt.push(body[j]);
        j = j + 1;
        assert(pkt@ =~= seq![HEADER_BYTE, HEADER_BYTE] + body@.subrange(0, j as int));
    }
    assert(body@.subrange(0, body@.len() as int) =~= body@);
    pkt.push(cs);
    assert(pkt@ =~= packet_of(id, instr, params@));
    pkt
}

/// Number of bytes that follow a four-byte reply header, or why the header
/// is refused.
pub fn reply_rest_len(hdr: &[u8]) -> (r: Result<usize, ProtocolError>)
    ensures
        hdr@.len() < 4 ==> r == Err::<usize, ProtocolError>(ProtocolError::Truncated),
        hdr@.len() >= 4 && (hdr@[0] != HEADER_BYTE || hdr@[1] != HEADER_BYTE) ==> r == Err::<
            usize,
            ProtocolError,
        >(ProtocolError::BadHeader),
        hdr@.len() >= 4 && hdr@[0] == HEADER_BYTE && hdr@[1] == HEADER_BYTE ==> r == Ok::<
            usize,
            ProtocolError,
        >(hdr@[3] as usize),
{
    if hdr.len() < 4 {
        Err(ProtocolError::Truncated)
    } else if hdr[0] != HEADER_BYTE || hdr[1] != HEADER_BYTE {
        Err(ProtocolError::BadHeader)
    } else {
        Ok(hdr[3] as usize)
    }
}

/// Reads a reply from the front of `bytes` and returns its parameter payload:
/// the declared bytes without the leading status byte and the trailing checksum.
pub fn decode_reply(bytes: &[u8]) -> (r: Result<Vec<u8>, ProtocolError>)
    ensures
        match r {
            Ok(p) => reply_of(bytes@) == Ok::<Seq<u8>, ProtocolError>(p@),
            Err(e) => reply_of(bytes@) == Err::<Seq<u8>, ProtocolError>(e),
        },
{
    let len = match reply_rest_len(bytes) {
        Ok(n) => n,
        Err(e) => {
            return Err(e);
        },
    };
    if bytes.len() - 4 < len {
        return Err(ProtocolError::Truncated);
    }
    if len < 2 {
        return Err(ProtocolError::BadLength);
    }
    let end: usize = 3 + len;
    let mut out: Vec<u8> = Vec::new();
    let mut i: usize = 5;
    while i < end
        invariant
            5 <= i <= end,
            end <= bytes@.len(),
            out@ == bytes@.subrange(5, i as int),
        decreases end - i,
    {
        out.push(bytes[i]);
        i = i + 1;
        assert(out@ =~= bytes@.subrange(5, i as int));
    }
    Ok(out)
}

/// Reads the present position (little-endian `u16`) out of a reply payload.
pub fn position_from_payload(data: &[u8]) -> (r: Result<u16, ProtocolError>)
    ensures
        r == position_of(data@),
{
    if data.len() < 2 {
        Err(ProtocolError::ShortResponse)
    } else {
        Ok((data[0] as u16) + 256 * (data[1] as u16))
    }
}

/// The packet that asks servo `id` for its present position.
pub fn position_request(id: u8) -> (r: Vec<u8>)
    ensures
        r@ == packet_of(id, INSTR_READ, seq![PRESENT_POSITION, 2u8]),
{
    let params: [u8; 2] = [PRESENT_POSITION, 2];
    let r = encode_instruction(id, INSTR_READ, params.as_slice());
    assert(params@ =~= seq![PRESENT_POSITION, 2u8]);
    r
}

/// Decodes a whole reply to a position request into the position it reports.
pub fn decode_position(bytes: &[u8]) -> (r: Result<u16, ProtocolError>)
    ensures
        r == (match reply_of(bytes@) {
            Ok(p) => position_of(p),
            Err(e) => Err::<u16, ProtocolError>(e),
        }),
{
    match decode_reply(bytes) {
        Ok(p) => position_from_payload(p.as_slice()),
        Err(e) => Err(e),
    }
}

/// The checksum is the one's complement of the 8-bit wrapping sum.
pub proof fn lemma_checksum_complements_sum(s: Seq<u8>)
    ensures
        (checksum_of(s) as nat + byte_sum(s)) % 256 == 255,
{
}

/// Reading back an instruction packet yields its parameters exactly, whenever
/// the declared length fits its byte.
pub proof fn lemma_decode_encoded(id: u8, instr: u8, params: Seq<u8>)
    requires
        params.len() + 2 <= 255,
    ensures
        reply_of(packet_of(id, instr, params)) == Ok::<Seq<u8>, ProtocolError>(params),
{
    let p = packet_of(id, instr, params);
    assert(p[3] == params.len() + 2);
    assert(p.subrange(5, 3 + p[3] as int) =~= params);
}

/// Four leading bytes that do not start with `0xFF, 0xFF` are refused as a bad
/// header, whatever follows them.
pub proof fn lemma_bad_header_refused(b: Seq<u8>)
    requires
        b.len() >= 4,
        b[0] != HEADER_BYTE || b[1] != HEADER_BYTE,
    ensures
        reply_of(b) == Err::<Seq<u8>, ProtocolError>(ProtocolError::BadHeader),
{
}

} // verus!
