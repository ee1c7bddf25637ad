//! The byte-message envelope over a frame channel:
//! `STX | LEN | UNIT | OPCODE | PAYLOAD | LRC | ETX`.
//!
//! [`spec_envelope`] is the encoded form, [`spec_decode_envelope`] recovers
//! opcode and payload from a received buffer, and
//! [`lemma_envelope_round_trip`] proves decoding inverts encoding — with the
//! checksum validating — for every payload the length field can carry.

use vstd::prelude::*;

use crate::error::{ByteChannelError, MessageChannelError, TryReadMessageError};
use crate::number::{
    calculate_length_field, calculate_lrc, get_message_length, spec_length_field, spec_lrc,
};

verus! {

/// A transport that moves whole frames of bytes to and from the device.
/// Implementations own the real endpoint, so nothing is promised of what
/// they carry; an empty read means no data was available.
pub trait FrameChannel {
    fn write(&self, frame: &[u8]) -> Result<(), ByteChannelError>;

    fn read(&self) -> Result<Vec<u8>, ByteChannelError>;
}

/// One wire message: the two-byte acknowledgement, a refusal code, or a
/// payload under one of the three request opcodes.
#[derive(Debug, Clone)]
pub enum Message {
    Ask,
    Nack(u16),
    Do(Vec<u8>),
    Get(Vec<u8>),
    /// The set-parameter request (the name `Set` itself would collide with
    /// the mathematical set type).
    SetOp(Vec<u8>),
}

/// The payload a request message carries; replies and acknowledgements are
/// never written.
pub open spec fn spec_write_payload(m: Message) -> Option<Seq<u8>> {
    match m {
        Message::Do(p) => Some(p@),
        Message::Get(p) => Some(p@),
        Message::SetOp(p) => Some(p@),
        _ => None,
    }
}

/// The opcode byte a request message travels under.
pub open spec fn spec_write_opcode(m: Message) -> u8 {
    match m {
        Message::Do(_) => 0x3e,
        Message::Get(_) => 0x3d,
        Message::SetOp(_) => 0x3c,
        _ => 0,
    }
}

/// The whole envelope for an opcode and payload: STX, the length field for
/// the five framing bytes plus the payload, UNIT, the opcode, the payload,
/// the exclusive-or of every byte so far, and ETX.
pub open spec fn spec_envelope(opcode: u8, payload: Seq<u8>) -> Seq<u8> {
    let head = seq![0x02u8] + spec_length_field((payload.len() + 5) as nat) + seq![0x00u8, opcode]
        + payload;
    head + seq![spec_lrc(head), 0x03u8]
}

/// The LEN field read at position 1: the announced total length and the
/// position just past the field.
pub open spec fn spec_message_length(buf: Seq<u8>) -> (nat, int) {
    if buf[1] == 0x81 {
        (buf[2] as nat, 3int)
    } else if buf[1] == 0x82 {
        ((buf[2] * 256 + buf[3]) as nat, 4int)
    } else {
        (buf[1] as nat, 2int)
    }
}

/// Decodes a complete buffered envelope: the buffer must open with STX and
/// close with a checksum over everything before it and ETX; the opcode and
/// payload sit behind the length field and unit byte.
pub open spec fn spec_decode_envelope(buf: Seq<u8>) -> Option<(u8, Seq<u8>)> {
    if buf.len() < 5 {
        None
    } else if buf[0] != 0x02 {
        None
    } else {
        let off = spec_message_length(buf).1;
        if off + 2 > buf.len() - 2 {
            None
        } else if buf[buf.len() - 1] != 0x03 {
            None
        } else if buf[buf.len() - 2] != spec_lrc(buf.subrange(0, buf.len() - 2)) {
            None
        } else {
            Some((buf[off + 1], buf.subrange(off + 2, buf.len() - 2)))
        }
    }
}

/// Encodes a request message into its envelope.  The envelope grows eight
/// bytes past the payload at most, and the whole must fit the length field.
pub fn encode_message(message: &Message) -> (r: Result<Vec<u8>, MessageChannelError>)
    requires
        spec_write_payload(*message) matches Some(p) ==> p.len() + 8 <= 0xffff,
    ensures
        match spec_write_payload(*message) {
            Some(p) => r matches Ok(v) && v@ == spec_envelope(spec_write_opcode(*message), p),
            None => r == Err::<Vec<u8>, MessageChannelError>(
                MessageChannelError::InvalidRequestMessageType,
            ),
        },
{
    let payload: &Vec<u8> = match message {
        Message::Do(payload) => payload,
        Message::Get(payload) => payload,
        Message::SetOp(payload) => payload,
        _ => {
            return Err(MessageChannelError::InvalidRequestMessageType);
        },
    };
    let op_code: u8 = match message {
        Message::Do(_) => 0x3e,
        Message::Get(_) => 0x3d,
        _ => 0x3c,
    };
    let raw_message_size: usize = 5 + payload.len();

    let mut raw_message: Vec<u8> = Vec::new();
    raw_message.push(0x02);
    let mut len_field = calculate_length_field(raw_message_size);
    raw_message.append(&mut len_field);
    raw_message.push(0x00);
    raw_message.push(op_code);
    let mut body = vstd::slice::slice_to_vec(payload.as_slice());
    raw_message.append(&mut body);
    let ghost head = raw_message@;
    proof {
        assert(head =~= seq![0x02u8] + spec_length_field((payload@.len() + 5) as nat) + seq![
            0x00u8,
            op_code,
        ] + payload@);
    }
    let lrc = calculate_lrc(raw_message.as_slice());
    raw_message.push(lrc);
    raw_message.push(0x03);
    proof {
        assert(raw_message@ =~= spec_envelope(op_code, payload@));
    }
    Ok(raw_message)
}

/// Decodes a complete buffered envelope, naming the framing fault when the
/// buffer does not carry one.
pub fn decode_envelope(buf: &Vec<u8>) -> (r: Result<(u8, Vec<u8>), MessageChannelError>)
    ensures
        match spec_decode_envelope(buf@) {
            Some(p) => r matches Ok(q) && q.0 == p.0 && q.1@ == p.1,
            None => r is Err,
        },
{
    if buf.len() < 5 {
        return Err(MessageChannelError::Other("message is too short".to_owned()));
    }
    if buf[0] != 0x02 {
        return Err(MessageChannelError::Other("expected STX".to_owned()));
    }
    let offset = match get_message_length(buf.as_slice(), 1) {
        Some((_, offset)) => offset,
        None => {
            return Err(MessageChannelError::Other("incorrect LEN".to_owned()));
        },
    };
    if offset + 2 > buf.len() - 2 {
        return Err(MessageChannelError::Other("message is too short".to_owned()));
    }
    let lrc_index = buf.len() - 2;
    if buf[lrc_index + 1] != 0x03 {
        return Err(MessageChannelError::Other("expected ETX".to_owned()));
    }
    if buf[lrc_index] != calculate_lrc(vstd::slice::slice_subrange(buf.as_slice(), 0, lrc_index)) {
        return Err(MessageChannelError::Other("incorrect LRC".to_owned()));
    }
    let opcode = buf[offset + 1];
    let payload = vstd::slice::slice_to_vec(
        vstd::slice::slice_subrange(buf.as_slice(), offset + 2, lrc_index),
    );
    Ok((opcode, payload))
}

/// The envelope's next-to-last byte checksums everything before it.
pub open spec fn spec_envelope_lrc_ok(e: Seq<u8>) -> bool {
    e.len() >= 2 && e[e.len() - 2] == spec_lrc(e.subrange(0, e.len() - 2))
}

/// Decoding inverts encoding: the envelope of any payload that fits the
/// length field opens with STX, carries a checksum that validates, and
/// decodes back to the same opcode and payload.
pub proof fn lemma_envelope_round_trip(opcode: u8, payload: Seq<u8>)
    requires
        payload.len() + 8 <= 0xffff,
    ensures
        spec_decode_envelope(spec_envelope(opcode, payload)) == Some((opcode, payload)),
        spec_envelope_lrc_ok(spec_envelope(opcode, payload)),
{
    let head = seq![0x02u8] + spec_length_field((payload.len() + 5) as nat) + seq![
        0x00u8,
        opcode,
    ] + payload;
    let e = spec_envelope(opcode, payload);
    let lf = spec_length_field((payload.len() + 5) as nat);
    assert(e.subrange(0, e.len() - 2) =~= head);
    assert(e[e.len() - 1] == 0x03);
    assert(e[e.len() - 2] == spec_lrc(head));
    assert(e[0] == 0x02);
    let off = spec_message_length(e).1;
    assert(e[1] == lf[0]);
    if lf.len() >= 2 {
        assert(e[2] == lf[1]);
    }
    if lf.len() == 3 {
        assert(e[3] == lf[2]);
    }
    assert(off == 1 + lf.len());
    assert(e[off + 1] == opcode);
    assert(e.subrange(off + 2, e.len() - 2) =~= payload);
}

/// Whether the opcode is one the device protocol knows.
pub open spec fn spec_known_opcode(opcode: u8) -> bool {
    opcode == 0x15 || opcode == 0x3e || opcode == 0x3d || opcode == 0x3c
}

/// How an opcode and payload read as a typed message: a payload of exactly
/// `00 00` is the acknowledgement whatever the opcode, a Nack carries a
/// two-byte big-endian code, and the three request opcodes carry their
/// payload through.
pub open spec fn spec_message_matches(opcode: u8, payload: Seq<u8>, m: Message) -> bool {
    match m {
        Message::Ask => spec_known_opcode(opcode) && payload =~= seq![0u8, 0u8],
        Message::Nack(c) => opcode == 0x15 && !(payload =~= seq![0u8, 0u8]) && payload.len() >= 2
            && c == payload[0] * 256 + payload[1],
        Message::Do(v) => opcode == 0x3e && !(payload =~= seq![0u8, 0u8]) && v@ == payload,
        Message::Get(v) => opcode == 0x3d && !(payload =~= seq![0u8, 0u8]) && v@ == payload,
        Message::SetOp(v) => opcode == 0x3c && !(payload =~= seq![0u8, 0u8]) && v@ == payload,
    }
}

/// On which opcode and payload classification succeeds.
pub open spec fn spec_classify_ok(opcode: u8, payload: Seq<u8>) -> bool {
    &&& spec_known_opcode(opcode)
    &&& (opcode == 0x15 && !(payload =~= seq![0u8, 0u8]) ==> payload.len() >= 2)
}

/// Types a decoded opcode and payload as a wire message.  A payload of
/// exactly `00 00` reads as the acknowledgement regardless of the opcode.
pub fn classify_message(opcode: u8, payload: Vec<u8>) -> (r: Result<Message, MessageChannelError>)
    ensures
        r is Ok <==> spec_classify_ok(opcode, payload@),
        r matches Ok(m) ==> spec_message_matches(opcode, payload@, m),
{
    let is_ack = payload.len() == 2 && payload[0] == 0x00 && payload[1] == 0x00;
    proof {
        if payload@.len() == 2 && payload@[0] == 0 && payload@[1] == 0 {
            assert(payload@ =~= seq![0u8, 0u8]);
        }
    }
    match opcode {
        0x15 => {
            if is_ack {
                Ok(Message::Ask)
            } else if payload.len() < 2 {
                Err(MessageChannelError::Other("truncated Nack code".to_owned()))
            } else {
                let code = (payload[0] as u16) * 256 + payload[1] as u16;
                Ok(Message::Nack(code))
            }
        },
        0x3e => {
            if is_ack {
                Ok(Message::Ask)
            } else {
                Ok(Message::Do(payload))
            }
        },
        0x3d => {
            if is_ack {
                Ok(Message::Ask)
            } else {
                Ok(Message::Get(payload))
            }
        },
        0x3c => {
            if is_ack {
                Ok(Message::Ask)
            } else {
                Ok(Message::SetOp(payload))
            }
        },
        _ => Err(MessageChannelError::Other("incorrect OPCODE".to_owned())),
    }
}

/// A received message is typed from some buffered envelope.
pub open spec fn spec_received(m: Message) -> bool {
    exists|buf: Seq<u8>|
        {
            &&& #[trigger] spec_decode_envelope(buf) matches Some(p)
            &&& spec_message_matches(p.0, p.1, m)
        }
}

/// How many bytes are still missing before `len` reaches `target`.
pub open spec fn spec_outstanding(target: int, len: int) -> int {
    if len >= target {
        0
    } else {
        target - len
    }
}

/// The envelope layer over a frame transport.
pub struct MessageChannel<T: FrameChannel> {
    channel: T,
}

impl<T: FrameChannel> MessageChannel<T> {
    pub fn new(channel: T) -> Self {
        Self { channel }
    }

    /// Encodes a request message and hands its envelope to the transport.
    pub fn write(&self, message: &Message) -> (r: Result<(), MessageChannelError>)
        requires
            spec_write_payload(*message) matches Some(p) ==> p.len() + 8 <= 0xffff,
        ensures
            spec_write_payload(*message) is None ==> r == Err::<(), MessageChannelError>(
                MessageChannelError::InvalidRequestMessageType,
            ),
    {
        let raw_message = match encode_message(message) {
            Ok(v) => v,
            Err(e) => {
                return Err(e);
            },
        };
        match self.channel.write(raw_message.as_slice()) {
            Ok(()) => Ok(()),
            Err(e) => Err(MessageChannelError::ByteChannel(e)),
        }
    }

    /// Pulls frames until a whole envelope is buffered, then decodes and
    /// types it.  Whatever the transport delivered, a returned message reads
    /// back out of a checksummed envelope.
    pub fn read(&self) -> (r: Result<Message, MessageChannelError>)
        ensures
            r matches Ok(m) ==> spec_received(m),
    {
        let mut buf: Vec<u8> = Vec::new();

        while buf.len() < 5
            decreases spec_outstanding(5, buf@.len() as int),
        {
            let mut readed = match self.channel.read() {
                Ok(v) => v,
                Err(e) => {
                    return Err(MessageChannelError::ByteChannel(e));
                },
            };
            if readed.len() == 0 {
                return Err(MessageChannelError::Other("read head block size is 0".to_owned()));
            }
            buf.append(&mut readed);
        }

        let (m_len, _) = match get_message_length(buf.as_slice(), 1) {
            Some(x) => x,
            None => {
                return Err(MessageChannelError::Other("incorrect LEN".to_owned()));
            },
        };

        while buf.len() < m_len as usize
            decreases spec_outstanding(m_len as int, buf@.len() as int),
        {
            let mut readed = match self.channel.read() {
                Ok(v) => v,
                Err(e) => {
                    return Err(MessageChannelError::ByteChannel(e));
                },
            };
            if readed.len() == 0 {
                return Err(MessageChannelError::Other("read body block size is 0".to_owned()));
            }
            buf.append(&mut readed);
        }

        let (opcode, payload) = match decode_envelope(&buf) {
            Ok(x) => x,
            Err(e) => {
                return Err(e);
            },
        };
        proof {
            assert(spec_decode_envelope(buf@) matches Some(p));
        }
        match classify_message(opcode, payload) {
            Ok(m) => {
                proof {
                    assert(spec_decode_envelope(buf@) matches Some(q) && spec_message_matches(
                        q.0,
                        q.1,
                        m,
                    ));
                }
                Ok(m)
            },
            Err(e) => Err(e),
        }
    }

    /// Like `read`, but reports `Empty` when no data at all is waiting.
    pub fn try_read(&self) -> (r: Result<Message, TryReadMessageError>)
        ensures
            r matches Ok(m) ==> spec_received(m),
    {
        let first = match self.channel.read() {
            Ok(v) => v,
            Err(_) => {
                return Err(TryReadMessageError::Other("byte channel failed".to_owned()));
            },
        };
        if first.len() == 0 {
            return Err(TryReadMessageError::Empty);
        }
        let mut buf: Vec<u8> = first;

        while buf.len() < 5
            decreases spec_outstanding(5, buf@.len() as int),
        {
            let mut readed = match self.channel.read() {
                Ok(v) => v,
                Err(_) => {
                    return Err(TryReadMessageError::Other("byte channel failed".to_owned()));
                },
            };
            if readed.len() == 0 {
                return Err(TryReadMessageError::Other("read head block size is 0".to_owned()));
            }
            buf.append(&mut readed);
        }

        let (m_len, _) = match get_message_length(buf.as_slice(), 1) {
            Some(x) => x,
            None => {
                return Err(TryReadMessageError::Other("incorrect LEN".to_owned()));
            },
        };

        while buf.len() < m_len as usize
            decreases spec_outstanding(m_len as int, buf@.len() as int),
        {
            let mut readed = match self.channel.read() {
                Ok(v) => v,
                Err(_) => {
                    return Err(TryReadMessageError::Other("byte channel failed".to_owned()));
                },
            };
            if readed.len() == 0 {
                return Err(TryReadMessageError::Other("read body block size is 0".to_owned()));
            }
            buf.append(&mut readed);
        }

        let (opcode, payload) = match decode_envelope(&buf) {
            Ok(x) => x,
            Err(e) => {
                return Err(TryReadMessageError::Other("framing failed".to_owned()));
            },
        };
        match classify_message(opcode, payload) {
            Ok(m) => {
                proof {
                    assert(spec_decode_envelope(buf@) matches Some(q) && spec_message_matches(
                        q.0,
                        q.1,
                        m,
                    ));
                }
                Ok(m)
            },
            Err(_) => Err(TryReadMessageError::Other("incorrect OPCODE".to_owned())),
        }
    }
}

} // verus!
