//! Typed device messages: requests and replies carry whole TLV trees, and
//! the conversions to and from wire messages are stated exactly.

use vstd::prelude::*;

use crate::error::{ReadMessageError, TryReadMessageError, WriteMessageError};
use crate::error::tlv_error_text;
use crate::message_channel::Message;
use crate::tlv_parser::{spec_encoded, spec_parse_tlv, spec_tlv_len, Tlv};

verus! {

/// A typed request towards the device.
#[derive(Debug)]
pub enum WriteMessage {
    Do(Tlv),
    Get(Tlv),
    /// The set-parameter request (the name `Set` itself would collide with
    /// the mathematical set type).
    SetOp(Tlv),
}

/// A typed message from the device.
#[derive(Debug)]
pub enum ReadMessage {
    Ask,
    Nack(u8),
    Do(Tlv),
    Get(Tlv),
    SetOp(Tlv),
}

/// A typed endpoint that writes requests and polls for replies.
/// Implementations own the transport, so nothing is promised of what they
/// deliver.
pub trait MessageChannel {
    fn write(&self, message: &WriteMessage) -> Result<(), WriteMessageError>;

    fn try_read(&self) -> Result<ReadMessage, TryReadMessageError>;
}

/// The tree a typed request carries.
pub open spec fn spec_write_message_tlv(m: WriteMessage) -> Tlv {
    match m {
        WriteMessage::Do(t) => t,
        WriteMessage::Get(t) => t,
        WriteMessage::SetOp(t) => t,
    }
}

/// Serialises a typed request into the wire message under its opcode.
pub fn write_message_of(message: &WriteMessage) -> (r: Message)
    requires
        spec_tlv_len(spec_write_message_tlv(*message)@) <= usize::MAX,
    ensures
        message matches WriteMessage::Do(t) ==> (r matches Message::Do(p) && p@ == spec_encoded(
            t@,
        )),
        message matches WriteMessage::Get(t) ==> (r matches Message::Get(p) && p@ == spec_encoded(
            t@,
        )),
        message matches WriteMessage::SetOp(t) ==> (r matches Message::SetOp(p) && p@
            == spec_encoded(t@)),
{
    proof {
        crate::tlv_parser::lemma_encoded_le_tlv_len(spec_write_message_tlv(*message)@);
    }
    match message {
        WriteMessage::Do(tlv) => Message::Do(tlv.to_vec()),
        WriteMessage::Get(tlv) => Message::Get(tlv.to_vec()),
        WriteMessage::SetOp(tlv) => Message::SetOp(tlv.to_vec()),
    }
}

/// Types a wire message: request opcodes have their payload parsed as a
/// tree, a refusal keeps the high byte of its code, and the acknowledgement
/// passes through.
pub fn read_message_of(message: Message) -> (r: Result<ReadMessage, ReadMessageError>)
    ensures
        message is Ask ==> r == Ok::<ReadMessage, ReadMessageError>(ReadMessage::Ask),
        message matches Message::Nack(c) ==> r == Ok::<ReadMessage, ReadMessageError>(
            ReadMessage::Nack((c / 256) as u8),
        ),
        message matches Message::Do(p) ==> match spec_parse_tlv(p@) {
            Ok(q) => r matches Ok(m) && m matches ReadMessage::Do(t) && t@ == q.0,
            Err(_) => r is Err,
        },
        message matches Message::Get(p) ==> match spec_parse_tlv(p@) {
            Ok(q) => r matches Ok(m) && m matches ReadMessage::Get(t) && t@ == q.0,
            Err(_) => r is Err,
        },
        message matches Message::SetOp(p) ==> match spec_parse_tlv(p@) {
            Ok(q) => r matches Ok(m) && m matches ReadMessage::SetOp(t) && t@ == q.0,
            Err(_) => r is Err,
        },
{
    match message {
        Message::Ask => Ok(ReadMessage::Ask),
        Message::Nack(code) => Ok(ReadMessage::Nack((code / 256) as u8)),
        Message::Do(payload) => match Tlv::from_vec(payload.as_slice()) {
            Ok(tlv) => Ok(ReadMessage::Do(tlv)),
            Err(e) => Err(ReadMessageError::Other(tlv_error_text(&e))),
        },
        Message::Get(payload) => match Tlv::from_vec(payload.as_slice()) {
            Ok(tlv) => Ok(ReadMessage::Get(tlv)),
            Err(e) => Err(ReadMessageError::Other(tlv_error_text(&e))),
        },
        Message::SetOp(payload) => match Tlv::from_vec(payload.as_slice()) {
            Ok(tlv) => Ok(ReadMessage::SetOp(tlv)),
            Err(e) => Err(ReadMessageError::Other(tlv_error_text(&e))),
        },
    }
}

} // verus!
