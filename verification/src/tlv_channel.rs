//! The typed TLV channel: requests carry a serialised tree under one of the
//! three request opcodes, replies are an acknowledgement, a refusal code, or
//! a parsed tree.

use vstd::prelude::*;

use crate::error::TlvChannelError;
use crate::error::tlv_error_text;
use crate::message_channel::{FrameChannel, Message, MessageChannel};
use crate::tlv_parser::{spec_parse_tlv, spec_tlv_len, SpecTlv, Tlv};

verus! {

/// A request to send: the tree and the opcode it travels under.
pub enum WriteTlv {
    Do(Tlv),
    Get(Tlv),
    /// The set-parameter request (the name `Set` itself would collide with
    /// the mathematical set type).
    SetOp(Tlv),
}

/// A typed reply off the wire.
pub enum ReadTlv {
    Ack,
    Nack(u16),
    Tlv(Tlv),
}

/// The tree a request carries.
pub open spec fn spec_write_tlv(w: WriteTlv) -> Tlv {
    match w {
        WriteTlv::Do(t) => t,
        WriteTlv::Get(t) => t,
        WriteTlv::SetOp(t) => t,
    }
}

/// A received tree is the parse of some payload bytes.
pub open spec fn spec_wire_tree(t: Tlv) -> bool {
    exists|p: Seq<u8>|
        {
            &&& #[trigger] spec_parse_tlv(p) matches Ok(q)
            &&& q.0 == t@
        }
}

/// The typed TLV layer over the envelope layer.
pub struct TlvChannel<TFrameChannel: FrameChannel> {
    channel: MessageChannel<TFrameChannel>,
}

impl<TFrameChannel: FrameChannel> TlvChannel<TFrameChannel> {
    pub fn new(channel: MessageChannel<TFrameChannel>) -> Self {
        Self { channel }
    }

    /// Serialises the request's tree and writes it under its opcode.
    pub fn write(&self, data: &WriteTlv) -> (r: Result<(), TlvChannelError>)
        requires
            spec_tlv_len(spec_write_tlv(*data)@) + 8 <= 0xffff,
    {
        let message = match data {
            WriteTlv::Do(tlv) => Message::Do(tlv.to_vec()),
            WriteTlv::Get(tlv) => Message::Get(tlv.to_vec()),
            WriteTlv::SetOp(tlv) => Message::SetOp(tlv.to_vec()),
        };
        proof {
            crate::tlv_parser::lemma_encoded_le_tlv_len(spec_write_tlv(*data)@);
        }
        match self.channel.write(&message) {
            Ok(()) => Ok(()),
            Err(e) => Err(TlvChannelError::MessageChannel(e)),
        }
    }

    /// Reads one typed reply: request opcodes deliver their payload parsed as
    /// a tree, whatever the transport delivered underneath.
    pub fn read(&self) -> (r: Result<ReadTlv, TlvChannelError>)
        ensures
            r matches Ok(ReadTlv::Tlv(t)) ==> spec_wire_tree(t),
    {
        let message = match self.channel.read() {
            Ok(m) => m,
            Err(e) => {
                return Err(TlvChannelError::MessageChannel(e));
            },
        };
        match message {
            Message::Ask => Ok(ReadTlv::Ack),
            Message::Nack(code) => Ok(ReadTlv::Nack(code)),
            Message::Do(payload) | Message::Get(payload) | Message::SetOp(payload) => {
                match Tlv::from_vec(payload.as_slice()) {
                    Ok(tlv) => {
                        proof {
                            assert(spec_parse_tlv(payload@) matches Ok(q) && q.0 == tlv@);
                        }
                        Ok(ReadTlv::Tlv(tlv))
                    },
                    Err(e) => Err(TlvChannelError::TlvError(tlv_error_text(&e))),
                }
            },
        }
    }
}

} // verus!
