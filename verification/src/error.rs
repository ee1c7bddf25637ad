//! The layered error taxonomy: every layer maps the layer below into a wider
//! variant without losing the underlying context.

use vstd::prelude::*;

use crate::text::spec_decimal;
use crate::text::push_decimal;
use crate::tlv_parser::{Tlv, TlvError};

verus! {

/// An error of a high-level device operation.
#[derive(Debug)]
pub enum DeviceError {
    NotSupported,
    OperationCanceled,
    Timeout(String),
    MessageChannel(String),
    TlvContent(String, Tlv),
    Other(String),
}

#[derive(Debug)]
pub enum StorageError {
    Device(DeviceError),
}

/// An error of the raw frame transport.
#[derive(Debug)]
pub enum ByteChannelError {
    Other(String),
}

/// An error of the envelope framing layer.
#[derive(Debug)]
pub enum MessageChannelError {
    ByteChannel(ByteChannelError),
    InvalidRequestMessageType,
    InvalidResponseMessageType,
    Other(String),
}

/// An error of the typed TLV channel.
#[derive(Debug)]
pub enum TlvChannelError {
    MessageChannel(MessageChannelError),
    TlvError(String),
}

/// An error of the queued request/reply layer.
#[derive(Debug)]
pub enum TlvQueueError {
    TlvChannel(TlvChannelError),
    RecvTimeout,
    Disconnected,
    PutError(u16),
}

/// An error while reading a typed value out of a TLV node.
#[derive(Debug)]
pub enum TlvValueParseError {
    ManyValues,
    Other(String),
}

/// An error while writing a message towards the device.
#[derive(Debug)]
pub enum WriteMessageError {
    Other(String),
}

/// An error while reading a message from the device.
#[derive(Debug)]
pub enum ReadMessageError {
    Other(String),
}

/// An error while polling for a message: `Empty` when nothing has arrived.
#[derive(Debug)]
pub enum TryReadMessageError {
    Empty,
    Other(String),
}

/// The one-line description of a TLV codec error.
pub open spec fn spec_tlv_error_text(e: TlvError) -> Seq<char> {
    match e {
        TlvError::TruncatedTlv => "Too short input vector"@,
        TlvError::InvalidLength => "Invalid length value"@,
        TlvError::InvalidTagNumber => "Invalid tag number"@,
        TlvError::TooShortBody { expected, found } => "Too short body: expected "@ + spec_decimal(
            expected as nat,
        ) + ", found "@ + spec_decimal(found as nat),
        TlvError::TlvListExpected { tag_number } => "Tag number defines constructed TLV: "@
            + spec_decimal(tag_number as nat),
        TlvError::ValExpected { tag_number } => "Tag number defines primitive TLV: "@
            + spec_decimal(tag_number as nat),
        TlvError::TagPathError => "Provided 'tag-path' have error"@,
        TlvError::ParseTagValue(m) => "Tag value parse error: "@ + m@,
    }
}

/// Renders a TLV codec error as its one-line description.
pub fn tlv_error_text(e: &TlvError) -> (r: String)
    ensures
        r@ == spec_tlv_error_text(*e),
{
    match e {
        TlvError::TruncatedTlv => "Too short input vector".to_owned(),
        TlvError::InvalidLength => "Invalid length value".to_owned(),
        TlvError::InvalidTagNumber => "Invalid tag number".to_owned(),
        TlvError::TooShortBody { expected, found } => {
            let mut out = "Too short body: expected ".to_owned();
            push_decimal(*expected as u64, &mut out);
            out.append(", found ");
            push_decimal(*found as u64, &mut out);
            proof {
                assert(out@ =~= spec_tlv_error_text(*e));
            }
            out
        },
        TlvError::TlvListExpected { tag_number } => {
            let mut out = "Tag number defines constructed TLV: ".to_owned();
            push_decimal(*tag_number as u64, &mut out);
            proof {
                assert(out@ =~= spec_tlv_error_text(*e));
            }
            out
        },
        TlvError::ValExpected { tag_number } => {
            let mut out = "Tag number defines primitive TLV: ".to_owned();
            push_decimal(*tag_number as u64, &mut out);
            proof {
                assert(out@ =~= spec_tlv_error_text(*e));
            }
            out
        },
        TlvError::TagPathError => "Provided 'tag-path' have error".to_owned(),
        TlvError::ParseTagValue(m) => {
            let mut out = "Tag value parse error: ".to_owned();
            out.append(m.as_str());
            proof {
                assert(out@ =~= spec_tlv_error_text(*e));
            }
            out
        },
    }
}

impl DeviceError {
    /// Widens a TLV codec error into a message-channel device error, keeping
    /// its description.
    pub fn from_tlv(e: &TlvError) -> (r: DeviceError)
        ensures
            r matches DeviceError::MessageChannel(m) && m@ == spec_tlv_error_text(*e),
    {
        DeviceError::MessageChannel(tlv_error_text(e))
    }
}

} // verus!
