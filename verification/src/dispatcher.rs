//! The background worker's decision logic: an inbound message is either one
//! of the three unsolicited notifications — external display text, internal
//! log text, card removal — or a reply that belongs to the pending
//! operation.  A message that carries a notification path never reaches the
//! reply side.

use vstd::prelude::*;
use vstd::utf8::{decode_utf8, valid_utf8};

use crate::device_channel::ReadMessage;
use crate::error::ReadMessageError;
use crate::tag_value::StringAsciiTagValue;
use crate::tlv_parser::{lemma_value_view, spec_resolve, spec_resolve_in, SpecValue, TagValue, Tlv, Value};

verus! {

/// What the worker does with one inbound message.
pub enum InboundEvent {
    /// Invoke the external-display callback with this text.
    ExternalDisplay(String),
    /// Invoke the internal-log callback with this text.
    InternalLog(String),
    /// Invoke the card-removal callback.
    CardRemoved,
    /// Hand the message to the operation waiting for a reply.
    Reply(ReadMessage),
}

/// The template tag unsolicited notifications arrive under.
pub open spec fn spec_notify_root() -> nat {
    0xff01
}

/// The bytes a notification value carries: an explicitly empty value reads
/// as no bytes, a child list is not a text.
pub open spec fn spec_note_bytes(v: SpecValue) -> Option<Seq<u8>> {
    match v {
        SpecValue::Bytes(b) => Some(b),
        SpecValue::Nothing => Some(Seq::empty()),
        SpecValue::List(_) => None,
    }
}

/// How one inbound message classifies: only an unsolicited `Do` is a
/// notification, the display text path is checked before the log path and
/// the card-removal path, a notification text must decode as UTF-8, and
/// everything else is a reply.
pub open spec fn spec_inbound(message: ReadMessage, r: Result<InboundEvent, ReadMessageError>) -> bool {
    match message {
        ReadMessage::Do(t) => {
            let disp = spec_resolve(t@, seq![spec_notify_root(), 0xdf46]);
            let log = spec_resolve(t@, seq![spec_notify_root(), 0xdf8154]);
            let removal = spec_resolve(t@, seq![spec_notify_root(), 0xdf08]);
            if disp is Some {
                match spec_note_bytes(disp->Some_0) {
                    Some(b) => if valid_utf8(b) {
                        r matches Ok(ev) && ev matches InboundEvent::ExternalDisplay(s) && s@
                            == decode_utf8(b)
                    } else {
                        r is Err
                    },
                    None => r is Err,
                }
            } else if log is Some {
                match spec_note_bytes(log->Some_0) {
                    Some(b) => if valid_utf8(b) {
                        r matches Ok(ev) && ev matches InboundEvent::InternalLog(s) && s@
                            == decode_utf8(b)
                    } else {
                        r is Err
                    },
                    None => r is Err,
                }
            } else if removal is Some {
                r == Ok::<InboundEvent, ReadMessageError>(InboundEvent::CardRemoved)
            } else {
                r matches Ok(ev) && ev matches InboundEvent::Reply(m) && m == message
            }
        },
        _ => r matches Ok(ev) && ev matches InboundEvent::Reply(m) && m == message,
    }
}

/// Looks up the value two tags deep: the root must carry the first tag, and
/// the second selects the first direct child carrying it.
pub fn resolve2<'a>(tlv: &'a Tlv, a: usize, b: usize) -> (r: Option<&'a Value>)
    ensures
        match spec_resolve(tlv@, seq![a as nat, b as nat]) {
            Some(v) => r matches Some(rv) && rv@ == v,
            None => r is None,
        },
{
    let ghost tags = seq![a as nat, b as nat];
    proof {
        assert(tags.len() == 2 && tags[0] == a as nat && tags[1] == b as nat);
        assert(tags.drop_first() =~= seq![b as nat]);
        assert(seq![b as nat][0] == b as nat);
        assert(seq![b as nat].drop_first() =~= Seq::<nat>::empty());
    }
    if tlv.tag() != a {
        return None;
    }
    match tlv.child(b) {
        Ok(c) => {
            proof {
                assert(spec_resolve_in(c@.val, Seq::<nat>::empty()) == Some(c@.val));
            }
            Some(c.val())
        },
        Err(_) => None,
    }
}

/// Reads a notification text value, decoding an explicitly empty value as
/// the empty text.
fn note_text(value: &Value) -> (r: Result<String, ReadMessageError>)
    ensures
        match spec_note_bytes(value@) {
            Some(b) => if valid_utf8(b) {
                r matches Ok(s) && s@ == decode_utf8(b)
            } else {
                r is Err
            },
            None => r is Err,
        },
{
    proof {
        lemma_value_view(value);
    }
    let decoded = match value {
        Value::Val(bytes) => StringAsciiTagValue::from_raw(bytes.as_slice()),
        Value::Nothing => {
            let empty: [u8; 0] = [];
            proof {
                assert(empty@ =~= Seq::<u8>::empty());
            }
            StringAsciiTagValue::from_raw(empty.as_slice())
        },
        Value::TlvList(_) => {
            return Err(ReadMessageError::Other("expected a primitive text value".to_owned()));
        },
    };
    match decoded {
        Ok(s) => {
            let text = s.text().clone();
            Ok(text)
        },
        Err(_) => Err(ReadMessageError::Other("notification text is not UTF-8".to_owned())),
    }
}

/// Classifies one inbound message for the worker: notifications by their
/// paths under the notification template, in display, log, removal order;
/// anything else is a reply for the pending operation.
pub fn classify_inbound(message: ReadMessage) -> (r: Result<InboundEvent, ReadMessageError>)
    ensures
        spec_inbound(message, r),
{
    match message {
        ReadMessage::Do(tlv) => {
            if let Some(v) = resolve2(&tlv, 0xff01, 0xdf46) {
                return match note_text(v) {
                    Ok(s) => Ok(InboundEvent::ExternalDisplay(s)),
                    Err(e) => Err(e),
                };
            }
            if let Some(v) = resolve2(&tlv, 0xff01, 0xdf8154) {
                return match note_text(v) {
                    Ok(s) => Ok(InboundEvent::InternalLog(s)),
                    Err(e) => Err(e),
                };
            }
            if let Some(_) = resolve2(&tlv, 0xff01, 0xdf08) {
                return Ok(InboundEvent::CardRemoved);
            }
            Ok(InboundEvent::Reply(ReadMessage::Do(tlv)))
        },
        other => Ok(InboundEvent::Reply(other)),
    }
}

} // verus!
