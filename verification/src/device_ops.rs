//! The device operations' decision logic: every high-level command is a
//! scripted write → acknowledgement → reply sequence, and the functions here
//! decide each step from the message alone, so the loop that performs the
//! waiting holds no protocol knowledge.

use vstd::prelude::*;

use crate::device::{ExtDisplayMode, PollEmvPurchase, PollEmvResult};
use crate::device_channel::ReadMessage;
use crate::dispatcher::resolve2;
use crate::error::DeviceError;
use crate::tag_value::{
    spec_annex_e_code, spec_bcd, spec_display_mode_code, spec_pow10, AnnexE, AnnexETagValue,
    ExternalDisplayModeTagValue, IntTagValue, SerialNumberTagValue, U16BigEndianTagValue,
};
use crate::text::{push_decimal, spec_decimal, spec_hex};
use crate::tlv_parser::{
    lemma_value_view, spec_constructed, spec_resolve, spec_resolve_in, SpecTlv, SpecValue,
    TagValue, Tlv, Value,
};

verus! {

/// Which side of the primitive/constructed split each protocol tag falls on.
proof fn lemma_protocol_tags()
    ensures
        !spec_constructed(0xdf46),
        !spec_constructed(0xdf8212),
        !spec_constructed(0xdf7d),
        !spec_constructed(0x9c),
        !spec_constructed(0x5f2a),
        !spec_constructed(0x9f02),
        spec_constructed(0xfd),
{
    reveal_with_fuel(spec_constructed, 4);
    assert(0xdfu8 & 0x20 != 0x20) by (bit_vector);
    assert(0x9cu8 & 0x20 != 0x20) by (bit_vector);
    assert(0x5fu8 & 0x20 != 0x20) by (bit_vector);
    assert(0x9fu8 & 0x20 != 0x20) by (bit_vector);
    assert(0xfdu8 & 0x20 == 0x20) by (bit_vector);
}

/// How the acknowledgement wait after a write ends: the two-byte
/// acknowledgement succeeds, a refusal fails with its code, and a data
/// message in place of an acknowledgement is a protocol fault.
pub fn ack_result(message: ReadMessage) -> (r: Result<(), DeviceError>)
    ensures
        message is Ask <==> r is Ok,
        message matches ReadMessage::Nack(code) ==> (r matches Err(DeviceError::Other(m)) && m@
            == "returned Nack: "@ + spec_decimal(code as nat)),
        message is Do || message is Get || message is SetOp ==> (r matches Err(
            DeviceError::Other(m),
        ) && m@ == "returned a data message, expected the acknowledgement"@),
{
    match message {
        ReadMessage::Ask => Ok(()),
        ReadMessage::Nack(code) => {
            let mut m = "returned Nack: ".to_owned();
            push_decimal(code as u64, &mut m);
            Err(DeviceError::Other(m))
        },
        _ => Err(DeviceError::Other("returned a data message, expected the acknowledgement".to_owned())),
    }
}

/// How a data wait ends: a data message yields its tree, while an
/// acknowledgement or refusal here is a protocol fault.
pub fn reply_tlv(message: ReadMessage) -> (r: Result<Tlv, DeviceError>)
    ensures
        message matches ReadMessage::Do(t) ==> (r matches Ok(rt) && rt == t),
        message matches ReadMessage::Get(t) ==> (r matches Ok(rt) && rt == t),
        message matches ReadMessage::SetOp(t) ==> (r matches Ok(rt) && rt == t),
        message is Ask || message is Nack ==> r is Err,
{
    match message {
        ReadMessage::Ask => Err(
            DeviceError::Other("returned Ack message not expected".to_owned()),
        ),
        ReadMessage::Nack(code) => {
            let mut m = "returned Nack(".to_owned();
            push_decimal(code as u64, &mut m);
            m.append(") message not expected");
            Err(DeviceError::Other(m))
        },
        ReadMessage::Do(tlv) | ReadMessage::Get(tlv) | ReadMessage::SetOp(tlv) => Ok(tlv),
    }
}

/// Holds a reply tree to the response-template policy: the success template
/// 0xFF01 passes through, 0xFF02 reports unsupported instructions, 0xFF03
/// failed instructions, and any other root is unexpected; each failure keeps
/// the offending tree.
pub fn success_tlv(tlv: Tlv) -> (r: Result<Tlv, DeviceError>)
    ensures
        tlv@.tag == 0xff01 <==> (r matches Ok(rt) && rt == tlv),
        tlv@.tag != 0xff01 ==> (r matches Err(DeviceError::TlvContent(m, rt)) && rt == tlv),
{
    let tag = tlv.tag();
    if tag == 0xff01 {
        Ok(tlv)
    } else if tag == 0xff02 {
        Err(
            DeviceError::TlvContent(
                "Tag and length of Unsupported Instruction/s. Template contains chained tags and length of the instruction / s not supported by the PCD".to_owned(),
                tlv,
            ),
        )
    } else if tag == 0xff03 {
        Err(
            DeviceError::TlvContent(
                "Tag and length of Failed Instruction/s. Template contains chained tags and length of the instruction / s that failed; an error number may be added".to_owned(),
                tlv,
            ),
        )
    } else {
        Err(DeviceError::TlvContent("Expected ResponseTemplates tag".to_owned(), tlv))
    }
}

/// The serial-number text a success reply yields: the board version and
/// partial part number in decimal and the unique identifier in upper-case
/// hexadecimal, joined by underscores.
pub open spec fn spec_serial_text(b: Seq<u8>) -> Seq<char> {
    spec_decimal((b[0] * 256 + b[1]) as nat) + "_"@ + spec_decimal((b[2] * 256 + b[3]) as nat)
        + "_"@ + spec_hex(b.subrange(4, 8))
}

/// Extracts and formats the serial number out of a success reply: the value
/// under 0xFF01 / 0xDF4D must be a primitive of exactly eight bytes.
pub fn serial_from_success(tlv: Tlv) -> (r: Result<String, DeviceError>)
    ensures
        match spec_resolve(tlv@, seq![0xff01 as nat, 0xdf4d as nat]) {
            Some(v) => match v {
                SpecValue::Bytes(b) => if b.len() == 8 {
                    r matches Ok(s) && s@ == spec_serial_text(b)
                } else {
                    r is Err
                },
                _ => r is Err,
            },
            None => r matches Err(DeviceError::TlvContent(m, rt)) && rt == tlv && m@
                == "expected serial number tag"@,
        },
{
    let value = match resolve2(&tlv, 0xff01, 0xdf4d) {
        Some(v) => v,
        None => {
            return Err(DeviceError::TlvContent("expected serial number tag".to_owned(), tlv));
        },
    };
    proof {
        lemma_value_view(value);
    }
    let bytes = match value {
        Value::Val(b) => b,
        _ => {
            return Err(DeviceError::MessageChannel("expected a primitive serial value".to_owned()));
        },
    };
    let sn = match SerialNumberTagValue::from_raw(bytes.as_slice()) {
        Ok(s) => s,
        Err(e) => {
            return Err(DeviceError::from_tlv(&e));
        },
    };
    let mut out = String::new();
    push_decimal(sn.get_bom_version() as u64, &mut out);
    out.append("_");
    push_decimal(sn.get_partial_pn() as u64, &mut out);
    out.append("_");
    let unique = sn.get_unique_id();
    out.append(unique.as_str());
    proof {
        assert(out@ =~= spec_serial_text(bytes@));
    }
    Ok(out)
}

/// Extracts the external display mode out of a success reply: the value
/// under 0xFF01 / 0xDF46 must be a primitive of one known mode byte.
pub fn display_mode_from_success(tlv: Tlv) -> (r: Result<ExtDisplayMode, DeviceError>)
    ensures
        match spec_resolve(tlv@, seq![0xff01 as nat, 0xdf46 as nat]) {
            Some(v) => match v {
                SpecValue::Bytes(b) => if b.len() == 1 && b[0] <= 2 {
                    r matches Ok(m) && spec_display_mode_code(m) == b[0]
                } else {
                    r is Err
                },
                _ => r is Err,
            },
            None => r matches Err(DeviceError::TlvContent(m, rt)) && rt == tlv && m@
                == "expected external display mode tag"@,
        },
{
    let value = match resolve2(&tlv, 0xff01, 0xdf46) {
        Some(v) => v,
        None => {
            return Err(
                DeviceError::TlvContent("expected external display mode tag".to_owned(), tlv),
            );
        },
    };
    proof {
        lemma_value_view(value);
    }
    let bytes = match value {
        Value::Val(b) => b,
        _ => {
            return Err(DeviceError::MessageChannel("expected a primitive mode value".to_owned()));
        },
    };
    match ExternalDisplayModeTagValue::from_raw(bytes.as_slice()) {
        Ok(mode) => Ok(mode.value()),
        Err(e) => Err(DeviceError::from_tlv(&e)),
    }
}

/// Builds the set-display-mode request: the mode byte under tag 0xDF46.
pub fn set_display_mode_request(value: &ExtDisplayMode) -> (r: Tlv)
    ensures
        r@ == (SpecTlv {
            tag: 0xdf46,
            val: SpecValue::Bytes(seq![spec_display_mode_code(*value)]),
        }),
{
    proof {
        lemma_protocol_tags();
    }
    Tlv::new_spec(0xdf46, ExternalDisplayModeTagValue::new(*value)).unwrap()
}

/// Builds the set-poll-timeout request: the 16-bit timeout under tag
/// 0xDF8212; zero disables the device-side clock.
pub fn poll_timeout_request(value: u16) -> (r: Tlv)
    ensures
        r@ == (SpecTlv {
            tag: 0xdf8212,
            val: SpecValue::Bytes(seq![(value / 256) as u8, (value % 256) as u8]),
        }),
{
    proof {
        lemma_protocol_tags();
    }
    Tlv::new_spec(0xdf8212, U16BigEndianTagValue::new(value)).unwrap()
}

/// Builds the stop-macro request: tag 0xDF7D with no value.
pub fn stop_macro_request() -> (r: Tlv)
    ensures
        r@ == (SpecTlv { tag: 0xdf7d, val: SpecValue::Nothing }),
{
    let nothing = Value::Nothing;
    proof {
        lemma_value_view(&nothing);
    }
    Tlv::new(0xdf7d, nothing).unwrap()
}

/// Builds the poll request under tag 0xFD: with a purchase, its type byte,
/// the currency as four BCD digits and the amount as twelve BCD digits;
/// without one, an empty value.
pub fn poll_emv_request(purchase: &Option<PollEmvPurchase>) -> (r: Tlv)
    requires
        purchase matches Some(p) ==> p.currency_code < 10000 && p.amount
            < 1000_000_000_000,
    ensures
        purchase matches Some(p) ==> r@ == (SpecTlv {
            tag: 0xfd,
            val: SpecValue::List(
                seq![
                    SpecTlv { tag: 0x9c, val: SpecValue::Bytes(seq![p.p_type]) },
                    SpecTlv {
                        tag: 0x5f2a,
                        val: SpecValue::Bytes(spec_bcd(p.currency_code as nat, 4)),
                    },
                    SpecTlv { tag: 0x9f02, val: SpecValue::Bytes(spec_bcd(p.amount as nat, 12)) },
                ],
            ),
        }),
        purchase is None ==> r@ == (SpecTlv { tag: 0xfd, val: SpecValue::Nothing }),
{
    match purchase {
        Some(p) => {
            proof {
                lemma_protocol_tags();
                assert(spec_pow10(4) == 10000 && spec_pow10(12) == 1000_000_000_000) by {
                    reveal_with_fuel(spec_pow10, 13);
                }
            }
            let mut type_bytes: Vec<u8> = Vec::new();
            type_bytes.push(p.p_type);
            let type_val = Value::Val(type_bytes);
            proof {
                lemma_value_view(&type_val);
                assert(type_val@->Bytes_0 =~= seq![p.p_type]);
            }
            let t_type = Tlv::new(0x9c, type_val).unwrap();
            let t_currency = Tlv::new_spec(
                0x5f2a,
                IntTagValue::new((p.currency_code as u64, 4)),
            ).unwrap();
            let t_amount = Tlv::new_spec(0x9f02, IntTagValue::new((p.amount, 12))).unwrap();
            let ghost c0 = t_type;
            let ghost c1 = t_currency;
            let ghost c2 = t_amount;
            let mut children: Vec<Tlv> = Vec::new();
            children.push(t_type);
            children.push(t_currency);
            children.push(t_amount);
            proof {
                assert(children@ =~= seq![c0, c1, c2]);
                crate::tlv_parser::lemma_view_of_list_props(children@);
                crate::tlv_parser::lemma_tlv_view(c0);
                crate::tlv_parser::lemma_tlv_view(c1);
                crate::tlv_parser::lemma_tlv_view(c2);
            }
            let list_val = Value::TlvList(children);
            proof {
                lemma_value_view(&list_val);
            }
            let r = Tlv::new(0xfd, list_val).unwrap();
            proof {
                assert(r@.val->List_0 =~= seq![
                    SpecTlv { tag: 0x9c, val: SpecValue::Bytes(seq![p.p_type]) },
                    SpecTlv {
                        tag: 0x5f2a,
                        val: SpecValue::Bytes(spec_bcd(p.currency_code as nat, 4)),
                    },
                    SpecTlv { tag: 0x9f02, val: SpecValue::Bytes(spec_bcd(p.amount as nat, 12)) },
                ]);
            }
            r
        },
        None => {
            let nothing = Value::Nothing;
            proof {
                lemma_value_view(&nothing);
            }
            Tlv::new(0xfd, nothing).unwrap()
        },
    }
}

/// What one poll reply means for the polling loop.
pub enum PollEmvStep {
    /// The device reported the transaction terminated: the poll is over.
    Canceled,
    /// A transient termination reason: keep polling, the device will send
    /// more.
    KeepPolling,
    /// The final transaction data arrived.
    Success(Tlv),
}

/// Decides one poll reply: a termination reason under 0xFF03 / 0xF2 / 0xDF68
/// either ends the poll (the terminated code) or keeps it running (any other
/// reason); otherwise data under 0xFF01 / 0xFC is the transaction's result;
/// any other tree is unexpected and kept in the error.
pub fn poll_emv_step(tlv: Tlv) -> (r: Result<PollEmvStep, DeviceError>)
    ensures
        match spec_resolve(tlv@, seq![0xff03 as nat, 0xf2 as nat, 0xdf68 as nat]) {
            Some(v) => match v {
                SpecValue::Bytes(b) => if b =~= seq![spec_annex_e_code(
                    AnnexE::EmvTransactionTerminated,
                )] {
                    r matches Ok(s) && s is Canceled
                } else if b.len() == 1 && (b[0] == 0x06 || b[0] == 0x29 || b[0] == 0x2a || b[0]
                    == 0x2b) {
                    r matches Ok(s) && s is KeepPolling
                } else {
                    r is Err
                },
                _ => r is Err,
            },
            None => if spec_resolve(tlv@, seq![0xff01 as nat, 0xfc as nat]) is Some {
                r matches Ok(s) && s matches PollEmvStep::Success(t) && t == tlv
            } else {
                r matches Err(DeviceError::TlvContent(m, rt)) && rt == tlv && m@
                    == "invalid response TLV"@
            },
        },
{
    let terminate = match resolve3(&tlv, 0xff03, 0xf2, 0xdf68) {
        Some(v) => {
            proof {
                lemma_value_view(v);
            }
            match v {
                Value::Val(b) => {
                    match AnnexETagValue::from_raw(b.as_slice()) {
                        Ok(a) => Some(a.value()),
                        Err(e) => {
                            return Err(DeviceError::from_tlv(&e));
                        },
                    }
                },
                _ => {
                    return Err(
                        DeviceError::MessageChannel(
                            "expected a primitive termination value".to_owned(),
                        ),
                    );
                },
            }
        },
        None => None,
    };
    match terminate {
        Some(AnnexE::EmvTransactionTerminated) => Ok(PollEmvStep::Canceled),
        Some(_) => Ok(PollEmvStep::KeepPolling),
        None => {
            if resolve2(&tlv, 0xff01, 0xfc).is_some() {
                Ok(PollEmvStep::Success(tlv))
            } else {
                Err(DeviceError::TlvContent("invalid response TLV".to_owned(), tlv))
            }
        },
    }
}

/// Looks up the value three tags deep, each step selecting the first direct
/// child carrying the tag.
pub fn resolve3<'a>(tlv: &'a Tlv, a: usize, b: usize, c: usize) -> (r: Option<&'a Value>)
    ensures
        match spec_resolve(tlv@, seq![a as nat, b as nat, c as nat]) {
            Some(v) => r matches Some(rv) && rv@ == v,
            None => r is None,
        },
{
    let ghost tags = seq![a as nat, b as nat, c as nat];
    proof {
        assert(tags.len() == 3 && tags[0] == a as nat && tags[1] == b as nat && tags[2]
            == c as nat);
        assert(tags.drop_first() =~= seq![b as nat, c as nat]);
        assert(seq![b as nat, c as nat][0] == b as nat);
        assert(seq![b as nat, c as nat].drop_first() =~= seq![c as nat]);
        assert(seq![c as nat][0] == c as nat);
        assert(seq![c as nat].drop_first() =~= Seq::<nat>::empty());
    }
    if tlv.tag() != a {
        return None;
    }
    let mid = match tlv.child(b) {
        Ok(m) => m,
        Err(_) => {
            return None;
        },
    };
    proof {
        assert(spec_resolve(tlv@, tags) == spec_resolve_in(mid@.val, seq![c as nat]));
    }
    match mid.child(c) {
        Ok(leaf) => {
            proof {
                assert(spec_resolve_in(leaf@.val, Seq::<nat>::empty()) == Some(leaf@.val));
            }
            Some(leaf.val())
        },
        Err(_) => None,
    }
}

/// Where a cancellable poll stands.
#[derive(Clone, Copy)]
pub enum PollState {
    /// Waiting for the device's next poll reply, watching the cancel flag.
    Polling,
    /// The cancel flag fired and the stop-macro request went out: waiting
    /// for its success reply, no longer watching the flag.
    Draining,
}

/// What happened while the poll waited.
pub enum PollEvent {
    /// A reply tree arrived.
    Reply(Tlv),
    /// The cancel flag was seen set.
    CancelSeen,
}

/// What the poll loop must do next.
pub enum PollAction {
    /// Keep waiting for the next reply.
    KeepWaiting,
    /// Write this stop-macro request (and await its acknowledgement), then
    /// keep reading with the flag ignored.
    SendStopMacro(Tlv),
    /// The poll is over: hand this to the caller.
    Finish(PollEmvResult),
    /// The reply was faulty: surface this error.
    Fail(DeviceError),
}

/// One step of the cancellable poll.  Cancellation always drains: seeing the
/// flag emits the stop-macro request, and from then on the poll ends only
/// with the drain's success reply — the final equivalence states that a
/// cancelled outcome is returned in exactly those two cases, the device's
/// own terminated reason or a completed drain.
pub fn poll_transition(state: PollState, event: PollEvent) -> (r: (PollState, PollAction))
    ensures
        state is Polling && event is CancelSeen ==> r.0 is Draining && (r.1 matches
            PollAction::SendStopMacro(t) && t@ == (SpecTlv {
            tag: 0xdf7d,
            val: SpecValue::Nothing,
        })),
        state is Draining && event is CancelSeen ==> r.0 is Draining && r.1 is KeepWaiting,
        event matches PollEvent::Reply(t) ==> (state is Draining ==> if t@.tag == 0xff01 {
            r.1 matches PollAction::Finish(o) && o is Canceled
        } else {
            r.1 matches PollAction::Fail(e) && e matches DeviceError::TlvContent(_, rt) && t == rt
        }),
        event matches PollEvent::Reply(t) ==> (state is Polling ==> match spec_resolve(
            t@,
            seq![0xff03 as nat, 0xf2 as nat, 0xdf68 as nat],
        ) {
            Some(v) => match v {
                SpecValue::Bytes(b) => if b =~= seq![spec_annex_e_code(
                    AnnexE::EmvTransactionTerminated,
                )] {
                    r.1 matches PollAction::Finish(o) && o is Canceled
                } else if b.len() == 1 && (b[0] == 0x06 || b[0] == 0x29 || b[0] == 0x2a || b[0]
                    == 0x2b) {
                    r.0 is Polling && r.1 is KeepWaiting
                } else {
                    r.1 is Fail
                },
                _ => r.1 is Fail,
            },
            None => if spec_resolve(t@, seq![0xff01 as nat, 0xfc as nat]) is Some {
                r.1 matches PollAction::Finish(o) && o matches PollEmvResult::Success(rt) && rt
                    == t
            } else {
                r.1 is Fail
            },
        }),
        // cancellation drains: a cancelled outcome arises exactly from the
        // device's own terminated reason or from the drain's success reply
        (r.1 matches PollAction::Finish(o) && o is Canceled) <==> ((state is Draining && (
        event matches PollEvent::Reply(t) && t@.tag == 0xff01)) || (state is Polling && (
        event matches PollEvent::Reply(t) && spec_resolve(
            t@,
            seq![0xff03 as nat, 0xf2 as nat, 0xdf68 as nat],
        ) matches Some(SpecValue::Bytes(b)) && b =~= seq![spec_annex_e_code(
            AnnexE::EmvTransactionTerminated,
        )]))),
{
    match (state, event) {
        (PollState::Polling, PollEvent::CancelSeen) => (
            PollState::Draining,
            PollAction::SendStopMacro(stop_macro_request()),
        ),
        (PollState::Draining, PollEvent::CancelSeen) => (
            PollState::Draining,
            PollAction::KeepWaiting,
        ),
        (PollState::Draining, PollEvent::Reply(tlv)) => match success_tlv(tlv) {
            Ok(_) => (PollState::Draining, PollAction::Finish(PollEmvResult::Canceled)),
            Err(e) => (PollState::Draining, PollAction::Fail(e)),
        },
        (PollState::Polling, PollEvent::Reply(tlv)) => match poll_emv_step(tlv) {
            Ok(PollEmvStep::Canceled) => (
                PollState::Polling,
                PollAction::Finish(PollEmvResult::Canceled),
            ),
            Ok(PollEmvStep::KeepPolling) => (PollState::Polling, PollAction::KeepWaiting),
            Ok(PollEmvStep::Success(t)) => (
                PollState::Polling,
                PollAction::Finish(PollEmvResult::Success(t)),
            ),
            Err(e) => (PollState::Polling, PollAction::Fail(e)),
        },
    }
}

} // verus!
