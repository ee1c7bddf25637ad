//! The wire protocol end to end: envelope framing, acknowledgement
//! detection, notification fan-out, and the scripted device operations.

use card_less_reader::device::{ExtDisplayMode, PollEmvPurchase};
use card_less_reader::device_channel::ReadMessage;
use card_less_reader::device::PollEmvResult;
use card_less_reader::device_ops::{
    ack_result, display_mode_from_success, poll_emv_step, poll_timeout_request, poll_transition,
    reply_tlv, serial_from_success, set_display_mode_request, stop_macro_request, success_tlv,
    PollAction, PollEmvStep, PollEvent, PollState,
};
use card_less_reader::dispatcher::{classify_inbound, InboundEvent};
use card_less_reader::error::DeviceError;
use card_less_reader::message_channel::{classify_message, decode_envelope, encode_message, Message};
use card_less_reader::number::calculate_lrc;
use card_less_reader::tlv_parser::{Tlv, Value};

fn envelope(body: &[u8]) -> Vec<u8> {
    let mut buf = body.to_vec();
    buf.push(calculate_lrc(body));
    buf.push(0x03);
    buf
}

#[test]
fn framing_round_trip() {
    let payload: Vec<u8> = vec![0xDF, 0x4D, 0x00];
    let message = Message::Get(payload.clone());
    let encoded = encode_message(&message).unwrap();
    let (opcode, decoded) = decode_envelope(&encoded).unwrap();
    assert_eq!(opcode, 0x3D);
    assert_eq!(decoded, payload);
    // the checksum byte validates over everything before it
    let lrc_index = encoded.len() - 2;
    assert_eq!(encoded[lrc_index], calculate_lrc(&encoded[0..lrc_index]));
}

#[test]
fn framing_rejects_corruption() {
    let message = Message::Do(vec![0x01, 0x01, 0xAA]);
    let mut encoded = encode_message(&message).unwrap();
    let lrc_index = encoded.len() - 2;
    encoded[lrc_index] ^= 0xFF;
    assert!(decode_envelope(&encoded).is_err());
    let mut encoded = encode_message(&message).unwrap();
    encoded[0] = 0x04;
    assert!(decode_envelope(&encoded).is_err());
}

#[test]
fn ack_regardless_of_opcode() {
    // a payload of exactly 00 00 reads as the acknowledgement under all four
    // opcodes
    for opcode in [0x15u8, 0x3C, 0x3D, 0x3E] {
        let m = classify_message(opcode, vec![0x00, 0x00]).unwrap();
        assert!(matches!(m, Message::Ask));
    }
    // other payloads keep their opcode's meaning
    assert!(matches!(classify_message(0x15, vec![0x01, 0x00]).unwrap(), Message::Nack(0x0100)));
    assert!(matches!(classify_message(0x3E, vec![0x01, 0x00]).unwrap(), Message::Do(_)));
    assert!(classify_message(0x44, vec![0x00, 0x00]).is_err());
}

#[test]
fn serial_number_scenario() {
    // host request: Get of the serial-number tag with an empty value
    let request = Tlv::new(0xDF4D, Value::Nothing).unwrap();
    let encoded = encode_message(&Message::Get(request.to_vec())).unwrap();
    assert_eq!(encoded[0..7], [0x02, 0x09, 0x00, 0x3D, 0xDF, 0x4D, 0x00]);
    assert_eq!(encoded.len(), 9);
    assert_eq!(*encoded.last().unwrap(), 0x03);

    // device acknowledgement
    let ack = envelope(&[0x02, 0x05, 0x00, 0x3D, 0x00, 0x00]);
    let (opcode, payload) = decode_envelope(&ack).unwrap();
    let message = classify_message(opcode, payload).unwrap();
    assert!(matches!(message, Message::Ask));

    // device reply carrying the eight-byte serial number
    let reply = envelope(&[
        0x02, 0x10, 0x00, 0x3D, 0xFF, 0x01, 0x0B, 0xDF, 0x4D, 0x08, 0x00, 0x01, 0x02, 0x03, 0xAA,
        0xBB, 0xCC, 0xDD,
    ]);
    let (opcode, payload) = decode_envelope(&reply).unwrap();
    let tlv = match classify_message(opcode, payload).unwrap() {
        Message::Get(p) => Tlv::from_vec(&p).unwrap(),
        _ => panic!("expected a data reply"),
    };
    let tlv = success_tlv(tlv).unwrap();
    let serial = serial_from_success(tlv).unwrap();
    assert_eq!(serial, "1_515_AABBCCDD");
}

#[test]
fn set_display_mode_scenario() {
    let request = set_display_mode_request(&ExtDisplayMode::Full);
    assert_eq!(request.to_vec(), vec![0xDF, 0x46, 0x01, 0x02]);
    // the device acknowledges, then echoes; the echo is read without any
    // further validation
    assert!(ack_result(ReadMessage::Ask).is_ok());
    let echo = Tlv::from_vec(&[0xDF, 0x46, 0x01, 0x02]).unwrap();
    assert!(reply_tlv(ReadMessage::SetOp(echo)).is_ok());
}

#[test]
fn get_display_mode_reply() {
    let reply = Tlv::from_vec(&[0xFF, 0x01, 0x04, 0xDF, 0x46, 0x01, 0x01]).unwrap();
    let reply = success_tlv(reply).unwrap();
    let mode = display_mode_from_success(reply).unwrap();
    assert!(matches!(mode, ExtDisplayMode::Simple));
}

#[test]
fn response_template_policy() {
    let ok = Tlv::from_vec(&[0xFF, 0x01, 0x00]).unwrap();
    assert!(success_tlv(ok).is_ok());
    for root in [[0xFF, 0x02, 0x00], [0xFF, 0x03, 0x00], [0xFF, 0x04, 0x00]] {
        let tlv = Tlv::from_vec(&root).unwrap();
        assert!(matches!(success_tlv(tlv), Err(DeviceError::TlvContent(_, _))));
    }
}

#[test]
fn ack_wait_outcomes() {
    assert!(ack_result(ReadMessage::Ask).is_ok());
    match ack_result(ReadMessage::Nack(7)) {
        Err(DeviceError::Other(m)) => assert_eq!(m, "returned Nack: 7"),
        _ => panic!("expected an error with the code"),
    }
    let data = Tlv::from_vec(&[0x01, 0x00]).unwrap();
    assert!(ack_result(ReadMessage::Do(data)).is_err());
    assert!(reply_tlv(ReadMessage::Ask).is_err());
    assert!(reply_tlv(ReadMessage::Nack(1)).is_err());
}

#[test]
fn poll_requests() {
    assert_eq!(poll_timeout_request(0).to_vec(), vec![0xDF, 0x82, 0x12, 0x02, 0x00, 0x00]);
    assert_eq!(stop_macro_request().to_vec(), vec![0xDF, 0x7D, 0x00]);

    let purchase = PollEmvPurchase::new(1, 643, 1234);
    let request = card_less_reader::device_ops::poll_emv_request(&Some(purchase));
    let bytes = request.to_vec();
    // 9C: type 01; 5F2A: currency 0643 in two BCD bytes; 9F02: amount
    // 000000001234 in six BCD bytes
    assert_eq!(
        bytes,
        vec![
            0xFD, 0x11, 0x9C, 0x01, 0x01, 0x5F, 0x2A, 0x02, 0x06, 0x43, 0x9F, 0x02, 0x06, 0x00,
            0x00, 0x00, 0x00, 0x12, 0x34,
        ],
    );
    let no_purchase = card_less_reader::device_ops::poll_emv_request(&None);
    assert_eq!(no_purchase.to_vec(), vec![0xFD, 0x00]);
}

#[test]
fn poll_reply_steps() {
    // a transient termination reason keeps the poll running
    let collision = Tlv::from_vec(&[0xFF, 0x03, 0x06, 0xF2, 0x04, 0xDF, 0x68, 0x01, 0x06]).unwrap();
    assert!(matches!(poll_emv_step(collision).unwrap(), PollEmvStep::KeepPolling));

    // the terminated reason ends it
    let terminated =
        Tlv::from_vec(&[0xFF, 0x03, 0x06, 0xF2, 0x04, 0xDF, 0x68, 0x01, 0x09]).unwrap();
    assert!(matches!(poll_emv_step(terminated).unwrap(), PollEmvStep::Canceled));

    // an unknown reason code is an error
    let unknown = Tlv::from_vec(&[0xFF, 0x03, 0x06, 0xF2, 0x04, 0xDF, 0x68, 0x01, 0x11]).unwrap();
    assert!(poll_emv_step(unknown).is_err());

    // transaction data under FF01 / FC succeeds
    let success = Tlv::from_vec(&[0xFF, 0x01, 0x05, 0xFC, 0x03, 0x9C, 0x01, 0x55]).unwrap();
    match poll_emv_step(success).unwrap() {
        PollEmvStep::Success(tlv) => assert!(tlv.find_val("FF01 / FC").is_some()),
        _ => panic!("expected the transaction data"),
    }

    // anything else is an unexpected tree, kept in the error
    let other = Tlv::from_vec(&[0xFF, 0x01, 0x04, 0xDF, 0x46, 0x01, 0x01]).unwrap();
    assert!(matches!(poll_emv_step(other), Err(DeviceError::TlvContent(_, _))));
}

#[test]
fn poll_cancellation_drains() {
    // seeing the cancel flag emits the stop-macro request and enters the
    // drain
    let (state, action) = poll_transition(PollState::Polling, PollEvent::CancelSeen);
    let request = match action {
        PollAction::SendStopMacro(t) => t,
        _ => panic!("expected the stop-macro request"),
    };
    assert_eq!(request.to_vec(), vec![0xDF, 0x7D, 0x00]);
    assert!(matches!(state, PollState::Draining));

    // while draining, the flag is ignored
    let (state, action) = poll_transition(state, PollEvent::CancelSeen);
    assert!(matches!(action, PollAction::KeepWaiting));

    // only the drain's success reply ends the poll, and it ends cancelled
    let success = Tlv::from_vec(&[0xFF, 0x01, 0x00]).unwrap();
    let (_, action) = poll_transition(state, PollEvent::Reply(success));
    assert!(matches!(action, PollAction::Finish(PollEmvResult::Canceled)));

    // a faulty drain reply is surfaced, not swallowed
    let bad = Tlv::from_vec(&[0xFF, 0x03, 0x00]).unwrap();
    let (_, action) = poll_transition(PollState::Draining, PollEvent::Reply(bad));
    assert!(matches!(action, PollAction::Fail(_)));
}

#[test]
fn notification_fan_out() {
    // an unsolicited Do carrying display text goes to the display callback,
    // never to the reply side
    let text = Tlv::from_vec(&[0xFF, 0x01, 0x07, 0xDF, 0x46, 0x04, 0x57, 0x41, 0x49, 0x54])
        .unwrap();
    match classify_inbound(ReadMessage::Do(text)).unwrap() {
        InboundEvent::ExternalDisplay(s) => assert_eq!(s, "WAIT"),
        _ => panic!("expected the display notification"),
    }

    // the internal-log path
    let log = Tlv::from_vec(&[0xFF, 0x01, 0x07, 0xDF, 0x81, 0x54, 0x03, 0x6C, 0x6F, 0x67])
        .unwrap();
    match classify_inbound(ReadMessage::Do(log)).unwrap() {
        InboundEvent::InternalLog(s) => assert_eq!(s, "log"),
        _ => panic!("expected the log notification"),
    }

    // the card-removal path
    let removal = Tlv::from_vec(&[0xFF, 0x01, 0x03, 0xDF, 0x08, 0x00]).unwrap();
    assert!(matches!(
        classify_inbound(ReadMessage::Do(removal)).unwrap(),
        InboundEvent::CardRemoved
    ));

    // a Do that matches no notification path is an ordinary reply
    let reply = Tlv::from_vec(&[0xFF, 0x01, 0x05, 0xFC, 0x03, 0x9C, 0x01, 0x55]).unwrap();
    assert!(matches!(
        classify_inbound(ReadMessage::Do(reply)).unwrap(),
        InboundEvent::Reply(ReadMessage::Do(_))
    ));

    // non-Do messages pass straight through
    assert!(matches!(
        classify_inbound(ReadMessage::Ask).unwrap(),
        InboundEvent::Reply(ReadMessage::Ask)
    ));
}

#[test]
fn report_layout() {
    let report = card_less_reader::frame_channel::build_report(&[0xAA, 0xBB]);
    assert_eq!(report.len(), 65);
    assert_eq!(report[0], 0x00);
    assert_eq!(report[1], 2);
    assert_eq!(&report[2..4], [0xAA, 0xBB]);
    assert!(report[4..].iter().all(|&b| b == 0));

    let mut device_report = vec![0u8; 64];
    device_report[0] = 3;
    device_report[1] = 0x10;
    device_report[2] = 0x20;
    device_report[3] = 0x30;
    let payload = card_less_reader::frame_channel::report_payload(&device_report).unwrap();
    assert_eq!(payload, vec![0x10, 0x20, 0x30]);

    device_report[0] = 0xFF;
    assert!(card_less_reader::frame_channel::report_payload(&device_report).is_err());
}
