use befunge::engine::{Emit, EndAction, Need};
use befunge::protocol::{
    decode_request, encode_request, is_ack, reply_value, request_for_emit, request_for_end,
    request_for_need, tag_shape, PayloadShape, ProtocolError, Request,
};

fn roundtrip(m: Request) {
    let frame = encode_request(&m);
    let back = decode_request(&frame);
    assert_eq!(back, Ok(m));
}

#[test]
fn every_message_kind_roundtrips() {
    roundtrip(Request::OpenConnection);
    roundtrip(Request::Ack);
    roundtrip(Request::Nack);
    roundtrip(Request::DivByZero);
    roundtrip(Request::DivByZeroAns(7));
    roundtrip(Request::ModByZero);
    roundtrip(Request::ModByZeroAns(-3));
    roundtrip(Request::PrintInteger(123456789));
    roundtrip(Request::PrintAscii(65));
    roundtrip(Request::GetInteger);
    roundtrip(Request::GetIntegerAns(-987654321));
    roundtrip(Request::GetAscii);
    roundtrip(Request::GetAsciiAns(10));
    roundtrip(Request::FlushOutput);
    roundtrip(Request::Debug(b"hello".to_vec()));
    roundtrip(Request::CloseConnection);
    roundtrip(Request::CloseUi);
}

#[test]
fn extreme_integers_roundtrip() {
    roundtrip(Request::PrintInteger(i64::MIN));
    roundtrip(Request::PrintInteger(i64::MAX));
    roundtrip(Request::PrintInteger(0));
    roundtrip(Request::PrintInteger(-1));
}

#[test]
fn empty_debug_text_roundtrips() {
    roundtrip(Request::Debug(Vec::new()));
}

#[test]
fn integer_frame_layout_is_big_endian() {
    let frame = encode_request(&Request::PrintInteger(1));
    assert_eq!(frame, vec![8, 0, 0, 0, 0, 0, 0, 0, 1]);
    let frame = encode_request(&Request::PrintInteger(-1));
    assert_eq!(frame, vec![8, 255, 255, 255, 255, 255, 255, 255, 255]);
}

#[test]
fn malformed_frames_are_rejected() {
    let bad = Err(ProtocolError::MalformedFrame);
    assert_eq!(decode_request(&[]), bad);
    assert_eq!(decode_request(&[0]), bad);
    assert_eq!(decode_request(&[18]), bad);
    assert_eq!(decode_request(&[255]), bad);
    // A unit message with a trailing byte.
    assert_eq!(decode_request(&[2, 0]), bad);
    // An integer message cut short.
    assert_eq!(decode_request(&[5, 0, 0, 0]), bad);
    // A character message with too much payload.
    assert_eq!(decode_request(&[9, 65, 66]), bad);
    // Diagnostic text whose length field disagrees with the payload.
    assert_eq!(decode_request(&[15, 0, 0, 0, 2, 120]), bad);
    assert_eq!(decode_request(&[15, 0, 0]), bad);
}

#[test]
fn requests_for_needs() {
    assert_eq!(request_for_need(Need::DivByZero), Request::DivByZero);
    assert_eq!(request_for_need(Need::ModByZero), Request::ModByZero);
    assert_eq!(request_for_need(Need::InputInteger), Request::GetInteger);
    assert_eq!(request_for_need(Need::InputAscii), Request::GetAscii);
}

#[test]
fn requests_for_emits() {
    assert_eq!(request_for_emit(Emit::Integer(9)), Request::PrintInteger(9));
    assert_eq!(request_for_emit(Emit::Ascii(66)), Request::PrintAscii(66));
}

#[test]
fn requests_for_end_actions() {
    assert_eq!(request_for_end(EndAction::CloseUi), Some(Request::CloseUi));
    assert_eq!(request_for_end(EndAction::Flush), Some(Request::FlushOutput));
    assert_eq!(request_for_end(EndAction::Nothing), None);
}

#[test]
fn matching_replies_carry_their_answer() {
    assert_eq!(reply_value(Need::DivByZero, &Request::DivByZeroAns(7)), Ok(7));
    assert_eq!(reply_value(Need::ModByZero, &Request::ModByZeroAns(-2)), Ok(-2));
    assert_eq!(reply_value(Need::InputInteger, &Request::GetIntegerAns(41)), Ok(41));
    assert_eq!(reply_value(Need::InputAscii, &Request::GetAsciiAns(65)), Ok(65));
}

#[test]
fn mismatched_replies_are_protocol_errors() {
    assert_eq!(
        reply_value(Need::DivByZero, &Request::ModByZeroAns(7)),
        Err(ProtocolError::UnexpectedReply)
    );
    assert_eq!(
        reply_value(Need::InputInteger, &Request::Ack),
        Err(ProtocolError::UnexpectedReply)
    );
    assert_eq!(
        reply_value(Need::InputAscii, &Request::Nack),
        Err(ProtocolError::UnexpectedReply)
    );
}

#[test]
fn ack_is_recognised() {
    assert!(is_ack(&Request::Ack));
    assert!(!is_ack(&Request::Nack));
    assert!(!is_ack(&Request::CloseUi));
}

#[test]
fn tag_shapes_cover_the_wire_format() {
    assert_eq!(tag_shape(2), Some(PayloadShape::Empty));
    assert_eq!(tag_shape(5), Some(PayloadShape::Int));
    assert_eq!(tag_shape(9), Some(PayloadShape::Byte));
    assert_eq!(tag_shape(15), Some(PayloadShape::Text));
    assert_eq!(tag_shape(0), None);
    assert_eq!(tag_shape(18), None);
    // Reading one frame with the shape alone recovers every message.
    let m = Request::GetAsciiAns(7);
    let frame = encode_request(&m);
    match tag_shape(frame[0]) {
        Some(PayloadShape::Byte) => assert_eq!(frame.len(), 2),
        other => panic!("expected a one-byte payload, got {other:?}"),
    }
}
