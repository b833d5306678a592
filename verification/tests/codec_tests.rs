use cli_chat::chat_message::ChatMessage;
use cli_chat::connect::{C2cConnReq, C2cConnResp};
use cli_chat::errors::LengthError;
use cli_chat::message::Message;
use cli_chat::shared::{encode_uname, generate_token, set_uname, token_to_string, uname_to_string};
use cli_chat::signup::{SignupReq, SignupResp};
use cli_chat::status_codes::{decode_status_code, StatusCode};
use cli_chat::verify::{VerifyReq, VerifyResp};
use cli_chat::wire::{first_zero, read_field, u32_from_be_bytes, u32_to_be_bytes};

fn field(name: &str) -> [u8; 50] {
    let mut out = [0u8; 50];
    out[..name.len()].copy_from_slice(name.as_bytes());
    out
}

#[test]
fn big_endian_bytes_are_most_significant_first() {
    assert_eq!(u32_to_be_bytes(0x0102_0304), [1, 2, 3, 4]);
    assert_eq!(u32_to_be_bytes(0), [0, 0, 0, 0]);
    assert_eq!(u32_to_be_bytes(u32::MAX), [255, 255, 255, 255]);
    assert_eq!(u32_to_be_bytes(258), 258u32.to_be_bytes());
}

#[test]
fn big_endian_value_is_read_at_an_offset() {
    let bytes = [9u8, 0, 0, 1, 2, 7];
    assert_eq!(u32_from_be_bytes(&bytes, 1), 258);
    assert_eq!(u32_from_be_bytes(&[255, 255, 255, 255], 0), u32::MAX);
    assert_eq!(u32_from_be_bytes(&0xDEAD_BEEFu32.to_be_bytes(), 0), 0xDEAD_BEEF);
}

#[test]
fn first_zero_is_found() {
    assert_eq!(first_zero(b"ab\0c\0"), 2);
    assert_eq!(first_zero(b"abc"), 3);
    assert_eq!(first_zero(b""), 0);
    assert_eq!(first_zero(&[0u8, 1]), 0);
}

#[test]
fn read_field_copies_the_window() {
    let bytes = [1u8, 2, 3, 4, 5, 6];
    let got: [u8; 3] = read_field(&bytes, 2);
    assert_eq!(got, [3, 4, 5]);
}

#[test]
fn username_is_zero_padded() {
    let encoded = encode_uname("ab").unwrap();
    let mut expected = [0u8; 50];
    expected[0] = b'a';
    expected[1] = b'b';
    assert_eq!(encoded, expected);
    assert_eq!(encoded.len(), 50);
    assert!(encoded[2..].iter().all(|b| *b == 0));
    assert_eq!(uname_to_string(encoded), "ab");
}

#[test]
fn username_of_full_width_has_no_padding() {
    let name = "x".repeat(50);
    let encoded = encode_uname(&name).unwrap();
    assert_eq!(&encoded[..], name.as_bytes());
    assert_eq!(uname_to_string(encoded), name);
}

#[test]
fn username_wider_than_the_field_is_refused() {
    let name = "y".repeat(51);
    assert_eq!(encode_uname(&name), Err(LengthError { expected: 50, actual: 51 }));
    // width is counted in bytes, not characters
    let wide = "é".repeat(26);
    assert_eq!(encode_uname(&wide), Err(LengthError { expected: 50, actual: 52 }));
}

#[test]
fn set_uname_overwrites_the_whole_field() {
    let mut target = field("a-much-longer-name");
    assert_eq!(set_uname(&mut target, "bob"), Ok(()));
    assert_eq!(target, field("bob"));
}

#[test]
fn set_uname_leaves_the_field_on_refusal() {
    let mut target = field("bob");
    let name = "z".repeat(60);
    assert_eq!(set_uname(&mut target, &name), Err(LengthError { expected: 50, actual: 60 }));
    assert_eq!(target, field("bob"));
}

#[test]
fn username_text_stops_at_the_first_zero() {
    let mut raw = field("harry");
    raw[10] = b'!';
    assert_eq!(uname_to_string(raw), "harry");
    assert_eq!(uname_to_string([0u8; 50]), "");
}

#[test]
fn username_text_replaces_invalid_utf8() {
    let mut raw = [0u8; 50];
    raw[0] = 0xff;
    raw[1] = b'a';
    assert_eq!(uname_to_string(raw), "\u{fffd}a");
}

#[test]
fn token_text_is_lower_case_hex() {
    let mut token = [0u8; 32];
    token[0] = 0x0f;
    token[1] = 0xa0;
    token[31] = 0xff;
    let mut expected = String::from("0x0fa0");
    for _ in 0..29 {
        expected.push_str("00");
    }
    expected.push_str("ff");
    assert_eq!(token_to_string(token), expected);
    assert_eq!(token_to_string(token).len(), 66);
}

#[test]
fn generated_tokens_differ() {
    let a = generate_token();
    let b = generate_token();
    assert_eq!(a.len(), 32);
    assert_ne!(a, b);
}

#[test]
fn status_codes_decode() {
    assert_eq!(decode_status_code(0), StatusCode::Success);
    assert_eq!(decode_status_code(1), StatusCode::Failure);
    assert_eq!(decode_status_code(2), StatusCode::Invalid);
    assert_eq!(decode_status_code(200), StatusCode::Invalid);
}

#[test]
fn status_codes_encode_and_name() {
    assert_eq!(StatusCode::Success.to_byte(), 0);
    assert_eq!(StatusCode::Failure.to_byte(), 1);
    assert_eq!(StatusCode::Invalid.to_byte(), 2);
    assert_eq!(StatusCode::Success.to_string(), "Success");
    assert_eq!(StatusCode::Failure.to_string(), "Failure");
    assert_eq!(StatusCode::Invalid.to_string(), "Invalid");
    for code in [StatusCode::Success, StatusCode::Failure, StatusCode::Invalid] {
        assert_eq!(decode_status_code(code.to_byte()), code);
    }
}

#[test]
fn length_error_describes_itself() {
    let e = LengthError { expected: 4, actual: 2 };
    assert_eq!(e.to_string(), "incorrect message/packet length specified");
}

#[test]
fn chat_message_wire_layout() {
    let m = ChatMessage::new("harry", "eddie", "hi").unwrap();
    assert_eq!(m.msg_length, 2);
    assert_eq!(m.send_uname, field("harry"));
    assert_eq!(m.recv_uname, field("eddie"));
    assert_eq!(m.msg_buffer, b"hi".to_vec());
    let bytes = m.serialize();
    assert_eq!(bytes.len(), 106);
    assert_eq!(m.length(), 106);
    assert_eq!(&bytes[..4], &[0, 0, 0, 2]);
    assert_eq!(&bytes[4..54], &field("harry")[..]);
    assert_eq!(&bytes[54..104], &field("eddie")[..]);
    assert_eq!(&bytes[104..], b"hi");
    assert_eq!(ChatMessage::fixed_size(), 104);
}

#[test]
fn chat_message_length_counts_the_payload_held() {
    let mut m = ChatMessage::new("harry", "eddie", "hello").unwrap();
    assert_eq!(m.length(), 109);
    m.msg_length = 2;
    assert_eq!(m.length(), m.serialize().len());
    assert_eq!(m.length(), 109);
    assert_eq!(ChatMessage::empty().length(), 104);
}

#[test]
fn chat_message_round_trip() {
    let m = ChatMessage::new("harry", "eddie", "im not grumba grandpa guy dude no and no").unwrap();
    assert_eq!(ChatMessage::deserialize(&m.serialize()), Ok(m));
}

#[test]
fn chat_message_round_trip_empty_payload() {
    let m = ChatMessage::new("harry", "eddie", "").unwrap();
    assert_eq!(m.msg_length, 0);
    assert_eq!(m.serialize().len(), 104);
    assert_eq!(ChatMessage::deserialize(&m.serialize()), Ok(m));
}

#[test]
fn chat_message_round_trip_full_width_names() {
    let a = "a".repeat(50);
    let b = "b".repeat(50);
    let m = ChatMessage::new(&a, &b, "x").unwrap();
    let back = ChatMessage::deserialize(&m.serialize()).unwrap();
    assert_eq!(back, m);
    assert_eq!(uname_to_string(back.send_uname), a);
    assert_eq!(uname_to_string(back.recv_uname), b);
}

#[test]
fn chat_message_bytes_round_trip() {
    let mut bytes = vec![0u8, 0, 0, 3];
    bytes.extend_from_slice(&[7u8; 100]);
    bytes.extend_from_slice(&[1, 2, 3]);
    let m = ChatMessage::deserialize(&bytes).unwrap();
    assert_eq!(m.serialize(), bytes);
}

#[test]
fn chat_message_ignores_trailing_bytes() {
    let m = ChatMessage::new("harry", "eddie", "hi").unwrap();
    let mut bytes = m.serialize();
    bytes.extend_from_slice(&[9, 9, 9]);
    assert_eq!(ChatMessage::deserialize(&bytes), Ok(m));
}

#[test]
fn chat_message_shorter_than_fixed_part_is_refused() {
    assert_eq!(ChatMessage::deserialize(&[]), Err(LengthError { expected: 104, actual: 0 }));
    assert_eq!(
        ChatMessage::deserialize(&[0u8; 103]),
        Err(LengthError { expected: 104, actual: 103 })
    );
}

#[test]
fn chat_message_with_missing_payload_is_refused() {
    let m = ChatMessage::new("harry", "eddie", "hello").unwrap();
    let bytes = m.serialize();
    assert_eq!(
        ChatMessage::deserialize(&bytes[..bytes.len() - 1]),
        Err(LengthError { expected: 5, actual: 4 })
    );
}

#[test]
fn chat_message_refuses_wide_names() {
    let wide = "n".repeat(51);
    assert_eq!(
        ChatMessage::new(&wide, "eddie", "hi"),
        Err(LengthError { expected: 50, actual: 51 })
    );
    let wider = "n".repeat(70);
    assert_eq!(
        ChatMessage::new("harry", &wider, "hi"),
        Err(LengthError { expected: 50, actual: 70 })
    );
    // the sender is looked at first
    assert_eq!(
        ChatMessage::new(&wide, &wider, "hi"),
        Err(LengthError { expected: 50, actual: 51 })
    );
}

#[test]
fn chat_message_empty_is_all_zero() {
    let m = ChatMessage::empty();
    assert_eq!(m.msg_length, 0);
    assert_eq!(m.send_uname, [0u8; 50]);
    assert_eq!(m.recv_uname, [0u8; 50]);
    assert!(m.msg_buffer.is_empty());
    assert_eq!(m.serialize(), vec![0u8; 104]);
}

#[test]
fn client_message_matches_chat_message_on_the_wire() {
    let m = Message::new("harry", "eddie", "hi").unwrap();
    let c = ChatMessage::new("harry", "eddie", "hi").unwrap();
    assert_eq!(m.serialize(), c.serialize());
    assert_eq!(Message::deserialize(&c.serialize()), Ok(m));
    assert_eq!(Message::fixed_size(), 104);
}

#[test]
fn client_message_is_filled_field_by_field() {
    let mut m = Message::empty();
    assert_eq!(m.serialize(), vec![0u8; 104]);
    assert_eq!(m.set_send_uname("harry"), Ok(()));
    assert_eq!(m.set_recv_uname("kerry"), Ok(()));
    assert_eq!(m.set_message("I'm feeling "), Ok(()));
    assert_eq!(m.set_message("quite cheerful today!"), Ok(()));
    assert_eq!(m.msglen, 33);
    assert_eq!(m.message, b"I'm feeling quite cheerful today!".to_vec());
    assert_eq!(m, Message::new("harry", "kerry", "I'm feeling quite cheerful today!").unwrap());
}

#[test]
fn client_message_refuses_wide_names() {
    let mut m = Message::new("harry", "kerry", "x").unwrap();
    let wide = "w".repeat(51);
    assert_eq!(m.set_send_uname(&wide), Err(LengthError { expected: 50, actual: 51 }));
    assert_eq!(m.set_recv_uname(&wide), Err(LengthError { expected: 50, actual: 51 }));
    assert_eq!(m, Message::new("harry", "kerry", "x").unwrap());
    assert_eq!(Message::new(&wide, "kerry", "x"), Err(LengthError { expected: 50, actual: 51 }));
}

#[test]
fn client_message_truncated_is_refused() {
    assert_eq!(Message::deserialize(&[0u8; 10]), Err(LengthError { expected: 104, actual: 10 }));
    let mut bytes = vec![0u8, 0, 0, 9];
    bytes.extend_from_slice(&[0u8; 100]);
    bytes.extend_from_slice(&[1, 2]);
    assert_eq!(Message::deserialize(&bytes), Err(LengthError { expected: 9, actual: 2 }));
}

#[test]
fn verify_req_round_trip() {
    let token = [0xabu8; 32];
    let m = VerifyReq::new("snacky", token).unwrap();
    let bytes = m.serialize();
    assert_eq!(bytes.len(), 82);
    assert_eq!(m.length(), 82);
    assert_eq!(VerifyReq::fixed_size(), 82);
    assert_eq!(&bytes[..50], &field("snacky")[..]);
    assert_eq!(&bytes[50..], &token[..]);
    assert_eq!(VerifyReq::deserialize(&bytes), Ok(m));
}

#[test]
fn verify_req_round_trip_full_width() {
    let name = "q".repeat(50);
    let m = VerifyReq::new(&name, [0xffu8; 32]).unwrap();
    assert_eq!(VerifyReq::deserialize(&m.serialize()), Ok(m));
}

#[test]
fn verify_req_truncated_is_refused() {
    assert_eq!(VerifyReq::deserialize(&[0u8; 81]), Err(LengthError { expected: 82, actual: 81 }));
    assert_eq!(VerifyReq::deserialize(&[]), Err(LengthError { expected: 82, actual: 0 }));
}

#[test]
fn verify_req_ignores_trailing_bytes() {
    let m = VerifyReq::new("snacky", [3u8; 32]).unwrap();
    let mut bytes = m.serialize();
    bytes.push(1);
    assert_eq!(VerifyReq::deserialize(&bytes), Ok(m));
}

#[test]
fn verify_req_refuses_wide_name() {
    let name = "q".repeat(51);
    assert_eq!(VerifyReq::new(&name, [0u8; 32]), Err(LengthError { expected: 50, actual: 51 }));
}

#[test]
fn verify_req_empty_is_all_zero() {
    assert_eq!(VerifyReq::empty().serialize(), vec![0u8; 82]);
}

#[test]
fn verify_resp_round_trip() {
    for code in [StatusCode::Success, StatusCode::Failure, StatusCode::Invalid] {
        let m = VerifyResp::new(code);
        assert_eq!(m.serialize(), vec![code.to_byte()]);
        assert_eq!(m.length(), 1);
        assert_eq!(VerifyResp::deserialize(&m.serialize()), Ok(m));
    }
    assert_eq!(VerifyResp::fixed_size(), 1);
}

#[test]
fn verify_resp_unknown_status_is_invalid() {
    assert_eq!(VerifyResp::deserialize(&[77]), Ok(VerifyResp::new(StatusCode::Invalid)));
}

#[test]
fn verify_resp_truncated_is_refused() {
    assert_eq!(VerifyResp::deserialize(&[]), Err(LengthError { expected: 1, actual: 0 }));
}

#[test]
fn test_verify_resp() {
    let verify_resp = VerifyResp::new(StatusCode::Success);
    assert_eq!(format!("{:?}", verify_resp), "VerifyResp { status_code: Success }");
}

#[test]
fn signup_req_round_trip() {
    let m = SignupReq::new("snacky").unwrap();
    assert_eq!(m.serialize(), field("snacky").to_vec());
    assert_eq!(m.length(), 50);
    assert_eq!(SignupReq::fixed_size(), 50);
    assert_eq!(SignupReq::deserialize(&m.serialize()), Ok(m));
    let full = SignupReq::new(&"u".repeat(50)).unwrap();
    assert_eq!(SignupReq::deserialize(&full.serialize()), Ok(full));
    assert_eq!(SignupReq::empty().serialize(), vec![0u8; 50]);
}

#[test]
fn signup_req_truncated_or_wide_is_refused() {
    assert_eq!(SignupReq::deserialize(&[0u8; 49]), Err(LengthError { expected: 50, actual: 49 }));
    assert_eq!(SignupReq::new(&"u".repeat(51)), Err(LengthError { expected: 50, actual: 51 }));
}

#[test]
fn signup_resp_round_trip() {
    let token = [0x5au8; 32];
    let m = SignupResp::with_token(StatusCode::Failure, token);
    let bytes = m.serialize();
    assert_eq!(bytes.len(), 33);
    assert_eq!(m.length(), 33);
    assert_eq!(SignupResp::fixed_size(), 33);
    assert_eq!(bytes[0], 1);
    assert_eq!(&bytes[1..], &token[..]);
    assert_eq!(SignupResp::deserialize(&bytes), Ok(m));
}

#[test]
fn signup_resp_new_keeps_the_status() {
    let m = SignupResp::new(StatusCode::Success);
    assert_eq!(m.status_code, StatusCode::Success);
    assert_eq!(SignupResp::deserialize(&m.serialize()), Ok(m));
}

#[test]
fn signup_resp_truncated_is_refused() {
    assert_eq!(SignupResp::deserialize(&[0u8; 32]), Err(LengthError { expected: 33, actual: 32 }));
}

#[test]
fn signup_resp_unknown_status_is_invalid() {
    let mut bytes = vec![9u8];
    bytes.extend_from_slice(&[4u8; 32]);
    assert_eq!(
        SignupResp::deserialize(&bytes),
        Ok(SignupResp::with_token(StatusCode::Invalid, [4u8; 32]))
    );
}

#[test]
fn conn_req_round_trip() {
    let m = C2cConnReq::new("harry", "kerry").unwrap();
    let bytes = m.serialize();
    assert_eq!(bytes.len(), 100);
    assert_eq!(m.length(), 100);
    assert_eq!(C2cConnReq::fixed_size(), 100);
    assert_eq!(&bytes[..50], &field("harry")[..]);
    assert_eq!(&bytes[50..], &field("kerry")[..]);
    assert_eq!(C2cConnReq::deserialize(&bytes), Ok(m));
}

#[test]
fn conn_req_truncated_or_wide_is_refused() {
    assert_eq!(C2cConnReq::deserialize(&[0u8; 99]), Err(LengthError { expected: 100, actual: 99 }));
    let wide = "k".repeat(51);
    assert_eq!(C2cConnReq::new(&wide, "kerry"), Err(LengthError { expected: 50, actual: 51 }));
    assert_eq!(C2cConnReq::new("harry", &wide), Err(LengthError { expected: 50, actual: 51 }));
}

#[test]
fn conn_resp_round_trip() {
    let m = C2cConnResp::new("harry", "kerry", 1).unwrap();
    let bytes = m.serialize();
    assert_eq!(bytes.len(), 101);
    assert_eq!(m.length(), 101);
    assert_eq!(C2cConnResp::fixed_size(), 101);
    assert_eq!(bytes[100], 1);
    assert_eq!(C2cConnResp::deserialize(&bytes), Ok(m));
    let full = C2cConnResp::new(&"h".repeat(50), &"k".repeat(50), 255).unwrap();
    assert_eq!(C2cConnResp::deserialize(&full.serialize()), Ok(full));
}

#[test]
fn conn_resp_truncated_or_wide_is_refused() {
    assert_eq!(
        C2cConnResp::deserialize(&[0u8; 100]),
        Err(LengthError { expected: 101, actual: 100 })
    );
    let wide = "k".repeat(52);
    assert_eq!(C2cConnResp::new("harry", &wide, 0), Err(LengthError { expected: 50, actual: 52 }));
}
