use discord_ipc::error::ClientError;
use discord_ipc::protocol::{
    command_body, command_frame, extract_payload, handshake, handshake_body, recv, send,
    Commands, OpCode, Payload,
};
use discord_ipc::wire::{encode_frame, split_frame};
use serde_json::Value;

fn json(text: &str) -> Value {
    serde_json::from_str(text).unwrap()
}

#[test]
fn opcodes_have_the_numbers_of_the_host_protocol() {
    assert_eq!(OpCode::Handshake.code(), 0);
    assert_eq!(OpCode::Message.code(), 1);
}

#[test]
fn command_name_is_set_activity() {
    assert_eq!(Commands::SetActivity.as_string(), "SET_ACTIVITY");
}

#[test]
fn handshake_body_holds_version_and_client_id() {
    let body = handshake_body("123");
    assert_eq!(body, json(r#"{"v":1,"client_id":"123"}"#));
    assert_eq!(body.as_object().unwrap().len(), 2);
}

#[test]
fn handshake_frame_has_opcode_zero_and_the_body() {
    let frame = handshake("4242").unwrap();
    let (opcode, body) = split_frame(&frame).unwrap();
    assert_eq!(opcode, 0);
    assert_eq!(body, br#"{"client_id":"4242","v":1}"#);
}

#[test]
fn handshake_escapes_the_client_id() {
    let frame = handshake("a\"b").unwrap();
    let (opcode, value) = recv(&frame).unwrap();
    assert_eq!(opcode, 0);
    assert_eq!(value["client_id"], Value::String("a\"b".to_string()));
}

#[test]
fn command_body_wraps_the_payload() {
    let payload = Payload::new("activity".to_string(), json(r#"{"state":"x"}"#));
    let body = command_body(payload, 77, "tag");
    assert_eq!(
        body,
        json(r#"{"cmd":"SET_ACTIVITY","args":{"pid":77,"activity":{"state":"x"}},"nonce":"tag"}"#)
    );
}

#[test]
fn command_event_named_pid_replaces_the_process_id() {
    let payload = Payload::new("pid".to_string(), json("\"mine\""));
    let body = command_body(payload, 77, "tag");
    assert_eq!(body, json(r#"{"cmd":"SET_ACTIVITY","args":{"pid":"mine"},"nonce":"tag"}"#));
}

#[test]
fn command_frame_has_opcode_one() {
    let payload = Payload::new("activity".to_string(), Value::Null);
    let frame = command_frame(payload, u32::MAX, "n").unwrap();
    let (opcode, body) = split_frame(&frame).unwrap();
    assert_eq!(opcode, 1);
    assert_eq!(
        body,
        br#"{"args":{"activity":null,"pid":4294967295},"cmd":"SET_ACTIVITY","nonce":"n"}"#
    );
}

#[test]
fn send_frames_the_compact_rendering() {
    let value = json(r#"{ "b" : [ 1 , 2 ] , "a" : "é" }"#);
    let frame = send(&value, 9).unwrap();
    let text = r#"{"a":"é","b":[1,2]}"#;
    assert_eq!(frame, encode_frame(9, text.as_bytes()).unwrap());
    assert_eq!(frame[4] as usize, text.len());
}

#[test]
fn extract_payload_gives_opcode_and_text() {
    let frame = encode_frame(5, "héllo".as_bytes()).unwrap();
    assert_eq!(extract_payload(&frame), Ok((5, "héllo")));
}

#[test]
fn extract_payload_stops_at_the_declared_length() {
    let mut frame = encode_frame(1, b"{}").unwrap();
    frame.extend_from_slice(b"garbage");
    assert_eq!(extract_payload(&frame), Ok((1, "{}")));
}

#[test]
fn extract_payload_rejects_bytes_that_are_not_utf8() {
    let frame = encode_frame(1, &[b'"', 0xff, b'"']).unwrap();
    assert_eq!(extract_payload(&frame), Err(ClientError::InvalidUtf8));
    let frame = encode_frame(1, &[0xc3]).unwrap();
    assert_eq!(extract_payload(&frame), Err(ClientError::InvalidUtf8));
}

#[test]
fn recv_decodes_opcode_and_json() {
    let frame = encode_frame(1, br#"{"cmd":"DISPATCH","evt":"READY"}"#).unwrap();
    let (opcode, value) = recv(&frame).unwrap();
    assert_eq!(opcode, 1);
    assert_eq!(value["cmd"], Value::String("DISPATCH".to_string()));
    assert_eq!(value["evt"], Value::String("READY".to_string()));
}

#[test]
fn recv_passes_unknown_opcodes_through() {
    let frame = encode_frame(3, b"null").unwrap();
    assert_eq!(recv(&frame), Ok((3, Value::Null)));
    let frame = encode_frame(u32::MAX, b"[]").unwrap();
    assert_eq!(recv(&frame), Ok((u32::MAX, json("[]"))));
}

#[test]
fn recv_rejects_malformed_json() {
    let frame = encode_frame(1, br#"{"cmd":"#).unwrap();
    assert_eq!(recv(&frame), Err(ClientError::InvalidJson));
    let frame = encode_frame(1, b"").unwrap();
    assert_eq!(recv(&frame), Err(ClientError::InvalidJson));
    let frame = encode_frame(1, b"{} {}").unwrap();
    assert_eq!(recv(&frame), Err(ClientError::InvalidJson));
}

#[test]
fn recv_rejects_incomplete_frames() {
    assert_eq!(recv(&[1, 0, 0]), Err(ClientError::Truncated));
    let mut frame = encode_frame(1, br#"{"a":1}"#).unwrap();
    frame.pop();
    assert_eq!(recv(&frame), Err(ClientError::LengthMismatch));
}

#[test]
fn recv_rejects_invalid_utf8_before_parsing() {
    let frame = encode_frame(1, &[b'[', 0xfe, b']']).unwrap();
    assert_eq!(recv(&frame), Err(ClientError::InvalidUtf8));
}

#[test]
fn values_round_trip_through_a_frame() {
    let texts = [
        "null",
        "true",
        "0",
        "-17",
        "18446744073709551615",
        "\"\"",
        "\"line\\nbreak \\u00e9 \\\"quoted\\\"\"",
        "[]",
        "[1,[2,[3]],{\"k\":null}]",
        "{\"state\":\"x\",\"details\":{\"n\":[1,2,3]},\"ok\":false}",
    ];
    for opcode in [0u32, 1, 7, u32::MAX] {
        for text in texts {
            let value = json(text);
            let frame = send(&value, opcode).unwrap();
            assert_eq!(recv(&frame), Ok((opcode, value)));
        }
    }
}
