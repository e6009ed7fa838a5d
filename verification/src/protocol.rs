//! The messages of the protocol: the handshake body, the command envelope,
//! and the way from a JSON value to a frame and back.

use serde_json::Value;
use vstd::prelude::*;
use vstd::string::*;
use vstd::utf8::*;

use crate::error::ClientError;
use crate::json::{
    insert_member, json_model, json_parse, json_text, new_object, no_members, number_value,
    object_value, parse, render, string_value, Json,
};
use crate::wire::{
    declared_len, encode_frame, frame_bytes, lemma_frame_round_trip, split_err, split_frame,
    split_result,
};

verus! {

/// The version of the protocol that the handshake announces.
pub const PROTOCOL_VERSION: u32 = 1;

/// What a frame is for. Only these two are ever sent; a received frame may
/// carry any number.
#[derive(Clone, Copy, Debug, PartialEq, Eq, Structural)]
pub enum OpCode {
    Handshake,
    Message,
}

impl OpCode {
    /// The number that stands for this opcode on the wire.
    pub open spec fn number(self) -> u32 {
        match self {
            OpCode::Handshake => 0,
            OpCode::Message => 1,
        }
    }

    /// The number that stands for this opcode on the wire.
    pub fn code(self) -> (n: u32)
        ensures
            n == self.number(),
    {
        match self {
            OpCode::Handshake => 0,
            OpCode::Message => 1,
        }
    }
}

/// The commands that the client can issue.
#[derive(Clone, Copy, Debug, PartialEq, Eq, Structural)]
pub enum Commands {
    SetActivity,
}

impl Commands {
    /// The name of the command in an envelope.
    pub open spec fn name(self) -> Seq<char> {
        match self {
            Commands::SetActivity => "SET_ACTIVITY"@,
        }
    }

    /// The name of the command in an envelope.
    pub fn as_string(&self) -> (s: String)
        ensures
            s@ == self.name(),
    {
        match self {
            Commands::SetActivity => "SET_ACTIVITY".to_owned(),
        }
    }
}

/// What a command carries: the name of an event and its data, which the
/// library hands on without looking inside.
#[derive(Debug, PartialEq)]
pub struct Payload {
    pub event_name: String,
    pub event_data: Value,
}

impl Payload {
    pub fn new(event_name: String, event_data: Value) -> (p: Self)
        ensures
            p.event_name == event_name,
            p.event_data == event_data,
    {
        Payload { event_name, event_data }
    }
}

/// The handshake body for application `id`: `{"v": 1, "client_id": id}`.
pub open spec fn handshake_doc(id: Seq<char>) -> Json {
    Json::Object(
        no_members().insert("v"@, Json::Int(PROTOCOL_VERSION as int)).insert(
            "client_id"@,
            Json::Str(id),
        ),
    )
}

/// The arguments of a command: `{"pid": pid, event_name: event_data}`. An
/// event named `pid` takes the place of the process id.
pub open spec fn command_args(pid: u32, event_name: Seq<char>, event_data: Json) -> Json {
    Json::Object(no_members().insert("pid"@, Json::Int(pid as int)).insert(event_name, event_data))
}

/// The envelope of a command:
/// `{"cmd": "SET_ACTIVITY", "args": {"pid": pid, event_name: event_data}, "nonce": nonce}`.
pub open spec fn command_doc(
    pid: u32,
    event_name: Seq<char>,
    event_data: Json,
    nonce: Seq<char>,
) -> Json {
    Json::Object(
        no_members().insert("cmd"@, Json::Str(Commands::SetActivity.name())).insert(
            "args"@,
            command_args(pid, event_name, event_data),
        ).insert("nonce"@, Json::Str(nonce)),
    )
}

/// Builds the handshake body for application `id`.
pub fn handshake_body(id: &str) -> (v: Value)
    ensures
        json_model(v) == handshake_doc(id@),
{
    let mut members = new_object();
    insert_member(&mut members, "v".to_owned(), number_value(PROTOCOL_VERSION));
    insert_member(&mut members, "client_id".to_owned(), string_value(id.to_owned()));
    object_value(members)
}

/// Builds the envelope that carries `payload` for process `pid` under the
/// request tag `nonce`.
pub fn command_body(payload: Payload, pid: u32, nonce: &str) -> (v: Value)
    ensures
        json_model(v) == command_doc(
            pid,
            payload.event_name@,
            json_model(payload.event_data),
            nonce@,
        ),
{
    let mut args = new_object();
    insert_member(&mut args, "pid".to_owned(), number_value(pid));
    insert_member(&mut args, payload.event_name, payload.event_data);
    let mut members = new_object();
    insert_member(&mut members, "cmd".to_owned(), string_value(Commands::SetActivity.as_string()));
    insert_member(&mut members, "args".to_owned(), object_value(args));
    insert_member(&mut members, "nonce".to_owned(), string_value(nonce.to_owned()));
    object_value(members)
}

/// The bytes of the frame that carries `doc` under `opcode`.
pub open spec fn message_bytes(opcode: u32, doc: Json) -> Seq<u8> {
    frame_bytes(opcode, encode_utf8(json_text(doc)))
}

/// The body that `doc` renders to fits the length field of a frame.
pub open spec fn fits_frame(doc: Json) -> bool {
    encode_utf8(json_text(doc)).len() <= u32::MAX
}

/// Renders `payload` and frames it under `opcode`.
pub fn send(payload: &Value, opcode: u32) -> (r: Result<Vec<u8>, ClientError>)
    ensures
        fits_frame(json_model(*payload)) ==> r is Ok && r->Ok_0@ == message_bytes(
            opcode,
            json_model(*payload),
        ),
        !fits_frame(json_model(*payload)) ==> r is Err && r->Err_0 == ClientError::BodyTooLong,
{
    let text = render(payload);
    encode_frame(opcode, text.as_str().as_bytes())
}

/// The frame that opens a conversation for application `id`.
pub open spec fn handshake_bytes(id: Seq<char>) -> Seq<u8> {
    message_bytes(OpCode::Handshake.number(), handshake_doc(id))
}

/// Builds the frame that opens a conversation for application `id`.
pub fn handshake(id: &str) -> (r: Result<Vec<u8>, ClientError>)
    ensures
        fits_frame(handshake_doc(id@)) ==> r is Ok && r->Ok_0@ == handshake_bytes(id@),
        !fits_frame(handshake_doc(id@)) ==> r is Err && r->Err_0 == ClientError::BodyTooLong,
{
    let body = handshake_body(id);
    send(&body, OpCode::Handshake.code())
}

/// A lower-case hexadecimal digit.
pub open spec fn is_lower_hex(c: char) -> bool {
    ('0' <= c && c <= '9') || ('a' <= c && c <= 'f')
}

/// The shape of a request tag: 36 characters, hyphens after the 8th, 12th,
/// 16th and 20th digit, lower-case hexadecimal digits elsewhere.
pub open spec fn is_nonce(s: Seq<char>) -> bool {
    &&& s.len() == 36
    &&& forall|i: int|
        0 <= i < 36 ==> if i == 8 || i == 13 || i == 18 || i == 23 {
            #[trigger] s[i] == '-'
        } else {
            is_lower_hex(s[i])
        }
}

/// `uuid::Uuid::new_v4` and its `Display`: a random identifier in its
/// hyphenated lower-case form. Which one comes is not known; its shape is.
#[verifier::external_body]
pub(crate) fn fresh_nonce() -> (nonce: String)
    ensures
        is_nonce(nonce@),
{
    uuid::Uuid::new_v4().to_string()
}

/// The frame that carries a command.
pub open spec fn command_bytes(
    pid: u32,
    event_name: Seq<char>,
    event_data: Json,
    nonce: Seq<char>,
) -> Seq<u8> {
    message_bytes(OpCode::Message.number(), command_doc(pid, event_name, event_data, nonce))
}

/// What framing a command gives: its frame, or the refusal of a body that
/// does not fit one.
pub open spec fn command_result(
    pid: u32,
    event_name: Seq<char>,
    event_data: Json,
    nonce: Seq<char>,
) -> Result<Seq<u8>, ClientError> {
    if fits_frame(command_doc(pid, event_name, event_data, nonce)) {
        Ok(command_bytes(pid, event_name, event_data, nonce))
    } else {
        Err(ClientError::BodyTooLong)
    }
}

/// The bytes of a framing that succeeded, and the error of one that failed.
pub open spec fn framed(r: Result<Vec<u8>, ClientError>) -> Result<Seq<u8>, ClientError> {
    match r {
        Ok(frame) => Ok(frame@),
        Err(e) => Err(e),
    }
}

/// Builds the frame that carries `payload` for process `pid` under the
/// request tag `nonce`.
pub fn command_frame(payload: Payload, pid: u32, nonce: &str) -> (r: Result<Vec<u8>, ClientError>)
    ensures
        framed(r) == command_result(
            pid,
            payload.event_name@,
            json_model(payload.event_data),
            nonce@,
        ),
{
    let body = command_body(payload, pid, nonce);
    send(&body, OpCode::Message.code())
}

/// `core::str::Utf8Error`, which the verifier carries without looking inside.
#[verifier::external_type_specification]
#[verifier::external_body]
pub struct ExUtf8Error(core::str::Utf8Error);

/// `core::str::from_utf8`: the bytes as a string slice where they are UTF-8,
/// and an error where they are not.
#[verifier::external_body]
fn utf8_text(bytes: &[u8]) -> (r: Result<&str, core::str::Utf8Error>)
    ensures
        r is Ok <==> valid_utf8(bytes@),
        r is Ok ==> encode_utf8(r->Ok_0@) == bytes@,
{
    core::str::from_utf8(bytes)
}

/// What reading the opcode and the body text out of `data` gives.
pub open spec fn payload_result(data: Seq<u8>) -> Result<(u32, Seq<char>), ClientError> {
    match split_result(data) {
        Err(e) => Err(e),
        Ok((opcode, body)) => if valid_utf8(body) {
            Ok((opcode, decode_utf8(body)))
        } else {
            Err(ClientError::InvalidUtf8)
        },
    }
}

/// What decoding `data` as one response gives.
pub open spec fn received(data: Seq<u8>) -> Result<(u32, Json), ClientError> {
    match payload_result(data) {
        Err(e) => Err(e),
        Ok((opcode, text)) => match json_parse(text) {
            Some(doc) => Ok((opcode, doc)),
            None => Err(ClientError::InvalidJson),
        },
    }
}

/// A reading that gave `opcode` and `text`.
pub open spec fn payload_ok(opcode: u32, text: Seq<char>) -> Result<(u32, Seq<char>), ClientError> {
    Ok((opcode, text))
}

/// A reading that failed with `e`.
pub open spec fn payload_err(e: ClientError) -> Result<(u32, Seq<char>), ClientError> {
    Err(e)
}

/// A response that decoded to `opcode` and `doc`.
pub open spec fn received_ok(opcode: u32, doc: Json) -> Result<(u32, Json), ClientError> {
    Ok((opcode, doc))
}

/// A response that failed to decode, with `e`.
pub open spec fn received_err(e: ClientError) -> Result<(u32, Json), ClientError> {
    Err(e)
}

/// Reads the opcode and the body text out of received bytes.
pub fn extract_payload(data: &[u8]) -> (r: Result<(u32, &str), ClientError>)
    ensures
        match r {
            Ok((opcode, text)) => payload_result(data@) == payload_ok(opcode, text@),
            Err(e) => payload_result(data@) == payload_err(e),
        },
{
    match split_frame(data) {
        Err(e) => Err(e),
        Ok((opcode, body)) => match utf8_text(body) {
            Ok(text) => {
                proof {
                    encode_utf8_decode_utf8(text@);
                }
                Ok((opcode, text))
            },
            Err(_) => Err(ClientError::InvalidUtf8),
        },
    }
}

/// Decodes received bytes as one response: the opcode as declared, and the
/// body as a JSON value.
pub fn recv(data: &[u8]) -> (r: Result<(u32, Value), ClientError>)
    ensures
        match r {
            Ok((opcode, value)) => received(data@) == received_ok(opcode, json_model(value)),
            Err(e) => received(data@) == received_err(e),
        },
{
    match extract_payload(data) {
        Err(e) => Err(e),
        Ok((opcode, text)) => match parse(text) {
            Ok(value) => Ok((opcode, value)),
            Err(_) => Err(ClientError::InvalidJson),
        },
    }
}

/// Decoding the frame that carries `doc` under `opcode` gives back `opcode`
/// and the text of `doc`, character for character. The document decoded is
/// the one that this text reads back as, so it is `doc` itself for every
/// document that survives being rendered and read.
pub proof fn lemma_message_round_trip(opcode: u32, doc: Json)
    requires
        fits_frame(doc),
    ensures
        payload_result(message_bytes(opcode, doc)) == payload_ok(opcode, json_text(doc)),
        received(message_bytes(opcode, doc)) == match json_parse(json_text(doc)) {
            Some(back) => received_ok(opcode, back),
            None => received_err(ClientError::InvalidJson),
        },
        json_parse(json_text(doc)) == Some(doc) ==> received(message_bytes(opcode, doc))
            == received_ok(opcode, doc),
{
    let body = encode_utf8(json_text(doc));
    lemma_frame_round_trip(opcode, body, Seq::empty());
    assert(message_bytes(opcode, doc) + Seq::<u8>::empty() =~= message_bytes(opcode, doc));
    encode_utf8_valid_utf8(json_text(doc));
    encode_utf8_decode_utf8(json_text(doc));
}

/// A received buffer whose header declares more body bytes than follow it is
/// refused, whatever it holds.
pub proof fn lemma_overlong_declaration_refused(data: Seq<u8>)
    requires
        data.len() >= 8,
        declared_len(data) > data.len() - 8,
    ensures
        split_result(data) == split_err(ClientError::LengthMismatch),
        payload_result(data) == payload_err(ClientError::LengthMismatch),
        received(data) == received_err(ClientError::LengthMismatch),
{
}

} // verus!
