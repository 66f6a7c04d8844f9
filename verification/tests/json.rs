use fefix::codec::json::{Codec, Config, ConfigPrettyPrint, ConfigSettable, DecodeError, EncoderError};
use fefix::codec::{BoundedBuffer, Buffer, Decoder, Encoder};
use fefix::json::{parse, serialize, JsonValue};
use fefix::message::{AtomicValue, FieldValue, Message};
use fefix::{Dictionary, Version};
use serde_json::{from_slice, from_str, Value};

const MESSAGE_SIMPLE: &str = r#"
{
    "Header": {
        "BeginString": "FIX.4.4",
        "MsgType": "W",
        "MsgSeqNum": "4567",
        "SenderCompID": "SENDER",
        "TargetCompID": "TARGET",
        "SendingTime": "20160802-21:14:38.717"
    },
    "Body": {
        "SecurityIDSource": "8",
        "SecurityID": "ESU6",
        "MDReqID": "789",
        "NoMDEntries": [
            { "MDEntryType": "0", "MDEntryPx": "1.50", "MDEntrySize": "75", "MDEntryTime": "21:14:38.688" },
            { "MDEntryType": "1", "MDEntryPx": "1.75", "MDEntrySize": "25", "MDEntryTime": "21:14:38.688" }
        ]
    },
    "Trailer": {
    }
}
    "#;

const MESSAGE_WITHOUT_HEADER: &str = r#"
{
    "Body": {
        "SecurityIDSource": "8",
        "SecurityID": "ESU6",
        "MDReqID": "789",
        "NoMDEntries": [
            { "MDEntryType": "0", "MDEntryPx": "1.50", "MDEntrySize": "75", "MDEntryTime": "21:14:38.688" },
            { "MDEntryType": "1", "MDEntryPx": "1.75", "MDEntrySize": "25", "MDEntryTime": "21:14:38.688" }
        ]
    },
    "Trailer": {
    }
}
    "#;

fn dict_fix44() -> Dictionary {
    Dictionary::from_version(Version::Fix44).unwrap()
}

fn encoder_fix44() -> Codec<Message, impl Config> {
    Codec::new(dict_fix44(), ConfigPrettyPrint)
}

fn text(s: &str) -> FieldValue {
    FieldValue::Atom(AtomicValue::String(s.to_string()))
}

fn decode_error(input: &str) -> DecodeError {
    let mut codec = encoder_fix44();
    match Decoder::decode(&mut codec, input.as_bytes()) {
        Ok(_) => panic!("the message was accepted"),
        Err(e) => e,
    }
}

#[test]
fn decode_then_decode() {
    let mut decoder = encoder_fix44();
    let mut encoder = encoder_fix44();
    let json_value_before: Value = from_str(MESSAGE_SIMPLE).unwrap();
    let message = Decoder::decode(&mut decoder, &mut MESSAGE_SIMPLE.as_bytes()).unwrap();
    let mut buffer = Vec::<u8>::new();
    Encoder::encode(&mut encoder, &mut buffer, message).unwrap();
    let json_value_after: Value = from_slice(&buffer[..]).unwrap();
    assert_eq!(json_value_before, json_value_after);
}

#[test]
fn message_without_header() {
    let mut encoder = encoder_fix44();
    let result = Decoder::decode(&mut encoder, &mut MESSAGE_WITHOUT_HEADER.as_bytes());
    match result {
        Err(DecodeError::Schema) => (),
        _ => panic!(),
    };
}

#[test]
fn invalid_json() {
    let mut encoder = encoder_fix44();
    let result = Decoder::decode(&mut encoder, &mut "this is invalid JSON".as_bytes());
    match result {
        Err(DecodeError::Syntax) => (),
        _ => panic!(),
    };
}

#[test]
fn decoded_fields_are_keyed_by_tag() {
    let mut codec = encoder_fix44();
    let message = codec.decode(MESSAGE_SIMPLE.as_bytes()).unwrap();
    assert_eq!(message.get(8).unwrap().as_str(), Some("FIX.4.4"));
    assert_eq!(message.get(35).unwrap().as_str(), Some("W"));
    assert_eq!(message.get(34).unwrap().as_str(), Some("4567"));
    assert_eq!(message.get(262).unwrap().as_str(), Some("789"));
    let entries = message.get(268).unwrap().as_group().unwrap();
    assert_eq!(entries.len(), 2);
    assert_eq!(entries[0].get(269).unwrap().as_str(), Some("0"));
    assert_eq!(entries[1].get(270).unwrap().as_str(), Some("1.75"));
    assert_eq!(entries[1].len(), 4);
    assert!(message.get(10).is_none());
    assert_eq!(message.len(), 10);
}

#[test]
fn json_round_trip_keeps_the_document_in_compact_form_too() {
    let mut decoder = encoder_fix44();
    let mut encoder: Codec<Message, ConfigSettable> = Codec::new(dict_fix44(), ConfigSettable::new());
    let before: Value = from_str(MESSAGE_SIMPLE).unwrap();
    let message = decoder.decode(MESSAGE_SIMPLE.as_bytes()).unwrap();
    let mut buffer = Vec::<u8>::new();
    let written = encoder.encode(&mut buffer, message).unwrap();
    assert_eq!(written, buffer.len());
    assert!(!buffer.contains(&b'\n'));
    let after: Value = from_slice(&buffer[..]).unwrap();
    assert_eq!(before, after);
}

#[test]
fn pretty_printing_adds_whitespace_only() {
    let mut decoder = encoder_fix44();
    let message = decoder.decode(MESSAGE_SIMPLE.as_bytes()).unwrap();
    let mut pretty = encoder_fix44();
    let mut compact: Codec<Message, ConfigSettable> = Codec::new(dict_fix44(), ConfigSettable::new());
    let mut a = Vec::<u8>::new();
    let mut b = Vec::<u8>::new();
    pretty.encode(&mut a, message).unwrap();
    compact.encode(&mut b, message).unwrap();
    assert!(a.len() > b.len());
    assert!(a.contains(&b'\n'));
    let left: Value = from_slice(&a[..]).unwrap();
    let right: Value = from_slice(&b[..]).unwrap();
    assert_eq!(left, right);
}

#[test]
fn encode_appends_to_the_buffer() {
    let mut decoder = encoder_fix44();
    let message = decoder.decode(MESSAGE_SIMPLE.as_bytes()).unwrap();
    let mut encoder = encoder_fix44();
    let mut buffer = b"xyz".to_vec();
    let written = encoder.encode(&mut buffer, message).unwrap();
    assert_eq!(&buffer[..3], b"xyz");
    assert_eq!(buffer.len(), 3 + written);
    let after: Value = from_slice(&buffer[3..]).unwrap();
    let before: Value = from_str(MESSAGE_SIMPLE).unwrap();
    assert_eq!(before, after);
}

#[test]
fn config_settable_defaults_to_compact() {
    let mut config = ConfigSettable::new();
    assert!(!config.pretty_print());
    config.set_pretty_print(true);
    assert!(config.pretty_print());
    config.set_pretty_print(false);
    assert!(!config.pretty_print());
    assert!(!ConfigSettable::default().pretty_print());
    assert!(ConfigPrettyPrint.pretty_print());
}

#[test]
fn missing_sections_are_schema_errors() {
    assert_eq!(decode_error(r#"{"Header":{"BeginString":"FIX.4.4","MsgType":"0"},"Trailer":{}}"#), DecodeError::Schema);
    assert_eq!(decode_error(r#"{"Header":{"BeginString":"FIX.4.4","MsgType":"0"},"Body":{}}"#), DecodeError::Schema);
    assert_eq!(decode_error(r#"{"Header":[],"Body":{},"Trailer":{}}"#), DecodeError::Schema);
    assert_eq!(decode_error(r#"[1, 2, 3]"#), DecodeError::Schema);
    assert_eq!(decode_error(r#"{"Header":{"BeginString":"FIX.4.4"},"Body":{},"Trailer":{}}"#), DecodeError::Schema);
    assert_eq!(decode_error(r#"{"Header":{"MsgType":"0"},"Body":{},"Trailer":{}}"#), DecodeError::Schema);
    assert_eq!(decode_error(r#"{"Header":{"BeginString":7,"MsgType":"0"},"Body":{},"Trailer":{}}"#), DecodeError::Schema);
}

#[test]
fn an_unknown_begin_string_is_an_invalid_msg_type() {
    assert_eq!(
        decode_error(r#"{"Header":{"BeginString":"FIX.9.9","MsgType":"0"},"Body":{},"Trailer":{}}"#),
        DecodeError::InvalidMsgType
    );
    assert_eq!(
        decode_error(r#"{"Header":{"BeginString":"FIX.4.2","MsgType":"0"},"Body":{},"Trailer":{}}"#),
        DecodeError::InvalidMsgType
    );
}

#[test]
fn unknown_names_and_wrong_shapes_are_invalid_data() {
    assert_eq!(
        decode_error(r#"{"Header":{"BeginString":"FIX.4.4","MsgType":"0"},"Body":{"NoSuchField":"1"},"Trailer":{}}"#),
        DecodeError::InvalidData
    );
    assert_eq!(
        decode_error(r#"{"Header":{"BeginString":"FIX.4.4","MsgType":"0"},"Body":{"Text":5},"Trailer":{}}"#),
        DecodeError::InvalidData
    );
    assert_eq!(
        decode_error(r#"{"Header":{"BeginString":"FIX.4.4","MsgType":"0"},"Body":{"NoMDEntries":["x"]},"Trailer":{}}"#),
        DecodeError::InvalidData
    );
    assert_eq!(
        decode_error(r#"{"Header":{"BeginString":"FIX.4.4","MsgType":"0"},"Body":{"NoMDEntries":[{"Bogus":"1"}]},"Trailer":{}}"#),
        DecodeError::InvalidData
    );
}

#[test]
fn a_failed_decode_keeps_the_codec_usable() {
    let mut codec = encoder_fix44();
    assert!(codec.decode(b"garbage").is_err());
    let message = codec.decode(MESSAGE_SIMPLE.as_bytes()).unwrap();
    assert_eq!(message.get(35).unwrap().as_str(), Some("W"));
}

#[test]
fn encode_needs_begin_string_and_msg_type() {
    let mut encoder = encoder_fix44();
    let mut buffer = Vec::<u8>::new();
    let mut message = Message::new();
    assert_eq!(encoder.encode(&mut buffer, &message), Err(EncoderError::Dictionary));
    message.set(8, text("FIX.4.4"));
    assert_eq!(encoder.encode(&mut buffer, &message), Err(EncoderError::Dictionary));
    message.set(35, text("0"));
    assert!(encoder.encode(&mut buffer, &message).is_ok());
    message.set(8, text("FIX.4.0"));
    assert_eq!(encoder.encode(&mut buffer, &message), Err(EncoderError::Dictionary));
    message.set(8, text("FIX.4.4"));
    message.set(9999, text("x"));
    let before = buffer.clone();
    assert_eq!(encoder.encode(&mut buffer, &message), Err(EncoderError::Dictionary));
    assert_eq!(buffer, before);
}

#[test]
fn encode_partitions_fields_and_renders_every_kind_of_atom() {
    let mut encoder: Codec<Message, ConfigSettable> = Codec::new(dict_fix44(), ConfigSettable::new());
    let mut message = Message::new();
    message.set(8, text("FIX.4.4"));
    message.set(35, text("0"));
    message.set(34, FieldValue::Atom(AtomicValue::Int(-12)));
    message.set(43, FieldValue::Atom(AtomicValue::Boolean(true)));
    message.set(97, FieldValue::Atom(AtomicValue::Boolean(false)));
    message.set(112, text("ping"));
    message.set(93, FieldValue::Atom(AtomicValue::Int(0)));
    let mut buffer = Vec::<u8>::new();
    encoder.encode(&mut buffer, &message).unwrap();
    let value: Value = from_slice(&buffer[..]).unwrap();
    let expected: Value = from_str(
        r#"{"Header":{"BeginString":"FIX.4.4","MsgType":"0","MsgSeqNum":"-12","PossDupFlag":"Y","PossResend":"N"},
            "Body":{"TestReqID":"ping"},"Trailer":{"SignatureLength":"0"}}"#,
    )
    .unwrap();
    assert_eq!(value, expected);
}

#[test]
fn json_values_are_read_and_written_by_serde_json() {
    let value = parse(br#"{"b": [1, true, null, "x"], "a": {"k": "v"}}"#).unwrap();
    assert_eq!(value.get("a").unwrap().get("k").unwrap().as_str(), Some("v"));
    assert!(value.get("c").is_none());
    assert!(value.get("b").unwrap().as_str().is_none());
    assert!(value.as_object().is_some());
    let bytes = serialize(&value, false).unwrap();
    let again: Value = from_slice(&bytes).unwrap();
    let expected: Value = from_str(r#"{"a":{"k":"v"},"b":[1,true,null,"x"]}"#).unwrap();
    assert_eq!(again, expected);
    assert!(parse(b"{").is_none());
    let twice = JsonValue::Object(vec![
        ("k".to_string(), JsonValue::String("first".to_string())),
        ("k".to_string(), JsonValue::String("last".to_string())),
    ]);
    assert_eq!(twice.get("k").unwrap().as_str(), Some("last"));
    let written: Value = from_slice(&serialize(&twice, true).unwrap()).unwrap();
    let last: Value = from_str(r#"{"k":"last"}"#).unwrap();
    assert_eq!(written, last);
}

#[test]
fn a_full_buffer_stops_the_json_encoder() {
    let mut decoder = encoder_fix44();
    let message = decoder.decode(MESSAGE_SIMPLE.as_bytes()).unwrap();
    let mut encoder = encoder_fix44();
    let mut small = BoundedBuffer::new(10);
    assert_eq!(encoder.encode(&mut small, message), Err(EncoderError::BufferFull));
    assert!(small.as_slice().is_empty());
    let mut large = BoundedBuffer::new(10_000);
    let written = encoder.encode(&mut large, message).unwrap();
    assert_eq!(large.len(), written);
}

#[test]
fn decode_error_has_a_message() {
    assert_eq!(DecodeError::Syntax.to_string(), "FIX JSON decoding error.");
}

#[test]
fn a_cloned_codec_decodes_and_encodes_alike() {
    let mut first: Codec<Message, ConfigPrettyPrint> = Codec::new(dict_fix44(), ConfigPrettyPrint);
    let mut second = first.clone();
    let left = first.decode(MESSAGE_SIMPLE.as_bytes()).unwrap().clone();
    let right = second.decode(MESSAGE_SIMPLE.as_bytes()).unwrap().clone();
    assert_eq!(left, right);
    let mut one = Vec::<u8>::new();
    let mut two = Vec::<u8>::new();
    first.encode(&mut one, &left).unwrap();
    second.encode(&mut two, &right).unwrap();
    assert!(!one.is_empty());
    assert_eq!(one, two);
}

#[test]
fn of_the_members_with_one_key_the_last_is_written() {
    let inner = JsonValue::Object(vec![
        ("x".to_string(), JsonValue::String("1".to_string())),
        ("y".to_string(), JsonValue::Null),
        ("x".to_string(), JsonValue::String("2".to_string())),
        ("x".to_string(), JsonValue::String("3".to_string())),
        ("y".to_string(), JsonValue::Bool(true)),
    ]);
    let outer = JsonValue::Object(vec![
        ("k".to_string(), JsonValue::Array(vec![inner])),
        ("k".to_string(), JsonValue::String("gone".to_string())),
        ("z".to_string(), JsonValue::Bool(false)),
        ("k".to_string(), JsonValue::Array(vec![JsonValue::Object(vec![
            ("x".to_string(), JsonValue::String("1".to_string())),
            ("x".to_string(), JsonValue::String("3".to_string())),
            ("y".to_string(), JsonValue::Bool(true)),
        ])])),
    ]);
    let compact = serialize(&outer, false).unwrap();
    assert_eq!(String::from_utf8(compact).unwrap(), r#"{"k":[{"x":"3","y":true}],"z":false}"#);
    let pretty: Value = from_slice(&serialize(&outer, true).unwrap()).unwrap();
    let expected: Value = from_str(r#"{"k":[{"x":"3","y":true}],"z":false}"#).unwrap();
    assert_eq!(pretty, expected);
}

#[test]
fn the_message_type_is_written_once() {
    let mut decoder = encoder_fix44();
    let message = decoder.decode(MESSAGE_SIMPLE.as_bytes()).unwrap();
    let mut encoder: Codec<Message, ConfigSettable> = Codec::new(dict_fix44(), ConfigSettable::new());
    let mut buffer = Vec::<u8>::new();
    encoder.encode(&mut buffer, message).unwrap();
    let text = String::from_utf8(buffer).unwrap();
    assert_eq!(text.matches("\"MsgType\"").count(), 1);
    assert!(text.contains(r#""MsgType":"W""#));
}
