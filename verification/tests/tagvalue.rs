use fefix::codec::json;
use fefix::codec::tagvalue::wire::{compute_checksum, read_token, tokenize};
use fefix::codec::tagvalue::{Codec, DecodeError, EncoderError};
use fefix::codec::{BoundedBuffer, Buffer, Decoder, Encoder};
use fefix::message::{AtomicValue, FieldValue, Message};
use fefix::{Dictionary, Version};

const EXAMPLE_JSON_MESSAGE: &str = r#"
{
    "Header": {
        "BeginString": "FIX.4.2",
        "MsgType": "0",
        "MsgSeqNum": "12",
        "SenderCompID": "A",
        "TargetCompID": "B",
        "SendingTime": "20160802-21:14:38.717"
    },
    "Body": {},
    "Trailer": {}
}
"#;

fn codec(version: Version) -> Codec {
    let mut codec = Codec::with_dict(Dictionary::from_version(version).unwrap());
    assert!(codec.set_separator(b'|'));
    codec
}

fn text(s: &str) -> FieldValue {
    FieldValue::Atom(AtomicValue::String(s.to_string()))
}

fn integer(i: i64) -> FieldValue {
    FieldValue::Atom(AtomicValue::Int(i))
}

fn with_envelope(body: &str) -> String {
    let head = format!("8=FIX.4.2|9={}|{}", body.len(), body);
    let sum: u32 = head.bytes().map(|b| b as u32).sum::<u32>() % 256;
    format!("{}10={:03}|", head, sum)
}

fn decode_error(data: &str) -> DecodeError {
    match codec(Version::Fix42).decode_from_slice(data.as_bytes()) {
        Ok(_) => panic!("the message was accepted"),
        Err(e) => e,
    }
}

#[test]
fn hello_world_heartbeat_from_json_to_tagvalue() {
    let dictionary = Dictionary::from_version(Version::Fix42).unwrap();
    let mut decoder: json::Codec<Message, json::ConfigPrettyPrint> =
        json::Codec::new(dictionary, json::ConfigPrettyPrint);
    let message = decoder.decode(EXAMPLE_JSON_MESSAGE.as_bytes()).unwrap();
    let mut encoder = codec(Version::Fix42);
    let mut buffer = Vec::<u8>::new();
    let written = Encoder::encode(&mut encoder, &mut buffer, message).unwrap();
    let expected = with_envelope("35=0|49=A|56=B|34=12|52=20160802-21:14:38.717|");
    assert_eq!(String::from_utf8(buffer.clone()).unwrap(), expected);
    assert_eq!(written, expected.len());
    assert!(expected.starts_with("8=FIX.4.2|9=46|35=0|49=A|56=B|34=12|52=20160802-21:14:38.717|10="));
    assert!(expected.ends_with("|"));
}

#[test]
fn the_classic_heartbeat_has_length_42_and_checksum_185() {
    let mut message = Message::new();
    message.set(8, text("FIX.4.2"));
    message.set(35, text("0"));
    message.set(49, text("A"));
    message.set(56, text("B"));
    message.set(34, integer(12));
    message.set(52, text("20100304-07:59:30"));
    let standard = Codec::with_dict(Dictionary::from_version(Version::Fix42).unwrap());
    let bytes = standard.encode_to_vec(&message).unwrap();
    assert_eq!(
        String::from_utf8(bytes).unwrap().replace('\u{1}', "|"),
        "8=FIX.4.2|9=42|35=0|49=A|56=B|34=12|52=20100304-07:59:30|10=185|"
    );
    let bytes = codec(Version::Fix42).encode_to_vec(&message).unwrap();
    assert_eq!(
        String::from_utf8(bytes).unwrap(),
        "8=FIX.4.2|9=42|35=0|49=A|56=B|34=12|52=20100304-07:59:30|10=022|"
    );
}

#[test]
fn decode_reads_the_classic_heartbeat_with_typed_values() {
    let mut codec = codec(Version::Fix42);
    let message = Decoder::decode(
        &mut codec,
        b"8=FIX.4.2|9=42|35=0|49=A|56=B|34=12|52=20100304-07:59:30|10=022|",
    )
    .unwrap();
    assert_eq!(message.get(8).unwrap().as_str(), Some("FIX.4.2"));
    assert_eq!(message.get(35).unwrap().as_str(), Some("0"));
    assert_eq!(message.get(34).unwrap().as_int(), Some(12));
    assert_eq!(message.get(52).unwrap().as_str(), Some("20100304-07:59:30"));
    assert!(message.get(9).is_none());
    assert!(message.get(10).is_none());
    assert_eq!(message.len(), 6);
}

#[test]
fn tag_value_round_trip_gives_the_message_back() {
    let mut message = Message::new();
    message.set(8, text("FIX.4.2"));
    message.set(35, text("D"));
    message.set(49, text("SENDER"));
    message.set(56, text("TARGET"));
    message.set(34, integer(7));
    message.set(43, FieldValue::Atom(AtomicValue::Boolean(true)));
    message.set(52, text("20160802-21:14:38.717"));
    message.set(11, text("order-1"));
    message.set(21, text("1"));
    message.set(55, text("ESU6"));
    message.set(54, text("2"));
    message.set(38, text("100"));
    message.set(40, text("2"));
    message.set(44, text("1.50"));
    message.set(93, integer(3));
    let codec = codec(Version::Fix42);
    let bytes = codec.encode_to_vec(&message).unwrap();
    let again = codec.decode_from_slice(&bytes).unwrap();
    assert_eq!(again, message);
    let text_form = String::from_utf8(bytes).unwrap();
    assert!(text_form.contains("|35=D|49=SENDER|56=TARGET|34=7|43=Y|52=20160802-21:14:38.717|11=order-1|"));
    assert!(text_form.contains("|55=ESU6|93=3|10="));
}

#[test]
fn tag_value_round_trip_with_the_standard_separator() {
    let codec = Codec::with_dict(Dictionary::from_version(Version::Fix44).unwrap());
    assert_eq!(codec.get_separator(), 1);
    let mut message = Message::new();
    message.set(8, text("FIX.4.4"));
    message.set(35, text("0"));
    message.set(112, text("a|b=c"));
    let bytes = codec.encode_to_vec(&message).unwrap();
    assert_eq!(bytes[bytes.len() - 1], 1);
    assert_eq!(codec.decode_from_slice(&bytes).unwrap(), message);
}

#[test]
fn groups_round_trip_with_the_delimiter_first() {
    let mut first = Message::new();
    first.set(269, text("0"));
    first.set(270, text("1.50"));
    first.set(15, text("USD"));
    let mut second = Message::new();
    second.set(269, text("1"));
    second.set(271, text("25"));
    let mut message = Message::new();
    message.set(8, text("FIX.4.2"));
    message.set(35, text("W"));
    message.set(55, text("ESU6"));
    message.set(262, text("789"));
    message.set(268, FieldValue::Group(vec![first, second]));
    let codec = codec(Version::Fix42);
    let bytes = codec.encode_to_vec(&message).unwrap();
    let text_form = String::from_utf8(bytes.clone()).unwrap();
    assert!(text_form.contains("|268=2|269=0|15=USD|270=1.50|269=1|271=25|10="));
    assert_eq!(codec.decode_from_slice(&bytes).unwrap(), message);
}

#[test]
fn nested_header_group_and_empty_group_round_trip() {
    let mut hop = Message::new();
    hop.set(628, text("HUB"));
    hop.set(630, integer(4));
    let mut message = Message::new();
    message.set(8, text("FIX.4.4"));
    message.set(35, text("0"));
    message.set(627, FieldValue::Group(vec![hop]));
    message.set(453, FieldValue::Group(vec![]));
    message.set(112, text("x"));
    let codec = codec(Version::Fix44);
    let bytes = codec.encode_to_vec(&message).unwrap();
    let text_form = String::from_utf8(bytes.clone()).unwrap();
    assert!(text_form.contains("|35=0|627=1|628=HUB|630=4|112=x|453=0|10="));
    assert_eq!(codec.decode_from_slice(&bytes).unwrap(), message);
}

#[test]
fn a_mutated_payload_byte_is_a_bad_checksum() {
    let good = "8=FIX.4.2|9=42|35=0|49=A|56=B|34=12|52=20100304-07:59:30|10=022|";
    assert!(codec(Version::Fix42).decode_from_slice(good.as_bytes()).is_ok());
    let checksum_field = good.len() - 7;
    for position in 0..checksum_field {
        let mut bytes = good.as_bytes().to_vec();
        bytes[position] = if bytes[position] == b'Z' { b'Q' } else { b'Z' };
        assert_eq!(
            codec(Version::Fix42).decode_from_slice(&bytes),
            Err(DecodeError::BadChecksum)
        );
    }
}

#[test]
fn a_wrong_checksum_value_is_a_bad_checksum() {
    assert_eq!(
        decode_error("8=FIX.4.2|9=42|35=0|49=A|56=B|34=12|52=20100304-07:59:30|10=185|"),
        DecodeError::BadChecksum
    );
    assert_eq!(
        decode_error("8=FIX.4.2|9=42|35=0|49=A|56=B|34=12|52=20100304-07:59:30|10=999|"),
        DecodeError::BadChecksum
    );
}

#[test]
fn an_unknown_begin_string_is_reported() {
    let body = "35=0|";
    let head = format!("8=FIX.9.9|9={}|{}", body.len(), body);
    let sum: u32 = head.bytes().map(|b| b as u32).sum::<u32>() % 256;
    let data = format!("{}10={:03}|", head, sum);
    assert_eq!(decode_error(&data), DecodeError::UnknownBeginString);
    let other = codec(Version::Fix44).decode_from_slice(with_envelope("35=0|").as_bytes());
    assert_eq!(other, Err(DecodeError::UnknownBeginString));
}

#[test]
fn a_wrong_body_length_is_reported() {
    let head = "8=FIX.4.2|9=6|35=0|";
    let sum: u32 = head.bytes().map(|b| b as u32).sum::<u32>() % 256;
    assert_eq!(decode_error(&format!("{}10={:03}|", head, sum)), DecodeError::BadBodyLength);
}

#[test]
fn broken_tokens_are_bad_syntax() {
    assert_eq!(decode_error(""), DecodeError::BadSyntax);
    assert_eq!(decode_error("10=000"), DecodeError::BadSyntax);
    assert_eq!(decode_error("8=FIX.4.2|9=5|35=0|10=1x5|"), DecodeError::BadSyntax);
    let no_equals = "8=FIX.4.2|9=3|350|";
    let sum: u32 = no_equals.bytes().map(|b| b as u32).sum::<u32>() % 256;
    assert_eq!(decode_error(&format!("{}10={:03}|", no_equals, sum)), DecodeError::BadSyntax);
    let empty_tag = "8=FIX.4.2|9=3|=0|";
    let sum: u32 = empty_tag.bytes().map(|b| b as u32).sum::<u32>() % 256;
    assert_eq!(decode_error(&format!("{}10={:03}|", empty_tag, sum)), DecodeError::BadSyntax);
    let wrong_first = "9=5|8=FIX.4.2|35=0|";
    let sum: u32 = wrong_first.bytes().map(|b| b as u32).sum::<u32>() % 256;
    assert_eq!(decode_error(&format!("{}10={:03}|", wrong_first, sum)), DecodeError::BadSyntax);
    let no_length = "8=FIX.4.2|35=0|";
    let sum: u32 = no_length.bytes().map(|b| b as u32).sum::<u32>() % 256;
    assert_eq!(decode_error(&format!("{}10={:03}|", no_length, sum)), DecodeError::BadSyntax);
}

#[test]
fn unknown_tags_and_wrong_types_are_reported() {
    assert_eq!(decode_error(&with_envelope("35=0|9999=x|")), DecodeError::UnknownTag);
    assert_eq!(decode_error(&with_envelope("35=0|34=twelve|")), DecodeError::BadType);
    assert_eq!(decode_error(&with_envelope("35=0|43=maybe|")), DecodeError::BadType);
    assert_eq!(decode_error(&with_envelope("35=0|54=12|")), DecodeError::BadType);
    assert_eq!(decode_error(&with_envelope("35=0|268=many|")), DecodeError::BadType);
}

#[test]
fn groups_that_break_their_definition_are_reported() {
    assert_eq!(decode_error(&with_envelope("35=W|268=1|270=1.50|")), DecodeError::BadGroup);
    assert_eq!(decode_error(&with_envelope("35=W|268=2|269=0|")), DecodeError::BadGroup);
    let ok = codec(Version::Fix42)
        .decode_from_slice(with_envelope("35=W|268=1|269=0|270=1.50|58=after|").as_bytes())
        .unwrap();
    let entries = ok.get(268).unwrap().as_group().unwrap();
    assert_eq!(entries.len(), 1);
    assert_eq!(entries[0].get(58).unwrap().as_str(), Some("after"));
    let outside = codec(Version::Fix42)
        .decode_from_slice(with_envelope("35=W|268=1|269=0|55=ESU6|").as_bytes())
        .unwrap();
    assert_eq!(outside.get(55).unwrap().as_str(), Some("ESU6"));
    assert_eq!(outside.get(268).unwrap().as_group().unwrap()[0].len(), 1);
}

#[test]
fn encode_needs_the_begin_string_of_the_dictionary() {
    let mut codec = codec(Version::Fix42);
    let mut buffer = Vec::<u8>::new();
    let mut message = Message::new();
    message.set(35, text("0"));
    assert_eq!(codec.encode(&mut buffer, &message), Err(EncoderError::Dictionary));
    message.set(8, text("FIX.4.4"));
    assert_eq!(codec.encode(&mut buffer, &message), Err(EncoderError::Dictionary));
    message.set(8, integer(42));
    assert_eq!(codec.encode(&mut buffer, &message), Err(EncoderError::Dictionary));
    assert!(buffer.is_empty());
    message.set(8, text("FIX.4.2"));
    buffer.extend_from_slice(b"ab");
    let written = codec.encode(&mut buffer, &message).unwrap();
    assert_eq!(buffer.len(), written + 2);
    assert_eq!(&buffer[..2], b"ab");
}

#[test]
fn encode_ignores_length_and_checksum_fields_of_the_message() {
    let mut message = Message::new();
    message.set(8, text("FIX.4.2"));
    message.set(9, integer(1));
    message.set(10, text("000"));
    message.set(35, text("0"));
    let bytes = codec(Version::Fix42).encode_to_vec(&message).unwrap();
    assert_eq!(String::from_utf8(bytes).unwrap(), with_envelope("35=0|"));
}

#[test]
fn separators_that_occur_in_values_are_refused() {
    let mut codec = Codec::with_dict(Dictionary::from_version(Version::Fix42).unwrap());
    for bad in [b'0', b'9', b'=', b'-', b'Y', b'N'] {
        assert!(!codec.set_separator(bad));
        assert_eq!(codec.get_separator(), 1);
    }
    assert!(codec.set_separator(b'^'));
    assert_eq!(codec.get_separator(), b'^');
}

#[test]
fn a_full_buffer_is_reported_and_left_alone() {
    let mut message = Message::new();
    message.set(8, text("FIX.4.2"));
    message.set(35, text("0"));
    let mut codec = codec(Version::Fix42);
    let needed = codec.encode_to_vec(&message).unwrap().len();
    let mut small = BoundedBuffer::new(needed - 1);
    assert_eq!(codec.encode(&mut small, &message), Err(EncoderError::BufferFull));
    assert_eq!(small.len(), 0);
    let mut exact = BoundedBuffer::new(needed);
    assert_eq!(codec.encode(&mut exact, &message), Ok(needed));
    assert_eq!(exact.as_slice(), with_envelope("35=0|").as_bytes());
    assert_eq!(codec.encode(&mut exact, &message), Err(EncoderError::BufferFull));
    assert_eq!(exact.len(), needed);
}

#[test]
fn the_vec_buffer_takes_everything() {
    let mut buffer = Vec::<u8>::new();
    assert!(Buffer::extend(&mut buffer, b"abc"));
    assert!(Buffer::extend(&mut buffer, b"de"));
    assert_eq!(Buffer::as_slice(&buffer), b"abcde");
}

#[test]
fn wire_functions_read_tokens_and_sum_bytes() {
    let data = b"35=0|49=A|";
    assert_eq!(compute_checksum(data, 0, data.len()), ((51 + 53 + 61 + 48 + 124 + 52 + 57 + 61 + 65 + 124) % 256) as u8);
    let (token, used) = read_token(data, 0, data.len(), b'|').unwrap();
    assert_eq!((token.tag, token.value, used), (35, b"0".to_vec(), 5));
    let tokens = tokenize(data, 0, data.len(), b'|').unwrap();
    assert_eq!(tokens.len(), 2);
    assert_eq!((tokens[1].tag, tokens[1].value.clone()), (49, b"A".to_vec()));
    assert!(tokenize(b"35=0|49", 0, 7, b'|').is_none());
    assert!(read_token(b"x5=0|", 0, 5, b'|').is_none());
    assert!(read_token(b"4294967296=0|", 0, 13, b'|').is_none());
}

#[test]
fn a_cloned_codec_keeps_dictionary_and_separator() {
    let first = codec(Version::Fix42);
    let mut second = first.clone();
    drop(first);
    assert_eq!(second.get_separator(), b'|');
    let data = with_envelope("35=0|49=A|56=B|34=12|");
    let message = second.decode_from_slice(data.as_bytes()).unwrap();
    assert_eq!(second.encode_to_vec(&message).unwrap(), data.as_bytes().to_vec());
}
