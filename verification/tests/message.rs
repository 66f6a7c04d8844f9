use fefix::message::{
    tag_from, AtomicValue, FieldValue, FieldsIterator, Message, TsrMessage, TsrMessageRef,
};

fn text(s: &str) -> FieldValue {
    FieldValue::Atom(AtomicValue::String(s.to_string()))
}

#[test]
fn a_field_is_present_iff_it_was_set() {
    let mut message = Message::new();
    assert!(message.get(35).is_none());
    assert!(!message.contains(35));
    message.set(35, text("A"));
    assert_eq!(message.get(35), Some(&text("A")));
    assert!(message.contains(35));
    assert!(message.get(34).is_none());
    assert_eq!(message.len(), 1);
}

#[test]
fn set_replaces_or_inserts() {
    let mut message = Message::new();
    message.set(35, text("A"));
    message.set(8, text("FIX.4.2"));
    message.set(35, text("0"));
    assert_eq!(message.len(), 2);
    assert_eq!(message.get(35), Some(&text("0")));
    assert_eq!(message.get(8), Some(&text("FIX.4.2")));
}

#[test]
fn fields_come_in_ascending_order_of_tags() {
    let mut message = Message::new();
    for tag in [52u32, 8, 35, 10, 49] {
        message.set(tag, text("x"));
    }
    let tags: Vec<u32> = (0..message.len()).map(|i| message.field_at(i).0).collect();
    assert_eq!(tags, vec![8, 10, 35, 49, 52]);
    let mut cursor = message.iter();
    let mut seen = Vec::new();
    while let Some((tag, value)) = cursor.next() {
        assert_eq!(value, &text("x"));
        seen.push(tag);
    }
    assert_eq!(seen, tags);
    assert!(cursor.next().is_none());
}

#[test]
fn groups_nest_messages() {
    let mut entry = Message::new();
    entry.set(269, text("0"));
    let mut message = Message::new();
    message.set(268, FieldValue::Group(vec![entry.clone(), entry.clone()]));
    let entries = message.get(268).unwrap().as_group().unwrap();
    assert_eq!(entries.len(), 2);
    assert_eq!(entries[1].get(269).unwrap().as_str(), Some("0"));
    assert!(message.get(268).unwrap().as_str().is_none());
    assert_eq!(message.clone(), message);
    assert_eq!(message.duplicate(), message);
}

#[test]
fn atoms_are_read_by_kind() {
    assert_eq!(FieldValue::Atom(AtomicValue::Int(7)).as_int(), Some(7));
    assert_eq!(FieldValue::Atom(AtomicValue::Boolean(true)).as_bool(), Some(true));
    assert_eq!(text("7").as_int(), None);
    assert_eq!(text("7").as_bool(), None);
    assert_eq!(text("7").as_str(), Some("7"));
    assert!(text("7").as_group().is_none());
}

#[test]
fn both_message_traits_are_served_by_message() {
    let mut message = <Message as TsrMessageRef>::empty();
    TsrMessageRef::set_field(&mut message, 35, text("D"));
    assert_eq!(TsrMessageRef::get_field(&message, 35), Some(&text("D")));
    assert_eq!(TsrMessageRef::get_field(&message, 36), None);
    TsrMessage::set_field(&mut message, 11, text("order"));
    assert_eq!(TsrMessage::get_field(&message, 11), text("order"));
    assert_eq!(Message::default(), Message::new());
}

#[test]
fn a_field_that_is_absent_reads_as_the_group_without_entries() {
    let mut message = Message::new();
    assert_eq!(TsrMessage::get_field(&message, 11), FieldValue::Group(Vec::new()));
    assert_eq!(TsrMessage::get_field(&message, 0), FieldValue::Group(Vec::new()));
    assert_eq!(TsrMessage::get_field(&message, -1), FieldValue::Group(Vec::new()));
    TsrMessage::set_field(&mut message, 11, text("order"));
    assert_eq!(TsrMessage::get_field(&message, 11), text("order"));
    assert_eq!(TsrMessage::get_field(&message, 12), FieldValue::Group(Vec::new()));
    assert_eq!(message.get(11), Some(&text("order")));
}

#[test]
fn a_negative_number_stands_for_the_tag_of_its_bits() {
    assert_eq!(tag_from(0), 0);
    assert_eq!(tag_from(35), 35);
    assert_eq!(tag_from(i32::MAX), 2147483647);
    assert_eq!(tag_from(-1), 4294967295);
    assert_eq!(tag_from(-2), 4294967294);
    assert_eq!(tag_from(i32::MIN), 2147483648);
    let mut message = Message::new();
    TsrMessage::set_field(&mut message, -1, text("last"));
    assert_eq!(message.get(4294967295), Some(&text("last")));
    assert_eq!(TsrMessage::get_field(&message, -1), text("last"));
    assert_eq!(TsrMessage::get_field(&message, 1), FieldValue::Group(Vec::new()));
}
