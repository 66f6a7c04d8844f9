use fefix::dictionary::BaseType;
use fefix::error::SchemaError;
use fefix::xml::XmlDocument;
use fefix::{Dictionary, Version};

const SMALL: &str = "<fix type='FIX' major='4' minor='2' servicepack='0'>
 <header>
  <field name='BeginString' required='Y'/>
  <field name='MsgType' required='Y'/>
  <group name='NoHops' required='N'>
   <field name='HopCompID' required='N'/>
  </group>
 </header>
 <messages>
  <message name='Heartbeat' msgtype='0' msgcat='admin'>
   <field name='TestReqID' required='N'/>
   <component name='Extra' required='N'/>
  </message>
 </messages>
 <trailer>
  <field name='CheckSum' required='Y'/>
 </trailer>
 <components>
  <component name='Extra'>
   <component name='Inner' required='N'/>
  </component>
  <component name='Inner'>
   <field name='Text' required='N'/>
  </component>
 </components>
 <fields>
  <field number='8' name='BeginString' type='STRING'/>
  <field number='10' name='CheckSum' type='STRING'/>
  <field number='35' name='MsgType' type='STRING'>
   <value enum='0' description='HEARTBEAT'/>
   <value enum='A' description='LOGON'/>
  </field>
  <field number='58' name='Text' type='STRING'/>
  <field number='112' name='TestReqID' type='STRING'/>
  <field number='627' name='NoHops' type='NUMINGROUP'/>
  <field number='628' name='HopCompID' type='STRING'/>
 </fields>
</fix>";

fn load(text: &str) -> Result<Dictionary, SchemaError> {
    Dictionary::from_quickfix_spec(text)
}

fn error_of(text: &str) -> SchemaError {
    match load(text) {
        Ok(_) => panic!("the dictionary was accepted"),
        Err(e) => e,
    }
}

#[test]
fn every_version_yields_a_dictionary_with_fields() {
    for version in Version::all() {
        let dictionary = Dictionary::from_version(version).unwrap();
        assert!(!dictionary.is_empty());
        assert!(dictionary.field_count() > 20);
        assert_eq!(dictionary.version(), version);
        assert_eq!(dictionary.get_version(), version);
    }
}

#[test]
fn every_version_yields_a_distinct_dictionary() {
    let all = Version::all();
    for a in 0..all.len() {
        for b in 0..all.len() {
            let left = Dictionary::from_version(all[a]).unwrap();
            let right = Dictionary::from_version(all[b]).unwrap();
            assert_eq!(left.version() == right.version(), a == b);
        }
    }
}

#[test]
fn tag_and_name_lookups_agree_for_every_field() {
    for version in Version::all() {
        let dictionary = Dictionary::from_version(version).unwrap();
        for tag in 0..1500u32 {
            if let Some(field) = dictionary.field_by_tag(tag) {
                assert_eq!(field.tag(), tag);
                let again = dictionary.field_by_name(field.name()).unwrap();
                assert_eq!(again.tag(), tag);
            }
        }
    }
}

#[test]
fn standard_header_and_trailer_resolve() {
    let dictionary = Dictionary::from_version(Version::Fix44).unwrap();
    let header = dictionary.component_by_name("StandardHeader").unwrap();
    let trailer = dictionary.component_by_name("StandardTrailer").unwrap();
    assert_eq!(header.name(), "StandardHeader");
    assert_eq!(trailer.name(), "StandardTrailer");
    let begin = dictionary.field_by_name("BeginString").unwrap();
    let checksum = dictionary.field_by_tag(10).unwrap();
    let symbol = dictionary.field_by_name("Symbol").unwrap();
    assert!(header.contains_field(begin));
    assert!(!header.contains_field(checksum));
    assert!(trailer.contains_field(checksum));
    assert!(!header.contains_field(symbol));
    assert!(!trailer.contains_field(symbol));
    assert!(dictionary.component_by_name("NoSuchComponent").is_none());
}

#[test]
fn contains_field_reaches_into_groups_and_components() {
    let dictionary = load(SMALL).unwrap();
    let header = dictionary.standard_header();
    assert!(header.contains_field(dictionary.field_by_tag(627).unwrap()));
    assert!(header.contains_field(dictionary.field_by_tag(628).unwrap()));
    let extra = dictionary.component_by_name("Extra").unwrap();
    assert!(extra.contains_field(dictionary.field_by_name("Text").unwrap()));
    assert!(!extra.contains_field(dictionary.field_by_name("TestReqID").unwrap()));
}

#[test]
fn fields_carry_type_and_enums() {
    let dictionary = load(SMALL).unwrap();
    let msg_type = dictionary.field_by_tag(35).unwrap();
    assert_eq!(msg_type.name(), "MsgType");
    assert_eq!(msg_type.base_type(), BaseType::String);
    assert_eq!(msg_type.enum_count(), 2);
    assert_eq!(msg_type.enum_value(1).code, "A");
    assert_eq!(msg_type.enum_value(1).description, "LOGON");
    assert_eq!(dictionary.field_by_tag(627).unwrap().base_type(), BaseType::NumInGroup);
    assert!(dictionary.field_by_tag(9999).is_none());
    assert!(dictionary.field_by_name("Nothing").is_none());
}

#[test]
fn messages_are_found_by_their_code() {
    let dictionary = load(SMALL).unwrap();
    let heartbeat = dictionary.message_by_msgtype("0").unwrap();
    assert_eq!(heartbeat.name, "Heartbeat");
    assert_eq!(heartbeat.members.len(), 4);
    assert!(dictionary.message_by_msgtype("ZZ").is_none());
    assert_eq!(dictionary.message_count(), 1);
}

#[test]
fn groups_are_found_by_their_counter() {
    let dictionary = load(SMALL).unwrap();
    let group = dictionary.group_by_counter(627).unwrap();
    assert_eq!(group.delimiter(), 628);
    assert!(group.contains_tag(628));
    assert!(!group.contains_tag(35));
    assert!(dictionary.group_by_counter(35).is_none());
    assert_eq!(dictionary.header_layout(), vec![8, 35, 627]);
    assert_eq!(dictionary.trailer_layout(), vec![10]);
}

#[test]
fn the_empty_dictionary_has_header_and_trailer_only() {
    let dictionary = Dictionary::empty();
    assert!(dictionary.is_empty());
    assert!(dictionary.component_by_name("StandardHeader").is_some());
    assert!(dictionary.component_by_name("StandardTrailer").is_some());
    assert!(dictionary.field_by_tag(8).is_none());
}

#[test]
fn text_that_is_not_xml_is_bad_xml() {
    assert_eq!(error_of("this is not XML"), SchemaError::BadXml);
    assert_eq!(error_of("<fix major='4' minor='2'><fields>"), SchemaError::BadXml);
}

#[test]
fn a_root_other_than_fix_is_bad_xml() {
    assert_eq!(error_of("<other major='4' minor='2'/>"), SchemaError::BadXml);
    assert_eq!(error_of("<fix major='9' minor='9'/>"), SchemaError::BadXml);
}

#[test]
fn a_duplicate_tag_is_reported() {
    let text = "<fix major='4' minor='2'><fields>
        <field number='8' name='BeginString' type='STRING'/>
        <field number='8' name='Other' type='STRING'/>
    </fields></fix>";
    assert_eq!(error_of(text), SchemaError::DuplicateTag(8));
}

#[test]
fn a_duplicate_name_is_reported() {
    let text = "<fix major='4' minor='2'><fields>
        <field number='8' name='BeginString' type='STRING'/>
        <field number='9' name='BeginString' type='STRING'/>
    </fields></fix>";
    assert_eq!(error_of(text), SchemaError::DuplicateName("BeginString".to_string()));
}

#[test]
fn an_unknown_type_is_reported() {
    let text = "<fix major='4' minor='2'><fields>
        <field number='8' name='BeginString' type='WIDGET'/>
    </fields></fix>";
    assert_eq!(error_of(text), SchemaError::UnknownType("WIDGET".to_string()));
}

#[test]
fn an_unknown_reference_is_reported() {
    let field = "<fix major='4' minor='2'><header><field name='Missing'/></header>
        <fields><field number='8' name='BeginString' type='STRING'/></fields></fix>";
    assert_eq!(error_of(field), SchemaError::UnknownReference("Missing".to_string()));
    let component = "<fix major='4' minor='2'><header><component name='Nowhere'/></header>
        <fields><field number='8' name='BeginString' type='STRING'/></fields></fix>";
    assert_eq!(error_of(component), SchemaError::UnknownReference("Nowhere".to_string()));
}

#[test]
fn a_group_needs_a_counter_of_type_numingroup() {
    let text = "<fix major='4' minor='2'><header>
        <group name='BeginString'><field name='BeginString'/></group></header>
        <fields><field number='8' name='BeginString' type='STRING'/></fields></fix>";
    assert_eq!(error_of(text), SchemaError::UnknownReference("BeginString".to_string()));
}

#[test]
fn a_missing_attribute_is_reported() {
    let number = "<fix major='4' minor='2'><fields>
        <field name='BeginString' type='STRING'/></fields></fix>";
    assert_eq!(error_of(number), SchemaError::MissingAttribute("number".to_string()));
    let name = "<fix major='4' minor='2'><fields>
        <field number='8' type='STRING'/></fields></fix>";
    assert_eq!(error_of(name), SchemaError::MissingAttribute("name".to_string()));
    let ty = "<fix major='4' minor='2'><fields>
        <field number='8' name='BeginString'/></fields></fix>";
    assert_eq!(error_of(ty), SchemaError::MissingAttribute("type".to_string()));
}

#[test]
fn the_first_error_in_loading_order_wins() {
    let text = "<fix major='4' minor='2'><header><field name='Missing'/></header><fields>
        <field number='8' name='BeginString' type='WIDGET'/>
    </fields></fix>";
    assert_eq!(error_of(text), SchemaError::UnknownType("WIDGET".to_string()));
}

#[test]
fn xml_documents_list_children_in_order() {
    let doc = XmlDocument::parse("<a x='1'><b/><!-- c --><c y='2' z='3'/>text<b/></a>").unwrap();
    let root = doc.first_element_child(0).unwrap();
    assert_eq!(doc.name(root), "a");
    assert_eq!(doc.attribute(root, "x"), Some("1"));
    assert_eq!(doc.attribute(root, "y"), None);
    let children = doc.children(root);
    assert_eq!(children.len(), 3);
    assert_eq!(doc.name(children[0]), "b");
    assert_eq!(doc.name(children[1]), "c");
    assert_eq!(doc.attribute(children[1], "z"), Some("3"));
    assert_eq!(doc.children_named(root, "b").len(), 2);
    assert_eq!(doc.first_child_named(root, "c"), Some(children[1]));
    assert!(doc.is_element(root));
    assert!(!doc.is_element(0));
    assert!(doc.has_name(children[2], "b"));
    assert!(XmlDocument::parse("<a><b></a>").is_none());
}

#[test]
fn every_version_yields_a_dictionary_with_messages_header_and_trailer() {
    for version in Version::all() {
        let dictionary = Dictionary::from_version(version).unwrap();
        assert!(dictionary.message_count() > 0);
        assert_eq!(dictionary.component_by_name("StandardHeader").unwrap().name(), "StandardHeader");
        assert_eq!(dictionary.component_by_name("StandardTrailer").unwrap().name(), "StandardTrailer");
    }
    let session = Dictionary::from_version(Version::Fixt11).unwrap();
    assert_eq!(session.message_by_msgtype("0").unwrap().name, "Heartbeat");
    let fix42 = Dictionary::from_version(Version::Fix42).unwrap();
    assert_eq!(fix42.message_by_msgtype("0").unwrap().name, "Heartbeat");
}

#[test]
fn a_field_number_may_carry_a_plus_sign() {
    let dictionary = load(&SMALL.replace("number='35'", "number='+35'")).unwrap();
    assert_eq!(dictionary.field_by_tag(35).unwrap().name(), "MsgType");
    assert_eq!(dictionary.field_by_name("MsgType").unwrap().tag(), 35);
    assert_eq!(
        error_of(&SMALL.replace("number='35'", "number='-35'")),
        error_of(&SMALL.replace("number='35'", "number='x'"))
    );
}

#[test]
fn of_two_messages_with_one_code_the_first_is_found() {
    let twice = SMALL.replace(
        " </messages>",
        "  <message name='Second' msgtype='0' msgcat='admin'/>\n  <message name='Logon' msgtype='A' msgcat='admin'/>\n </messages>",
    );
    let dictionary = load(&twice).unwrap();
    assert_eq!(dictionary.message_count(), 3);
    assert_eq!(dictionary.message_by_msgtype("0").unwrap().name, "Heartbeat");
    assert_eq!(dictionary.message_by_msgtype("A").unwrap().name, "Logon");
    assert!(dictionary.message_by_msgtype("").is_none());
    assert!(dictionary.message_by_msgtype("00").is_none());
}

#[test]
fn components_are_found_by_their_names() {
    let dictionary = load(SMALL).unwrap();
    assert_eq!(dictionary.component_by_name("Extra").unwrap().name(), "Extra");
    assert_eq!(dictionary.component_by_name("Inner").unwrap().name(), "Inner");
    assert!(dictionary.component_by_name("extra").is_none());
    assert!(dictionary.component_by_name("").is_none());
    assert!(dictionary.component_by_name("Heartbeat").is_none());
}

#[test]
fn a_cloned_dictionary_answers_as_the_first() {
    let dictionary = load(SMALL).unwrap();
    let copy = dictionary.clone();
    drop(dictionary);
    assert_eq!(copy.version(), Version::Fix42);
    assert_eq!(copy.field_count(), 7);
    assert_eq!(copy.message_count(), 1);
    assert_eq!(copy.field_by_tag(112).unwrap().name(), "TestReqID");
    assert_eq!(copy.field_by_name("HopCompID").unwrap().tag(), 628);
    assert_eq!(copy.field_by_tag(35).unwrap().enum_value(0).description, "HEARTBEAT");
    assert_eq!(copy.message_by_msgtype("0").unwrap().name, "Heartbeat");
    assert_eq!(copy.component_by_name("Inner").unwrap().name(), "Inner");
    assert_eq!(copy.group_by_counter(627).unwrap().delimiter(), 628);
    assert_eq!(copy.header_layout(), vec![8, 35, 627]);
    assert_eq!(copy.trailer_layout(), vec![10]);
}
