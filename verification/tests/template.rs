use fefix::codec::fast::errors::StaticError;
use fefix::codec::fast::field_operators::FieldOperatorInstruction;
use fefix::codec::fast::template::{FieldType, PrimitiveType, Template};
use fefix::error::SchemaError;

const SIMPLE_TEMPLATE: &str = "<?xml version=\"1.0\" encoding=\"UTF-8\"?>
<templates xmlns=\"http://www.fixprotocol.org/ns/fast/td/1.1\">
    <template dictionary=\"1\" id=\"1\" name=\"MDIncRefreshSample_1\">
        <string name=\"BeginString\" id=\"8\"/>
        <uInt32 name=\"BodyLength\" id=\"9\"/>
        <string name=\"MessageType\" id=\"35\"/>
        <typeRef name=\"MarketDataIncrementalRefresh\"/>
        <int32 name=\"Offset\" id=\"1001\"/>
        <uInt64 name=\"Volume\" id=\"1002\"/>
        <int64 name=\"Balance\" id=\"1003\"/>
        <sequence name=\"MDEntries\">
            <length name=\"NoMDEntries\" id=\"268\"/>
            <uInt32 name=\"MDUpdateAction\" id=\"279\" presence=\"false\"/>
            <decimal name=\"MDEntryPx\" id=\"270\"/>
            <byteVector name=\"RawData\" id=\"96\" presence=\"true\"/>
        </sequence>
    </template>
</templates>
";

fn error_of(text: &str) -> SchemaError {
    match Template::new(text) {
        Ok(_) => panic!("the template was accepted"),
        Err(StaticError::S1(e)) => e,
    }
}

#[test]
fn first_field_instruction() {
    let template = Template::new(SIMPLE_TEMPLATE).unwrap();
    let first_field_instruction = template.iter_items().get(0).unwrap();
    assert_eq!(first_field_instruction.name(), "BeginString");
}

#[test]
fn first_field_instruction_is_ascii_with_id_eight() {
    let template = Template::new(SIMPLE_TEMPLATE).unwrap();
    let first = &template.iter_items()[0];
    assert_eq!(first.id(), 8);
    assert_eq!(*first.kind(), FieldType::Primitive(PrimitiveType::Ascii));
    assert!(first.is_mandatory());
    assert_eq!(first.operator(), FieldOperatorInstruction::Constant);
}

#[test]
fn template_has_name_id_and_instructions_in_document_order() {
    let template = Template::new(SIMPLE_TEMPLATE).unwrap();
    assert_eq!(template.name(), "MDIncRefreshSample_1");
    assert_eq!(template.id(), Some(1));
    let names: Vec<&str> = template.iter_items().iter().map(|i| i.name()).collect();
    assert_eq!(
        names,
        vec![
            "BeginString",
            "BodyLength",
            "MessageType",
            "Offset",
            "Volume",
            "Balance",
            "NoMDEntries",
            "MDUpdateAction",
            "MDEntryPx",
            "RawData"
        ]
    );
    assert!(template.dictionary().is_empty());
}

#[test]
fn every_tag_maps_to_its_primitive_type() {
    let template = Template::new(SIMPLE_TEMPLATE).unwrap();
    let kinds: Vec<FieldType> = template.iter_items().iter().map(|i| *i.kind()).collect();
    assert_eq!(
        kinds,
        vec![
            FieldType::Primitive(PrimitiveType::Ascii),
            FieldType::Primitive(PrimitiveType::UInt32),
            FieldType::Primitive(PrimitiveType::Ascii),
            FieldType::Primitive(PrimitiveType::SInt32),
            FieldType::Primitive(PrimitiveType::UInt64),
            FieldType::Primitive(PrimitiveType::SInt64),
            FieldType::Primitive(PrimitiveType::UInt32),
            FieldType::Primitive(PrimitiveType::UInt32),
            FieldType::Primitive(PrimitiveType::Decimal),
            FieldType::Primitive(PrimitiveType::Bytes)
        ]
    );
}

#[test]
fn presence_false_makes_a_field_optional() {
    let template = Template::new(SIMPLE_TEMPLATE).unwrap();
    let items = template.iter_items();
    assert!(items[6].is_mandatory());
    assert!(!items[7].is_mandatory());
    assert!(items[9].is_mandatory());
    assert!(Template::_xml_presence_attribute_to_bool("true"));
    assert!(!Template::_xml_presence_attribute_to_bool("false"));
}

#[test]
fn xml_tag_to_instruction_knows_the_table() {
    assert_eq!(
        Template::xml_tag_to_instruction("string"),
        Ok(FieldType::Primitive(PrimitiveType::Ascii))
    );
    assert_eq!(
        Template::xml_tag_to_instruction("length"),
        Ok(FieldType::Primitive(PrimitiveType::UInt32))
    );
    assert_eq!(
        Template::xml_tag_to_instruction("byteVector"),
        Ok(FieldType::Primitive(PrimitiveType::Bytes))
    );
    assert_eq!(
        Template::xml_tag_to_instruction("float"),
        Err(StaticError::S1(SchemaError::UnknownType("float".to_string())))
    );
}

#[test]
fn a_template_without_id_has_none() {
    let template =
        Template::new("<templates><template name='T'><string name='A' id='1'/></template></templates>")
            .unwrap();
    assert_eq!(template.id(), None);
    assert_eq!(template.iter_items().len(), 1);
}

#[test]
fn template_errors_name_what_is_wrong() {
    assert_eq!(error_of("not xml at all"), SchemaError::BadXml);
    assert_eq!(error_of("<templates/>"), SchemaError::BadXml);
    assert_eq!(error_of("<templates><other name='T'/></templates>"), SchemaError::BadXml);
    assert_eq!(
        error_of("<templates><template id='1'/></templates>"),
        SchemaError::MissingAttribute("name".to_string())
    );
    assert_eq!(
        error_of("<templates><template name='T' id='x'/></templates>"),
        SchemaError::MissingAttribute("id".to_string())
    );
    assert_eq!(
        error_of("<templates><template name='T'><string id='1'/></template></templates>"),
        SchemaError::MissingAttribute("name".to_string())
    );
    assert_eq!(
        error_of("<templates><template name='T'><string name='A'/></template></templates>"),
        SchemaError::MissingAttribute("id".to_string())
    );
    assert_eq!(
        error_of("<templates><template name='T'><string name='A' id='4294967296'/></template></templates>"),
        SchemaError::MissingAttribute("id".to_string())
    );
    assert_eq!(
        error_of("<templates><template name='T'><widget name='A' id='1'/></template></templates>"),
        SchemaError::UnknownType("widget".to_string())
    );
}

#[test]
fn an_id_may_carry_a_plus_sign() {
    let template = Template::new(
        "<templates><template name='T' id='+7'><string name='A' id='+8'/><uInt32 name='B' id='+0009'/></template></templates>",
    )
    .unwrap();
    assert_eq!(template.id(), Some(7));
    assert_eq!(template.iter_items()[0].id(), 8);
    assert_eq!(template.iter_items()[1].id(), 9);
    assert_eq!(
        error_of("<templates><template name='T'><string name='A' id='+'/></template></templates>"),
        SchemaError::MissingAttribute("id".to_string())
    );
    assert_eq!(
        error_of("<templates><template name='T'><string name='A' id='-8'/></template></templates>"),
        SchemaError::MissingAttribute("id".to_string())
    );
    assert_eq!(
        error_of("<templates><template name='T'><string name='A' id='++8'/></template></templates>"),
        SchemaError::MissingAttribute("id".to_string())
    );
}

#[test]
fn a_cloned_template_holds_the_same_instructions() {
    let template = Template::new(SIMPLE_TEMPLATE).unwrap();
    let copy = template.clone();
    assert_eq!(copy.name(), template.name());
    assert_eq!(copy.id(), template.id());
    assert_eq!(copy.iter_items().len(), template.iter_items().len());
    for (left, right) in copy.iter_items().iter().zip(template.iter_items().iter()) {
        assert_eq!(left.name(), right.name());
        assert_eq!(left.id(), right.id());
        assert_eq!(left.kind(), right.kind());
        assert_eq!(left.is_mandatory(), right.is_mandatory());
    }
}
