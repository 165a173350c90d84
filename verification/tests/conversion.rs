use render_liquid::convert::convert;
use render_liquid::document::ConfigDocument;
use render_liquid::value::DynamicValue;

fn number(x: f32) -> DynamicValue {
    DynamicValue::Number(x.to_bits())
}

fn float(x: f64) -> ConfigDocument {
    ConfigDocument::Float(x.to_bits())
}

fn deep(levels: usize) -> ConfigDocument {
    let mut doc = ConfigDocument::Integer(7);
    for level in 0..levels {
        doc = if level % 2 == 0 {
            ConfigDocument::Sequence(vec![doc])
        } else {
            ConfigDocument::Table(vec![("inner".to_string(), doc)])
        };
    }
    doc
}

#[test]
fn an_integer_becomes_a_number() {
    assert_eq!(convert(&ConfigDocument::Integer(123)), number(123.0));
    assert_eq!(convert(&ConfigDocument::Integer(-5)), number(-5.0));
    assert_eq!(convert(&ConfigDocument::Integer(0)), DynamicValue::Number(0));
}

#[test]
fn a_large_integer_loses_its_low_bits() {
    assert_eq!(convert(&ConfigDocument::Integer(16_777_217)), number(16_777_216.0));
    assert_eq!(
        convert(&ConfigDocument::Integer(i64::MAX)),
        number(9_223_372_036_854_775_807i64 as f32)
    );
}

#[test]
fn a_float_becomes_a_number() {
    assert_eq!(convert(&float(456.7)), number(456.7));
    assert_eq!(convert(&float(456.7)), DynamicValue::Number(0x43e4_599a));
    assert_eq!(convert(&float(-0.25)), number(-0.25));
    assert_eq!(convert(&float(f64::INFINITY)), number(f32::INFINITY));
}

#[test]
fn a_boolean_stays_a_boolean() {
    assert_eq!(convert(&ConfigDocument::Boolean(true)), DynamicValue::Boolean(true));
    assert_eq!(convert(&ConfigDocument::Boolean(false)), DynamicValue::Boolean(false));
}

#[test]
fn a_string_stays_a_string() {
    let doc = ConfigDocument::String("Hello".to_string());
    assert_eq!(convert(&doc), DynamicValue::String("Hello".to_string()));
    // The document keeps its own text.
    assert_eq!(doc, ConfigDocument::String("Hello".to_string()));
    assert_eq!(
        convert(&ConfigDocument::String(String::new())),
        DynamicValue::String(String::new())
    );
}

#[test]
fn a_timestamp_becomes_the_string_of_its_text() {
    let doc = ConfigDocument::Timestamp("1979-05-27T07:32:00Z".to_string());
    assert_eq!(convert(&doc), DynamicValue::String("1979-05-27T07:32:00Z".to_string()));
}

#[test]
fn a_sequence_becomes_an_array_item_for_item() {
    let doc = ConfigDocument::Sequence(vec![
        ConfigDocument::String("172.17.0.2".to_string()),
        ConfigDocument::String("172.17.0.3".to_string()),
        ConfigDocument::Integer(3),
    ]);
    assert_eq!(
        convert(&doc),
        DynamicValue::Array(vec![
            DynamicValue::String("172.17.0.2".to_string()),
            DynamicValue::String("172.17.0.3".to_string()),
            number(3.0),
        ])
    );
    assert_eq!(convert(&ConfigDocument::Sequence(vec![])), DynamicValue::Array(vec![]));
}

#[test]
fn a_table_becomes_an_object_with_the_same_keys() {
    let doc = ConfigDocument::Table(vec![
        ("name".to_string(), ConfigDocument::String("web".to_string())),
        ("port".to_string(), ConfigDocument::Integer(8080)),
        ("".to_string(), ConfigDocument::Boolean(true)),
    ]);
    assert_eq!(
        convert(&doc),
        DynamicValue::Object(vec![
            ("name".to_string(), DynamicValue::String("web".to_string())),
            ("port".to_string(), number(8080.0)),
            ("".to_string(), DynamicValue::Boolean(true)),
        ])
    );
    assert_eq!(convert(&ConfigDocument::Table(vec![])), DynamicValue::Object(vec![]));
}

#[test]
fn nested_documents_are_converted_all_the_way_down() {
    let doc = ConfigDocument::Table(vec![(
        "servers".to_string(),
        ConfigDocument::Sequence(vec![
            ConfigDocument::Table(vec![
                ("ip".to_string(), ConfigDocument::String("10.0.0.1".to_string())),
                ("since".to_string(), ConfigDocument::Timestamp("2001-02-03".to_string())),
            ]),
            ConfigDocument::Sequence(vec![ConfigDocument::Float(1.5f64.to_bits())]),
        ]),
    )]);
    assert_eq!(
        convert(&doc),
        DynamicValue::Object(vec![(
            "servers".to_string(),
            DynamicValue::Array(vec![
                DynamicValue::Object(vec![
                    ("ip".to_string(), DynamicValue::String("10.0.0.1".to_string())),
                    ("since".to_string(), DynamicValue::String("2001-02-03".to_string())),
                ]),
                DynamicValue::Array(vec![number(1.5)]),
            ]),
        )])
    );
}

#[test]
fn a_deep_document_is_converted() {
    let mut value = convert(&deep(200));
    for level in (0..200).rev() {
        value = match value {
            DynamicValue::Array(mut items) if level % 2 == 0 => {
                assert_eq!(items.len(), 1);
                items.remove(0)
            }
            DynamicValue::Object(mut members) if level % 2 == 1 => {
                assert_eq!(members.len(), 1);
                let (key, inner) = members.remove(0);
                assert_eq!(key, "inner");
                inner
            }
            other => panic!("level {} holds {:?}", level, other),
        };
    }
    assert_eq!(value, number(7.0));
}
