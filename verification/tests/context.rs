use render_liquid::context::{build, ConversionError, RenderContext};
use render_liquid::document::ConfigDocument;
use render_liquid::value::DynamicValue;

fn text(s: &str) -> DynamicValue {
    DynamicValue::String(s.to_string())
}

#[test]
fn a_new_context_binds_nothing() {
    let context = RenderContext::new();
    assert!(context.is_empty());
    assert_eq!(context.len(), 0);
    assert_eq!(context.get_val("test"), None);
    assert!(context.bindings().is_empty());
}

#[test]
fn set_val_binds_a_name() {
    let mut context = RenderContext::new();
    assert_eq!(context.set_val("test", DynamicValue::Number(42.0f32.to_bits())), None);
    assert_eq!(context.get_val("test"), Some(&DynamicValue::Number(42.0f32.to_bits())));
    assert_eq!(context.get_val("tes"), None);
    assert_eq!(context.get_val("test "), None);
    assert_eq!(context.len(), 1);
    assert!(!context.is_empty());
}

#[test]
fn set_val_replaces_and_returns_what_was_bound() {
    let mut context = RenderContext::new();
    assert_eq!(context.set_val("a", text("one")), None);
    assert_eq!(context.set_val("b", text("two")), None);
    assert_eq!(context.set_val("c", text("three")), None);
    assert_eq!(context.set_val("b", text("deux")), Some(text("two")));
    assert_eq!(context.len(), 3);
    assert_eq!(context.get_val("a"), Some(&text("one")));
    assert_eq!(context.get_val("b"), Some(&text("deux")));
    assert_eq!(context.get_val("c"), Some(&text("three")));
    assert_eq!(context.set_val("b", text("zwei")), Some(text("deux")));
    assert_eq!(context.set_val("a", text("eins")), Some(text("one")));
    assert_eq!(context.len(), 3);
    let mut names: Vec<&str> = context.bindings().iter().map(|b| b.0.as_str()).collect();
    names.sort();
    assert_eq!(names, vec!["a", "b", "c"]);
}

#[test]
fn build_refuses_what_is_not_a_table() {
    let refused = [
        ConfigDocument::Integer(1),
        ConfigDocument::Float(1.5f64.to_bits()),
        ConfigDocument::Boolean(true),
        ConfigDocument::String("table".to_string()),
        ConfigDocument::Timestamp("1979-05-27".to_string()),
        ConfigDocument::Sequence(vec![]),
        ConfigDocument::Sequence(vec![ConfigDocument::Table(vec![])]),
    ];
    for doc in refused.iter() {
        match build(doc) {
            Err(ConversionError::NotATable) => {}
            Ok(context) => panic!("{:?} gave {:?}", doc, context),
        }
    }
}

#[test]
fn build_accepts_every_table() {
    assert!(build(&ConfigDocument::Table(vec![])).is_ok());
    let one = ConfigDocument::Table(vec![("k".to_string(), ConfigDocument::Sequence(vec![]))]);
    assert!(build(&one).is_ok());
}

#[test]
fn an_empty_table_gives_an_empty_context() {
    let context = build(&ConfigDocument::Table(vec![])).unwrap();
    assert!(context.is_empty());
    assert_eq!(context.len(), 0);
    assert!(context.bindings().is_empty());
}

#[test]
fn build_binds_each_key_to_its_converted_document() {
    let doc = ConfigDocument::Table(vec![
        ("bool_val".to_string(), ConfigDocument::Boolean(true)),
        ("int_val".to_string(), ConfigDocument::Integer(123)),
        ("float_val".to_string(), ConfigDocument::Float(456.7f64.to_bits())),
        ("string_val".to_string(), ConfigDocument::String("Hello".to_string())),
        (
            "array_val".to_string(),
            ConfigDocument::Sequence(vec![
                ConfigDocument::String("172.17.0.2".to_string()),
                ConfigDocument::String("172.17.0.3".to_string()),
            ]),
        ),
    ]);
    let context = build(&doc).unwrap();
    assert_eq!(context.len(), 5);
    assert_eq!(context.get_val("bool_val"), Some(&DynamicValue::Boolean(true)));
    assert_eq!(context.get_val("int_val"), Some(&DynamicValue::Number(123.0f32.to_bits())));
    assert_eq!(context.get_val("float_val"), Some(&DynamicValue::Number(456.7f32.to_bits())));
    assert_eq!(context.get_val("string_val"), Some(&text("Hello")));
    assert_eq!(
        context.get_val("array_val"),
        Some(&DynamicValue::Array(vec![text("172.17.0.2"), text("172.17.0.3")]))
    );
    assert_eq!(context.get_val("missing"), None);
}

#[test]
fn build_adds_no_binding_of_its_own() {
    let doc = ConfigDocument::Table(vec![("only".to_string(), ConfigDocument::Integer(1))]);
    let context = build(&doc).unwrap();
    let names: Vec<&str> = context.bindings().iter().map(|b| b.0.as_str()).collect();
    assert_eq!(names, vec!["only"]);
}

#[test]
fn the_last_entry_of_a_key_wins() {
    let doc = ConfigDocument::Table(vec![
        ("k".to_string(), ConfigDocument::Integer(1)),
        ("other".to_string(), ConfigDocument::Boolean(false)),
        ("k".to_string(), ConfigDocument::String("last".to_string())),
    ]);
    let context = build(&doc).unwrap();
    assert_eq!(context.len(), 2);
    assert_eq!(context.get_val("k"), Some(&text("last")));
    assert_eq!(context.get_val("other"), Some(&DynamicValue::Boolean(false)));
}

#[test]
fn a_nested_table_is_bound_as_an_object() {
    let doc = ConfigDocument::Table(vec![(
        "server".to_string(),
        ConfigDocument::Table(vec![("port".to_string(), ConfigDocument::Integer(80))]),
    )]);
    let context = build(&doc).unwrap();
    assert_eq!(
        context.get_val("server"),
        Some(&DynamicValue::Object(vec![(
            "port".to_string(),
            DynamicValue::Number(80.0f32.to_bits())
        )]))
    );
    assert_eq!(context.get_val("port"), None);
}
