use render_liquid::document::ConfigDocument;
use render_liquid::reader::read_document;

fn entry(key: &str, doc: ConfigDocument) -> (String, ConfigDocument) {
    (key.to_string(), doc)
}

fn string(s: &str) -> ConfigDocument {
    ConfigDocument::String(s.to_string())
}

#[test]
fn an_empty_text_is_an_empty_table() {
    assert_eq!(read_document(""), Ok(ConfigDocument::Table(vec![])));
    assert_eq!(read_document("# nothing but a comment\n"), Ok(ConfigDocument::Table(vec![])));
}

#[test]
fn scalars_are_read_by_their_kind() {
    let text = "bool_val = true\nint_val = 123\nfloat_val = 456.7\nstring_val = \"Hello\"\n";
    assert_eq!(
        read_document(text),
        Ok(ConfigDocument::Table(vec![
            entry("bool_val", ConfigDocument::Boolean(true)),
            entry("float_val", ConfigDocument::Float(456.7f64.to_bits())),
            entry("int_val", ConfigDocument::Integer(123)),
            entry("string_val", string("Hello")),
        ]))
    );
}

#[test]
fn a_float_is_read_as_the_pattern_of_its_double() {
    assert_eq!(
        read_document("x = 456.7"),
        Ok(ConfigDocument::Table(vec![entry("x", ConfigDocument::Float(0x407c_8b33_3333_3333))]))
    );
    assert_eq!(
        read_document("x = -0.5"),
        Ok(ConfigDocument::Table(vec![entry("x", ConfigDocument::Float((-0.5f64).to_bits()))]))
    );
    assert_eq!(
        read_document("x = 1e3"),
        Ok(ConfigDocument::Table(vec![entry("x", ConfigDocument::Float(1000.0f64.to_bits()))]))
    );
}

#[test]
fn infinity_and_not_a_number_are_read() {
    assert_eq!(
        read_document("x = inf\ny = -inf"),
        Ok(ConfigDocument::Table(vec![
            entry("x", ConfigDocument::Float(f64::INFINITY.to_bits())),
            entry("y", ConfigDocument::Float(f64::NEG_INFINITY.to_bits())),
        ]))
    );
    match read_document("x = nan") {
        Ok(ConfigDocument::Table(entries)) => match entries.as_slice() {
            [(key, ConfigDocument::Float(bits))] => {
                assert_eq!(key, "x");
                assert!(f64::from_bits(*bits).is_nan());
            }
            other => panic!("read as {:?}", other),
        },
        other => panic!("read as {:?}", other),
    }
}

#[test]
fn a_number_out_of_range_is_refused() {
    assert!(read_document("x = 99999999999999999999").is_err());
    assert!(read_document("x = 1e400").is_err());
}

#[test]
fn an_integer_is_read_in_full() {
    assert_eq!(
        read_document("big = 9223372036854775807\nsmall = -9223372036854775808"),
        Ok(ConfigDocument::Table(vec![
            entry("big", ConfigDocument::Integer(i64::MAX)),
            entry("small", ConfigDocument::Integer(i64::MIN)),
        ]))
    );
}

#[test]
fn a_timestamp_is_read_as_its_canonical_text() {
    assert_eq!(
        read_document("at = 1979-05-27T07:32:00Z"),
        Ok(ConfigDocument::Table(vec![entry(
            "at",
            ConfigDocument::Timestamp("1979-05-27T07:32:00Z".to_string())
        )]))
    );
    assert_eq!(
        read_document("at = 1979-05-27T00:32:00.500000-07:00"),
        Ok(ConfigDocument::Table(vec![entry(
            "at",
            ConfigDocument::Timestamp("1979-05-27T00:32:00.5-07:00".to_string())
        )]))
    );
    assert_eq!(
        read_document("at = 07:32:00"),
        Ok(ConfigDocument::Table(vec![entry(
            "at",
            ConfigDocument::Timestamp("07:32:00".to_string())
        )]))
    );
    assert_eq!(
        read_document("day = 1979-05-27"),
        Ok(ConfigDocument::Table(vec![entry(
            "day",
            ConfigDocument::Timestamp("1979-05-27".to_string())
        )]))
    );
}

#[test]
fn an_array_is_read_in_its_order() {
    assert_eq!(
        read_document("array_val = [\"172.17.0.2\", \"172.17.0.3\"]"),
        Ok(ConfigDocument::Table(vec![entry(
            "array_val",
            ConfigDocument::Sequence(vec![string("172.17.0.2"), string("172.17.0.3")])
        )]))
    );
    assert_eq!(
        read_document("n = [3, 1, 2]"),
        Ok(ConfigDocument::Table(vec![entry(
            "n",
            ConfigDocument::Sequence(vec![
                ConfigDocument::Integer(3),
                ConfigDocument::Integer(1),
                ConfigDocument::Integer(2),
            ])
        )]))
    );
}

#[test]
fn tables_are_read_with_their_entries() {
    let text = "title = \"t\"\n[server]\nport = 80\n[server.tls]\non = false\n[[peer]]\nid = 1\n[[peer]]\nid = 2\n";
    assert_eq!(
        read_document(text),
        Ok(ConfigDocument::Table(vec![
            entry(
                "peer",
                ConfigDocument::Sequence(vec![
                    ConfigDocument::Table(vec![entry("id", ConfigDocument::Integer(1))]),
                    ConfigDocument::Table(vec![entry("id", ConfigDocument::Integer(2))]),
                ])
            ),
            entry(
                "server",
                ConfigDocument::Table(vec![
                    entry("port", ConfigDocument::Integer(80)),
                    entry(
                        "tls",
                        ConfigDocument::Table(vec![entry("on", ConfigDocument::Boolean(false))])
                    ),
                ])
            ),
            entry("title", string("t")),
        ]))
    );
}

#[test]
fn what_is_not_toml_is_refused_with_a_complaint() {
    for text in ["a = ", "= 1", "a = 1\na = 2", "[t\nx = 1", "a = \"open", "just words"].iter() {
        match read_document(text) {
            Err(complaint) => assert!(!complaint.is_empty(), "no complaint about {:?}", text),
            Ok(doc) => panic!("{:?} was read as {:?}", text, doc),
        }
    }
}

#[test]
fn the_same_text_reads_the_same_twice() {
    let text = "b = 2\na = [1.5, 2.5]\n[c]\nd = 2001-02-03T04:05:06Z\n";
    assert_eq!(read_document(text), read_document(text));
    assert_eq!(read_document("a = "), read_document("a = "));
}
