use imag::header::{FileHeaderData as FHD, FileHeaderSpec as FHS};
use imag::json::{visit_json, JsonMember, JsonValue};
use imag::parser::JsonHeaderParser;
use imag::writer::to_json;

#[test]
fn test_deserialization() {
    let text = String::from("{\"a\": 1, \"b\": -2}");
    let spec = FHS::Mapping {
        keys: vec![
            FHS::Key { name: String::from("a"), value_type: Box::new(FHS::UInteger) },
            FHS::Key { name: String::from("b"), value_type: Box::new(FHS::Integer) },
        ],
    };

    let parser = JsonHeaderParser::new(Some(spec));
    let parsed = parser.read(Some(text));
    assert!(parsed.is_ok(), "Parsed is not ok: {:?}", parsed);

    match parsed.ok() {
        Some(FHD::Mapping { keys }) => {
            for k in keys {
                match k {
                    FHD::Key { name, value } => {
                        assert!(name == "a" || name == "b", "Key unknown");
                        match &*value {
                            &FHD::UInteger(u) => assert_eq!(u, 1),
                            &FHD::Integer(i) => assert_eq!(i, -2),
                            _ => assert!(false, "Integers are not here"),
                        }
                    }
                    _ => assert!(false, "Key is not a Key"),
                }
            }
        }
        _ => assert!(false, "Parsed is not a map"),
    }
}

#[test]
fn read_without_text_is_null() {
    let parser = JsonHeaderParser::new(None);
    assert!(matches!(parser.read(None), Ok(FHD::Null)));
    assert!(matches!(parser.read_parsed(None), Ok(FHD::Null)));
}

#[test]
fn read_parse_failure_is_reported() {
    let parser = JsonHeaderParser::new(None);
    let text = "{\"a\": ";
    match parser.read(Some(text.to_string())) {
        Err(e) => {
            assert_eq!(e.summary, "JSON parser error: EOF while parsing a value");
            assert_eq!(e.parsertext, e.summary);
            assert_eq!(e.index, 0);
            assert!(e.explanation.is_none());
        }
        Ok(d) => panic!("unexpected {:?}", d),
    }
}

#[test]
fn read_parsed_reports_message() {
    let parser = JsonHeaderParser::new(None);
    match parser.read_parsed(Some(Err(String::from("bad")))) {
        Err(e) => assert_eq!(e.summary, "JSON parser error: bad"),
        Ok(d) => panic!("unexpected {:?}", d),
    }
}

#[test]
fn read_keeps_structure() {
    let parser = JsonHeaderParser::new(None);
    let text = "[null, true, 3, -4, 1.5, \"x\", {\"k\": [1]}]".to_string();
    match parser.read(Some(text)).unwrap() {
        FHD::Array { values } => {
            assert_eq!(values.len(), 7);
            assert!(matches!(values[0], FHD::Null));
            assert!(matches!(values[1], FHD::Bool(true)));
            assert!(matches!(values[2], FHD::UInteger(3)));
            assert!(matches!(values[3], FHD::Integer(-4)));
            assert!(matches!(&values[4], FHD::Float(f) if f == "1.5"));
            assert!(matches!(&values[5], FHD::Text(s) if s == "x"));
            match &values[6] {
                FHD::Mapping { keys } => {
                    assert_eq!(keys.len(), 1);
                    match &keys[0] {
                        FHD::Key { name, value } => {
                            assert_eq!(name, "k");
                            assert!(matches!(&**value, FHD::Array { values } if values.len() == 1));
                        }
                        _ => panic!("not a key"),
                    }
                }
                _ => panic!("not a mapping"),
            }
        }
        d => panic!("not an array: {:?}", d),
    }
}

#[test]
fn read_orders_keys_by_name() {
    let parser = JsonHeaderParser::new(None);
    match parser.read(Some("{\"b\": 1, \"a\": 2, \"ab\": 3}".to_string())).unwrap() {
        FHD::Mapping { keys } => {
            let names: Vec<String> = keys
                .iter()
                .map(|k| match k {
                    FHD::Key { name, .. } => name.clone(),
                    _ => panic!("not a key"),
                })
                .collect();
            assert_eq!(names, vec!["a", "ab", "b"]);
        }
        d => panic!("not a mapping: {:?}", d),
    }
}

#[test]
fn visit_json_converts_document() {
    let doc = JsonValue::Object(vec![JsonMember { name: "n".to_string(), value: JsonValue::NegInt(-1) }]);
    match visit_json(&doc) {
        FHD::Mapping { keys } => {
            assert!(matches!(&keys[0], FHD::Key { name, value } if name == "n" && matches!(**value, FHD::Integer(-1))));
        }
        d => panic!("not a mapping: {:?}", d),
    }
}

fn key(name: &str, value: FHD) -> FHD {
    FHD::Key { name: name.to_string(), value: Box::new(value) }
}

#[test]
fn to_json_numbers() {
    assert!(matches!(to_json(&FHD::Integer(5)), JsonValue::UInt(5)));
    assert!(matches!(to_json(&FHD::Integer(-5)), JsonValue::NegInt(-5)));
    assert!(matches!(to_json(&FHD::UInteger(7)), JsonValue::UInt(7)));
    assert!(matches!(to_json(&FHD::Null), JsonValue::Null));
}

#[test]
fn to_json_later_key_wins() {
    let data = FHD::Mapping {
        keys: vec![key("a", FHD::UInteger(1)), key("b", FHD::Bool(false)), key("a", FHD::UInteger(2))],
    };
    match to_json(&data) {
        JsonValue::Object(ms) => {
            assert_eq!(ms.len(), 2);
            assert_eq!(ms[0].name, "a");
            assert!(matches!(ms[0].value, JsonValue::UInt(2)));
            assert_eq!(ms[1].name, "b");
            assert!(matches!(ms[1].value, JsonValue::Bool(false)));
        }
        _ => panic!("not an object"),
    }
}

#[test]
fn write_then_read_gives_back_canonical_data() {
    let parser = JsonHeaderParser::new(None);
    let data = FHD::Mapping {
        keys: vec![
            key("list", FHD::Array { values: Box::new(vec![FHD::Text("t".to_string()), FHD::UInteger(9), FHD::Float("0.25".to_string())]) }),
            key("n", FHD::Integer(-3)),
        ],
    };
    let text = parser.write(&data).unwrap();
    match parser.read(Some(text)).unwrap() {
        FHD::Mapping { keys } => {
            assert_eq!(keys.len(), 2);
            match &keys[0] {
                FHD::Key { name, value } => {
                    assert_eq!(name, "list");
                    match &**value {
                        FHD::Array { values } => {
                            assert!(matches!(&values[0], FHD::Text(s) if s == "t"));
                            assert!(matches!(values[1], FHD::UInteger(9)));
                            assert!(matches!(&values[2], FHD::Float(f) if f == "0.25"));
                        }
                        _ => panic!("not an array"),
                    }
                }
                _ => panic!("not a key"),
            }
            assert!(matches!(&keys[1], FHD::Key { name, value } if name == "n" && matches!(**value, FHD::Integer(-3))));
        }
        _ => panic!("not a mapping"),
    }
}

#[test]
fn read_then_write_gives_back_document() {
    let parser = JsonHeaderParser::new(None);
    let text = "{\"z\": \"w\", \"x\": [1, -2, 2.5, {\"y\": null}]}";
    let d = parser.read(Some(text.to_string())).unwrap();
    let written = parser.write(&d).unwrap();
    let a: serde_json::Value = serde_json::from_str(text).unwrap();
    let b: serde_json::Value = serde_json::from_str(&written).unwrap();
    assert_eq!(a, b);
}

#[test]
fn write_is_pretty_printed() {
    let parser = JsonHeaderParser::new(None);
    let data = FHD::Mapping { keys: vec![key("a", FHD::UInteger(1))] };
    assert_eq!(parser.write(&data).unwrap(), "{\n  \"a\": 1\n}");
    assert_eq!(parser.write(&FHD::Null).unwrap(), "null");
}

#[test]
fn write_bytes_checks_utf8() {
    let parser = JsonHeaderParser::new(None);
    assert_eq!(parser.write_bytes(b"{\"a\": 1}".to_vec()).unwrap(), "{\"a\": 1}");
    match parser.write_bytes(vec![0xff, 0xfe]) {
        Err(e) => {
            assert_eq!(e.summary, "Cannot parse utf8 bytes");
            assert_eq!(e.parsertext, "<not printable>");
            assert_eq!(e.index, 0);
        }
        Ok(s) => panic!("unexpected {}", s),
    }
}
