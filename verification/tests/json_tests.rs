use brownie::decode::{read_items, read_optional_text, read_text, read_texts};
use brownie::json::{JsonNumber, JsonNumberKind, JsonValue};

#[test]
fn parse_reads_nested_document() {
    let doc = JsonValue::parse("{\"a\": [1, -2, 1.5, \"x\", true, null]}").expect("valid json");
    let items = doc.get("a").and_then(|v| v.as_array()).expect("array member");
    assert_eq!(items.len(), 6);
    assert_eq!(items[0].as_number().map(|n| n.kind), Some(JsonNumberKind::PosInt(1)));
    assert_eq!(items[1].as_number().map(|n| n.kind), Some(JsonNumberKind::NegInt(-2)));
    assert_eq!(items[2].as_number().map(|n| n.float_bits), Some(1.5f64.to_bits()));
    assert_eq!(items[3].as_text(), Some("x"));
    assert_eq!(items[4].as_bool(), Some(true));
    assert_eq!(items[5], JsonValue::Null);
}

#[test]
fn parse_refuses_malformed_text() {
    assert!(JsonValue::parse("{not json").is_err());
}

#[test]
fn a_whole_number_carries_the_bits_of_its_double() {
    assert_eq!(JsonNumber::whole(0).float_bits, 0);
    assert_eq!(JsonNumber::whole(1).float_bits, 0x3ff0_0000_0000_0000);
    assert_eq!(JsonNumber::whole(2).float_bits, 0x4000_0000_0000_0000);
    assert_eq!(JsonNumber::whole(3).float_bits, 0x4008_0000_0000_0000);
    let samples: [u32; 12] =
        [0, 1, 2, 3, 7, 8, 99, 1000, 65_535, 65_536, 0x7fff_ffff, u32::MAX];
    for v in samples {
        let n = JsonNumber::whole(v);
        assert_eq!(n.kind, JsonNumberKind::PosInt(v as u64));
        assert_eq!(n.float_bits, (v as f64).to_bits(), "bits of {v}");
    }
    let mut v: u32 = 1;
    while v < 3_000_000_000 {
        assert_eq!(JsonNumber::whole(v).float_bits, (v as f64).to_bits(), "bits of {v}");
        v = v + v / 3 + 1;
    }
}

#[test]
fn a_parsed_whole_number_is_the_number_that_is_made() {
    let parsed = JsonValue::parse("[0, 2, 4294967295]").expect("valid json");
    let items = parsed.as_array().expect("an array");
    assert_eq!(items[0].as_number(), Some(JsonNumber::whole(0)));
    assert_eq!(items[1].as_number(), Some(JsonNumber::whole(2)));
    assert_eq!(items[2].as_number(), Some(JsonNumber::whole(u32::MAX)));
}

#[test]
fn a_member_of_the_wrong_type_is_reported_by_its_key() {
    let doc = JsonValue::parse("{\"id\": 7, \"title\": \"T\", \"tags\": [\"a\", 1], \"rows\": {}}")
        .expect("valid json");
    assert_eq!(read_text(&doc, "title"), Ok("T".to_string()));
    assert_eq!(read_text(&doc, "id"), Err("missing or invalid field `id`".to_string()));
    assert_eq!(read_text(&doc, "name"), Err("missing or invalid field `name`".to_string()));
    assert_eq!(read_optional_text(&doc, "name"), Ok(None));
    assert_eq!(
        read_optional_text(&doc, "id"),
        Err("missing or invalid field `id`".to_string())
    );
    assert_eq!(read_items(&doc, "rows"), Err("missing or invalid field `rows`".to_string()));
    assert_eq!(read_items(&doc, "none"), Ok(None));
    assert_eq!(read_texts(&doc, "tags"), Err("missing or invalid field `tags`".to_string()));
    assert_eq!(read_texts(&doc, "none"), Ok(Vec::new()));
}
