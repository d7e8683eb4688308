use abi_deserializer::{
    AbiDeserializer, AbiError, Cursor, CursorError, SchemaMap, SchemaNode, ValueMap, ValueNode,
};

fn leaf(tag: &str) -> SchemaNode {
    SchemaNode::Leaf(tag.to_string())
}

fn le_bytes(xs: &[&[u8]]) -> Vec<u8> {
    let mut out = Vec::new();
    for x in xs {
        out.extend_from_slice(x);
    }
    out
}

#[test]
fn order_sensitivity() {
    // u64(15) then u32(34), little-endian.
    let bytes = le_bytes(&[&15u64.to_le_bytes(), &34u32.to_le_bytes()]);

    let mut forward = SchemaMap::new();
    forward.insert("a".to_string(), leaf("u64"));
    forward.insert("b".to_string(), leaf("u32"));
    let de = AbiDeserializer::from_map(forward);
    let mut cursor = Cursor::new(&bytes);
    let map = de.deserialize(&mut cursor).unwrap();
    assert!(matches!(map.get(&"a".to_string()), Some(ValueNode::U64(15))));
    assert!(matches!(map.get(&"b".to_string()), Some(ValueNode::U32(34))));

    // The same bytes against the reversed field order decode to different
    // values: the schema's field order must match the byte layout's.
    let mut backward = SchemaMap::new();
    backward.insert("b".to_string(), leaf("u32"));
    backward.insert("a".to_string(), leaf("u64"));
    let de2 = AbiDeserializer::from_map(backward);
    let mut cursor2 = Cursor::new(&bytes);
    let map2 = de2.deserialize(&mut cursor2).unwrap();
    assert!(matches!(map2.get(&"b".to_string()), Some(ValueNode::U32(15))));
    assert!(matches!(
        map2.get(&"a".to_string()),
        Some(ValueNode::U64(0x0000_0022_0000_0000))
    ));
}

#[test]
fn first_write_wins() {
    let bytes = le_bytes(&[&15u64.to_le_bytes(), &34u32.to_le_bytes()]);
    let mut schema = SchemaMap::new();
    schema.insert("a".to_string(), leaf("u64"));
    schema.insert("b".to_string(), leaf("u32"));
    let de = AbiDeserializer::from_map(schema);

    let mut seed = ValueMap::new();
    assert!(seed.insert("a".to_string(), ValueNode::U64(999)));

    let mut cursor = Cursor::new(&bytes);
    let map = de.deserialize_seeded(&mut cursor, seed).unwrap();
    // The seeded value survives; the decoded 15 is dropped but its bytes
    // were still consumed, so the sibling decodes normally.
    assert!(matches!(map.get(&"a".to_string()), Some(ValueNode::U64(999))));
    assert!(matches!(map.get(&"b".to_string()), Some(ValueNode::U32(34))));
    assert_eq!(cursor.current_position(), 12);
}

#[test]
fn value_map_insert_is_first_write_wins() {
    let mut m = ValueMap::new();
    assert!(m.insert("k".to_string(), ValueNode::Bool(true)));
    assert!(!m.insert("k".to_string(), ValueNode::Bool(false)));
    assert!(matches!(m.get(&"k".to_string()), Some(ValueNode::Bool(true))));
    assert_eq!(m.len(), 1);
}

#[test]
fn unsupported_tag_rejected() {
    let mut schema = SchemaMap::new();
    schema.insert("x".to_string(), leaf("u16"));
    let de = AbiDeserializer::from_map(schema);
    let mut cursor = Cursor::new(&[1, 2, 3, 4]);
    match de.deserialize(&mut cursor) {
        Err(AbiError::UnsupportedType { path }) => {
            assert_eq!(path, vec!["x".to_string()]);
        }
        other => panic!("expected an unsupported-type error, got {:?}", other.is_ok()),
    }
    // No bytes were consumed for the unsupported field.
    assert_eq!(cursor.current_position(), 0);
}

#[test]
fn non_leaf_non_group_schema_rejected() {
    let de = AbiDeserializer::from_str(r#"{"x": 5}"#).unwrap();
    let mut cursor = Cursor::new(&[1, 2, 3, 4]);
    match de.deserialize(&mut cursor) {
        Err(AbiError::UnsupportedType { path }) => {
            assert_eq!(path, vec!["x".to_string()]);
        }
        _ => panic!("expected an unsupported-type error"),
    }
}

#[test]
fn truncation_is_fatal() {
    let mut schema = SchemaMap::new();
    schema.insert("a".to_string(), leaf("u64"));
    let de = AbiDeserializer::from_map(schema);
    let mut cursor = Cursor::new(&[1, 2, 3, 4]);
    match de.deserialize(&mut cursor) {
        Err(AbiError::CursorDecodeError { path, cause }) => {
            assert_eq!(path, vec!["a".to_string()]);
            assert_eq!(cause, CursorError::UnexpectedEof);
        }
        _ => panic!("expected a cursor error"),
    }
}

#[test]
fn nested_error_carries_path() {
    let de = AbiDeserializer::from_str(r#"{"e": {"x": "u64"}}"#).unwrap();
    let mut cursor = Cursor::new(&[]);
    match de.deserialize(&mut cursor) {
        Err(AbiError::CursorDecodeError { path, cause }) => {
            assert_eq!(path, vec!["e".to_string(), "x".to_string()]);
            assert_eq!(cause, CursorError::UnexpectedEof);
        }
        _ => panic!("expected a cursor error"),
    }
}

#[test]
fn invalid_bool_byte() {
    let mut schema = SchemaMap::new();
    schema.insert("c".to_string(), leaf("bool"));
    let de = AbiDeserializer::from_map(schema);
    let mut cursor = Cursor::new(&[7]);
    match de.deserialize(&mut cursor) {
        Err(AbiError::CursorDecodeError { path, cause }) => {
            assert_eq!(path, vec!["c".to_string()]);
            assert_eq!(cause, CursorError::InvalidBool);
        }
        _ => panic!("expected a cursor error"),
    }
}

#[test]
fn parse_error_and_malformed_schema() {
    assert!(matches!(
        AbiDeserializer::from_str("this is not json"),
        Err(AbiError::ParseError)
    ));
    assert!(matches!(
        AbiDeserializer::from_str("[1, 2]"),
        Err(AbiError::MalformedSchema)
    ));
    assert!(matches!(
        AbiDeserializer::from_str("\"u64\""),
        Err(AbiError::MalformedSchema)
    ));
    assert!(AbiDeserializer::from_str("{}").is_ok());
}

#[test]
fn cursor_primitives() {
    let bytes = le_bytes(&[
        &0x1122_3344_5566_7788u64.to_le_bytes(),
        &0xdead_beefu32.to_le_bytes(),
        &[1u8],
        &3u32.to_le_bytes(),
        &[10, 20, 30],
    ]);
    let mut c = Cursor::new(&bytes);
    assert_eq!(c.remaining(), bytes.len());
    assert_eq!(c.decode_u64(), Ok(0x1122_3344_5566_7788));
    assert_eq!(c.decode_u32(), Ok(0xdead_beef));
    assert_eq!(c.decode_bool(), Ok(true));
    assert_eq!(c.decode_bytes(), Ok(vec![10, 20, 30]));
    assert_eq!(c.remaining(), 0);
    assert_eq!(c.decode_bool(), Err(CursorError::UnexpectedEof));
}

#[test]
fn cursor_bytes_truncated_payload() {
    // Length prefix announces 5 bytes but only 2 follow.
    let bytes = le_bytes(&[&5u32.to_le_bytes(), &[1, 2]]);
    let mut c = Cursor::new(&bytes);
    assert_eq!(c.decode_bytes(), Err(CursorError::UnexpectedEof));
    assert_eq!(c.current_position(), 0);
}

#[test]
fn compact_rendering_exact() {
    let bytes = le_bytes(&[&15u64.to_le_bytes(), &[1u8], &2u32.to_le_bytes(), &[9, 0]]);
    let de = AbiDeserializer::from_str(r#"{"a": "u64", "b": "bool", "c": "bytes"}"#).unwrap();
    let mut cursor = Cursor::new(&bytes);
    let s = de.deserialize_to_string(&mut cursor).unwrap();
    assert_eq!(s, "{\"a\":15,\"b\":true,\"c\":[9,0]}");
}

#[test]
fn pretty_rendering_exact() {
    let bytes = le_bytes(&[&15u64.to_le_bytes()]);
    let de = AbiDeserializer::from_str(r#"{"a": "u64"}"#).unwrap();
    let mut cursor = Cursor::new(&bytes);
    let s = de.deserialize_to_string_pretty(&mut cursor).unwrap();
    assert_eq!(s, "{\n  \"a\": 15\n}");
}

#[test]
fn rendering_idempotent_and_parses_back() {
    let bytes = le_bytes(&[
        &15u64.to_le_bytes(),
        &2u32.to_le_bytes(),
        &[7, 8],
        &[0u8],
        &34u32.to_le_bytes(),
    ]);
    let de = AbiDeserializer::from_str(
        r#"{"a": "u64", "b": "bytes", "c": "bool", "e": {"d": "u32"}}"#,
    )
    .unwrap();
    let mut cursor = Cursor::new(&bytes);
    let map = de.deserialize(&mut cursor).unwrap();

    // Rendering the same tree twice yields byte-identical text.
    let once = abi_deserializer::render_compact(&map);
    let twice = abi_deserializer::render_compact(&map);
    assert_eq!(once, twice);
    let pretty_once = abi_deserializer::render_pretty(&map);
    let pretty_twice = abi_deserializer::render_pretty(&map);
    assert_eq!(pretty_once, pretty_twice);

    // Both renderings parse back to the same tree.
    let from_compact: serde_json::Value = serde_json::from_str(&once).unwrap();
    let from_pretty: serde_json::Value = serde_json::from_str(&pretty_once).unwrap();
    assert_eq!(from_compact, from_pretty);
}

#[test]
fn empty_containers_render() {
    let de = AbiDeserializer::from_str(r#"{"g": {}, "b": "bytes"}"#).unwrap();
    let bytes = 0u32.to_le_bytes().to_vec();
    let mut cursor = Cursor::new(&bytes);
    let map = de.deserialize(&mut cursor).unwrap();
    assert_eq!(abi_deserializer::render_compact(&map), "{\"g\":{},\"b\":[]}");
    assert_eq!(
        abi_deserializer::render_pretty(&map),
        "{\n  \"g\": {},\n  \"b\": []\n}"
    );
}

#[test]
fn key_escaping_in_rendering() {
    let de = AbiDeserializer::from_str(r#"{"with \"quote\"": "u32"}"#).unwrap();
    let bytes = 5u32.to_le_bytes().to_vec();
    let mut cursor = Cursor::new(&bytes);
    let s = de.deserialize_to_string(&mut cursor).unwrap();
    assert_eq!(s, "{\"with \\\"quote\\\"\":5}");
    let back: serde_json::Value = serde_json::from_str(&s).unwrap();
    assert_eq!(back["with \"quote\""], serde_json::Value::from(5u64));
}

#[test]
fn schema_map_patching() {
    let mut schema = SchemaMap::new();
    schema.insert("a".to_string(), leaf("u64"));
    let mut de = AbiDeserializer::from_map(schema);
    assert_eq!(de.get_map().len(), 1);
    assert!(de.get_map().contains_key(&"a".to_string()));

    // Patch the schema through the mutable accessor, then decode with the
    // extra field.
    assert!(de.get_map_mut().insert("b".to_string(), leaf("u32")));
    assert!(!de.get_map_mut().insert("b".to_string(), leaf("bool")));
    let bytes = le_bytes(&[&1u64.to_le_bytes(), &2u32.to_le_bytes()]);
    let mut cursor = Cursor::new(&bytes);
    let map = de.deserialize(&mut cursor).unwrap();
    assert!(matches!(map.get(&"b".to_string()), Some(ValueNode::U32(2))));
}

#[test]
fn seeded_nested_group_filled_in_place() {
    let de = AbiDeserializer::from_str(r#"{"e": {"x": "u32", "y": "u32"}}"#).unwrap();
    let mut inner = ValueMap::new();
    inner.insert("x".to_string(), ValueNode::U32(7));
    let mut seed = ValueMap::new();
    seed.insert("e".to_string(), ValueNode::Group(inner));

    let bytes = le_bytes(&[&1u32.to_le_bytes(), &2u32.to_le_bytes()]);
    let mut cursor = Cursor::new(&bytes);
    let map = de.deserialize_seeded(&mut cursor, seed).unwrap();
    match map.get(&"e".to_string()) {
        Some(ValueNode::Group(g)) => {
            // The seeded "x" survives; "y" is decoded from the bytes after
            // the ones consumed for (and dropped at) "x".
            assert!(matches!(g.get(&"x".to_string()), Some(ValueNode::U32(7))));
            assert!(matches!(g.get(&"y".to_string()), Some(ValueNode::U32(2))));
        }
        _ => panic!("expected a nested group"),
    }
}
