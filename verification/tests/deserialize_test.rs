use abi_deserializer::{AbiDeserializer, Cursor, SchemaMap, SchemaNode};

fn leaf(tag: &str) -> SchemaNode {
    SchemaNode::Leaf(tag.to_string())
}

fn encode_u64(out: &mut Vec<u8>, x: u64) {
    out.extend_from_slice(&x.to_le_bytes());
}

fn encode_u32(out: &mut Vec<u8>, x: u32) {
    out.extend_from_slice(&x.to_le_bytes());
}

fn encode_bool(out: &mut Vec<u8>, b: bool) {
    out.push(if b { 1 } else { 0 });
}

fn encode_bytes(out: &mut Vec<u8>, bs: &[u8]) {
    encode_u32(out, bs.len() as u32);
    out.extend_from_slice(bs);
}

fn byte_array(bs: &[u8]) -> serde_json::Value {
    serde_json::Value::Array(bs.iter().map(|b| serde_json::Value::from(*b as u64)).collect())
}

#[test]
fn deserialize_test_from_map() {
    // The record: a u64, a byte sequence, a bool, a u32, and a 32-byte
    // address serialized as a byte sequence.
    let b_field: Vec<u8> = vec![0, 1, 2, 3, 4, 5, 6, 7, 8];
    let addr = [5u8; 32];
    let mut serialized: Vec<u8> = Vec::new();
    encode_u64(&mut serialized, 15);
    encode_bytes(&mut serialized, &b_field);
    encode_bool(&mut serialized, true);
    encode_u32(&mut serialized, 34);
    encode_bytes(&mut serialized, &addr);

    let mut inner = SchemaMap::new();
    inner.insert("0".to_string(), leaf("bytes"));
    let mut abi = SchemaMap::new();
    abi.insert("a".to_string(), leaf("u64"));
    abi.insert("b".to_string(), leaf("bytes"));
    abi.insert("c".to_string(), leaf("bool"));
    abi.insert("d".to_string(), leaf("u32"));
    abi.insert("e".to_string(), SchemaNode::Group(inner));

    let mut expect_e = serde_json::Map::new();
    expect_e.insert("0".to_string(), byte_array(&addr));
    let mut expect = serde_json::Map::new();
    expect.insert("a".to_string(), serde_json::Value::from(15u64));
    expect.insert("b".to_string(), byte_array(&b_field));
    expect.insert("c".to_string(), serde_json::Value::Bool(true));
    expect.insert("d".to_string(), serde_json::Value::from(34u64));
    expect.insert("e".to_string(), serde_json::Value::Object(expect_e));

    let de = AbiDeserializer::from_map(abi);
    let mut deserializer = Cursor::new(&serialized);
    let map = de.deserialize(&mut deserializer).unwrap();
    let rendered: serde_json::Value =
        serde_json::from_str(&abi_deserializer::render_compact(&map)).unwrap();
    assert_eq!(rendered, serde_json::Value::Object(expect));
}

#[test]
fn deserialize_test_from_str() {
    let b_field: Vec<u8> = vec![1, 1, 2, 3, 4, 5, 6, 7, 8];
    let addr = [8u8; 32];
    let mut serialized: Vec<u8> = Vec::new();
    encode_u64(&mut serialized, 33);
    encode_bytes(&mut serialized, &b_field);
    encode_bool(&mut serialized, false);
    encode_u32(&mut serialized, 22);
    encode_bytes(&mut serialized, &addr);

    let abi = r#"
        {
            "a": "u64",
            "b": "bytes",
            "c": "bool",
            "d": "u32",
            "e": {
                "0": "bytes"
            }
        }"#;

    let mut expect_e = serde_json::Map::new();
    expect_e.insert("0".to_string(), byte_array(&addr));
    let mut expect = serde_json::Map::new();
    expect.insert("a".to_string(), serde_json::Value::from(33u64));
    expect.insert("b".to_string(), byte_array(&b_field));
    expect.insert("c".to_string(), serde_json::Value::Bool(false));
    expect.insert("d".to_string(), serde_json::Value::from(22u64));
    expect.insert("e".to_string(), serde_json::Value::Object(expect_e));

    let de = AbiDeserializer::from_str(abi).unwrap();
    let mut deserializer = Cursor::new(&serialized);
    let map = de.deserialize(&mut deserializer).unwrap();
    let rendered: serde_json::Value =
        serde_json::from_str(&abi_deserializer::render_compact(&map)).unwrap();
    assert_eq!(rendered, serde_json::Value::Object(expect));
}
