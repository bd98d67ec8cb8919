use reapi::json::{float_to_json, to_json, Json};
use reapi::reply::{ReplyKey, ReplyValue};

fn s(t: &str) -> String {
    t.to_string()
}

#[test]
fn scalars_convert() {
    assert_eq!(to_json(&ReplyValue::Null), Json::Null);
    assert_eq!(to_json(&ReplyValue::NoReply), Json::Null);
    assert_eq!(to_json(&ReplyValue::Boolean(true)), Json::Bool(true));
    assert_eq!(to_json(&ReplyValue::Integer(-42)), Json::Int(-42));
    assert_eq!(to_json(&ReplyValue::SimpleString(s("OK"))), Json::Str(s("OK")));
    assert_eq!(to_json(&ReplyValue::BulkString(s("v"))), Json::Str(s("v")));
    assert_eq!(
        to_json(&ReplyValue::BigNumber(s("123456789012345678901234567890"))),
        Json::Str(s("123456789012345678901234567890"))
    );
    assert_eq!(
        to_json(&ReplyValue::VerbatimString(s("txt:hello"))),
        Json::Str(s("txt:hello"))
    );
    assert_eq!(to_json(&ReplyValue::Error(s("ERR x"))), Json::Str(s("ERR x")));
}

#[test]
fn finite_float_is_a_number() {
    let bits = 1.5f64.to_bits();
    assert_eq!(to_json(&ReplyValue::Float(bits)), Json::Float(bits));
    assert_eq!(float_to_json((-0.0f64).to_bits()), Json::Float((-0.0f64).to_bits()));
}

#[test]
fn nan_and_infinity_are_strings() {
    assert_eq!(to_json(&ReplyValue::Float(f64::NAN.to_bits())), Json::Str(s("NaN")));
    assert_eq!(to_json(&ReplyValue::Float(f64::INFINITY.to_bits())), Json::Str(s("inf")));
    assert_eq!(to_json(&ReplyValue::Float(f64::NEG_INFINITY.to_bits())), Json::Str(s("-inf")));
    assert_eq!(format!("{}", f64::NAN), "NaN");
    assert_eq!(format!("{}", f64::INFINITY), "inf");
    assert_eq!(format!("{}", f64::NEG_INFINITY), "-inf");
}

#[test]
fn valid_utf8_blob_is_its_text() {
    let b = "héllo".as_bytes().to_vec();
    assert_eq!(to_json(&ReplyValue::BinaryBlob(b)), Json::Str(s("héllo")));
}

#[test]
fn invalid_utf8_blob_is_stable_debug_text() {
    let b = vec![0xffu8, 0xfe, 0x41];
    let first = to_json(&ReplyValue::BinaryBlob(b.clone()));
    let second = to_json(&ReplyValue::BinaryBlob(b));
    assert_eq!(first, Json::Str(s("[255, 254, 65]")));
    assert_eq!(first, second);
}

#[test]
fn array_and_sets_keep_order() {
    let v = ReplyValue::Array(vec![ReplyValue::Integer(3), ReplyValue::Null, ReplyValue::Integer(1)]);
    assert_eq!(to_json(&v), Json::Array(vec![Json::Int(3), Json::Null, Json::Int(1)]));
    let set = ReplyValue::OrderedSet(vec![
        ReplyKey::Integer(1),
        ReplyKey::String(s("a")),
        ReplyKey::Boolean(false),
        ReplyKey::BinaryBlob(vec![0x62]),
    ]);
    assert_eq!(
        to_json(&set),
        Json::Array(vec![Json::Int(1), Json::Str(s("a")), Json::Bool(false), Json::Str(s("b"))])
    );
    let unordered = ReplyValue::UnorderedSet(vec![ReplyKey::String(s("x"))]);
    assert_eq!(to_json(&unordered), Json::Array(vec![Json::Str(s("x"))]));
}

#[test]
fn map_keys_are_json_texts() {
    let m = ReplyValue::UnorderedMap(vec![
        (ReplyKey::String(s("a")), ReplyValue::Integer(1)),
        (ReplyKey::Integer(-5), ReplyValue::Integer(2)),
        (ReplyKey::Boolean(true), ReplyValue::Integer(3)),
        (ReplyKey::String(s("q\"t")), ReplyValue::Integer(4)),
        (ReplyKey::BinaryBlob(vec![0xff]), ReplyValue::Integer(5)),
    ]);
    assert_eq!(
        to_json(&m),
        Json::Object(vec![
            (s("\"a\""), Json::Int(1)),
            (s("-5"), Json::Int(2)),
            (s("true"), Json::Int(3)),
            (s("\"q\\\"t\""), Json::Int(4)),
            (s("\"[255]\""), Json::Int(5)),
        ])
    );
}

#[test]
fn colliding_keys_keep_the_later_value_in_place() {
    let m = ReplyValue::OrderedMap(vec![
        (ReplyKey::Integer(7), ReplyValue::Integer(1)),
        (ReplyKey::String(s("k")), ReplyValue::Integer(2)),
        (ReplyKey::BinaryBlob(b"k".to_vec()), ReplyValue::Integer(3)),
    ]);
    assert_eq!(
        to_json(&m),
        Json::Object(vec![(s("7"), Json::Int(1)), (s("\"k\""), Json::Int(3))])
    );
}

#[test]
fn nested_ordered_map_and_array_keep_structure() {
    let inner = ReplyValue::OrderedMap(vec![
        (ReplyKey::String(s("z")), ReplyValue::Integer(26)),
        (ReplyKey::String(s("a")), ReplyValue::Array(vec![ReplyValue::BulkString(s("deep"))])),
    ]);
    let middle = ReplyValue::Array(vec![ReplyValue::Integer(0), inner]);
    let outer = ReplyValue::OrderedMap(vec![
        (ReplyKey::Integer(2), middle),
        (ReplyKey::Integer(1), ReplyValue::Null),
    ]);
    let expected = Json::Object(vec![
        (
            s("2"),
            Json::Array(vec![
                Json::Int(0),
                Json::Object(vec![
                    (s("\"z\""), Json::Int(26)),
                    (s("\"a\""), Json::Array(vec![Json::Str(s("deep"))])),
                ]),
            ]),
        ),
        (s("1"), Json::Null),
    ]);
    assert_eq!(to_json(&outer), expected);
}
