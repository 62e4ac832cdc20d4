use llmspec::json::{
    array1, copy, get, get_text, number_u64, object0, object2, read_json, read_json_bytes, text, to_pretty_text, to_text,
    Json,
};

#[test]
fn compact_text_reads_back_as_the_same_document() {
    let doc = r#"{"a":[true,null,"x\"y",1.5,-2],"b":{"c":{}},"d":[]}"#;
    let j = read_json(doc).unwrap();
    assert_eq!(to_text(&j), doc);
    let again = read_json(&to_text(&j)).unwrap();
    assert_eq!(to_text(&again), doc);
}

#[test]
fn insignificant_whitespace_is_dropped() {
    let j = read_json(" { \"k\" : [ 1 , 2 ] } ").unwrap();
    assert_eq!(to_text(&j), r#"{"k":[1,2]}"#);
}

#[test]
fn pretty_text_indents_by_two_spaces() {
    let j = read_json(r#"{"a":[1,2],"b":{},"c":[],"d":{"e":"f"}}"#).unwrap();
    assert_eq!(
        to_pretty_text(&j),
        "{\n  \"a\": [\n    1,\n    2\n  ],\n  \"b\": {},\n  \"c\": [],\n  \"d\": {\n    \"e\": \"f\"\n  }\n}"
    );
    assert_eq!(to_pretty_text(&Json::Null), "null");
    assert_eq!(to_pretty_text(&text("tab\there")), "\"tab\\there\"");
}

#[test]
fn strings_are_escaped_as_serde_json_escapes_them() {
    assert_eq!(to_text(&text("line\nbreak")), r#""line\nbreak""#);
    assert_eq!(to_text(&text("quote \" and \\")), r#""quote \" and \\""#);
    assert_eq!(to_text(&text("\u{1}")), r#""\u0001""#);
}

#[test]
fn errors_carry_the_parser_message() {
    match read_json("{nope") {
        Err(e) => assert!(e.contains("line 1"), "{e}"),
        Ok(_) => panic!("not JSON"),
    }
    assert!(read_json_bytes(&[0xff, 0xfe]).is_err());
    assert!(read_json("").is_err());
}

#[test]
fn members_are_found_by_key_and_numbers_read_as_u64() {
    let j = read_json(r#"{"n":42,"s":"x","neg":-1,"big":18446744073709551615,"f":1.0}"#).unwrap();
    assert_eq!(get_text(&j, "s").map(|s| s.as_str()), Some("x"));
    assert_eq!(get_text(&j, "n"), None);
    assert_eq!(get(&j, "n").and_then(number_u64), Some(42));
    assert_eq!(get(&j, "big").and_then(number_u64), Some(u64::MAX));
    assert_eq!(get(&j, "neg").and_then(number_u64), None);
    assert_eq!(get(&j, "f").and_then(number_u64), None);
    assert!(get(&j, "missing").is_none());
    assert!(get(&Json::Null, "n").is_none());
}

#[test]
fn members_are_written_in_key_order() {
    let j = object2("z", array1(text("a")), "y", object0());
    assert_eq!(to_text(&j), r#"{"y":{},"z":["a"]}"#);
    assert_eq!(to_text(&copy(&j)), to_text(&j));
}
