use specjam::normalize::{normalize_doc, project_general, project_shuffle, project_trie};
use specjam::{normalize, EntryError, Json, Section, Trace};

fn pair(section: Section, text: &str) -> (String, String) {
    normalize(section, text, None).unwrap()
}

#[test]
fn general_keeps_only_its_members() {
    let text = r#"{"input": 1, "pre_state": {"a": 2}, "output": null, "post_state": 4, "extra": 5}"#;
    for s in [Section::Accumulate, Section::Safrole, Section::History, Section::Statistics] {
        let (i, o) = pair(s, text);
        assert_eq!(i, r#"{"input":1,"pre_state":{"a":2}}"#);
        assert_eq!(o, r#"{"output":null,"post_state":4}"#);
    }
}

#[test]
fn general_missing_member_fails() {
    let text = r#"{"input": 1, "pre_state": 2, "output": 3}"#;
    assert_eq!(
        normalize(Section::Reports, text, None),
        Err(EntryError::MissingField)
    );
}

#[test]
fn general_needs_an_object() {
    assert_eq!(
        normalize(Section::Disputes, "[1, 2]", None),
        Err(EntryError::WrongShape)
    );
}

#[test]
fn invalid_json_fails() {
    assert_eq!(
        normalize(Section::Assurances, "{\"input\": ", None),
        Err(EntryError::InvalidJson)
    );
}

#[test]
fn trace_rule() {
    let text = r#"{"block": {"h": "0x01"}, "pre_state": [1], "post_state": [2], "other": 0}"#;
    let (i, o) = pair(Section::Trace(Trace::Fallback), text);
    assert_eq!(i, r#"{"block":{"h":"0x01"},"pre_state":[1]}"#);
    assert_eq!(o, r#"{"post_state":[2]}"#);
}

#[test]
fn pvm_rule() {
    let text = r#"{"name": "x", "pre-state": [0, 1], "initial-pc": 0, "initial-page-map": [],
        "initial-memory": [], "initial-gas": 10, "program": [1, 2],
        "expected-status": "halt", "expected-regs": [0, 2], "expected-pc": 3,
        "expected-memory": [], "expected-gas": 8}"#;
    let (i, o) = pair(Section::Pvm, text);
    assert_eq!(
        i,
        r#"{"initial-gas":10,"initial-memory":[],"initial-page-map":[],"initial-pc":0,"initial-regs":[0,1],"program":[1,2]}"#
    );
    assert_eq!(
        o,
        r#"{"expected-gas":8,"expected-memory":[],"expected-pc":3,"expected-regs":[0,2],"expected-status":"halt"}"#
    );
}

#[test]
fn trie_keeps_order_and_length() {
    let text = r#"[{"input": {"k": 1}, "output": "a"}, {"input": {"k": 2}, "output": "b"}, {"input": {}, "output": "c"}]"#;
    let (i, o) = pair(Section::Trie, text);
    assert_eq!(i, r#"[{"input":{"k":1}},{"input":{"k":2}},{"input":{}}]"#);
    assert_eq!(o, r#"[{"output":"a"},{"output":"b"},{"output":"c"}]"#);
}

#[test]
fn shuffle_keeps_order_and_length() {
    let text = r#"[{"input": 3, "entropy": "e1", "output": [2, 0, 1]}, {"input": 0, "entropy": "e2", "output": []}]"#;
    let (i, o) = pair(Section::Shuffle, text);
    assert_eq!(
        i,
        r#"[{"entropy":"e1","input":3},{"entropy":"e2","input":0}]"#
    );
    assert_eq!(o, r#"[{"output":[2,0,1]},{"output":[]}]"#);
}

#[test]
fn array_rules_need_an_array() {
    assert_eq!(
        normalize(Section::Trie, r#"{"input": 1, "output": 2}"#, None),
        Err(EntryError::WrongShape)
    );
    assert_eq!(
        normalize(Section::Shuffle, "{}", None),
        Err(EntryError::WrongShape)
    );
}

#[test]
fn array_rules_check_every_element() {
    assert_eq!(
        normalize(Section::Trie, r#"[{"input": 1, "output": 2}, 7]"#, None),
        Err(EntryError::WrongShape)
    );
    assert_eq!(
        normalize(Section::Shuffle, r#"[{"input": 1, "output": 2}]"#, None),
        Err(EntryError::MissingField)
    );
}

#[test]
fn empty_array_gives_empty_arrays() {
    assert_eq!(pair(Section::Trie, "[]"), ("[]".to_string(), "[]".to_string()));
}

#[test]
fn codec_pairs_hex_with_text() {
    let bytes: [u8; 4] = [0xde, 0xad, 0xbe, 0xef];
    let (i, o) = normalize(Section::Codec, "{\"x\":1}", Some(&bytes)).unwrap();
    assert_eq!(i, "deadbeef");
    assert_eq!(o, "{\"x\":1}");
}

#[test]
fn codec_hex_of_low_bytes() {
    let bytes: [u8; 3] = [0x00, 0x0a, 0xf0];
    let (i, _) = normalize(Section::Codec, "0", Some(&bytes)).unwrap();
    assert_eq!(i, "000af0");
}

#[test]
fn codec_without_bytes_fails() {
    assert_eq!(
        normalize(Section::Codec, "{}", None),
        Err(EntryError::MissingBinary)
    );
}

fn member(k: &str, v: Json) -> (String, Json) {
    (k.to_string(), v)
}

fn number(n: u64) -> Json {
    Json::Number(serde_json::Number::from(n))
}

fn keys(j: &Json) -> Vec<String> {
    match j {
        Json::Object(m) => m.iter().map(|(k, _)| k.clone()).collect(),
        _ => panic!("not an object"),
    }
}

#[test]
fn project_general_on_a_document() {
    let doc = Json::Object(vec![
        member("post_state", number(4)),
        member("input", Json::Bool(true)),
        member("extra", Json::Null),
        member("output", Json::Str("o".to_string())),
        member("pre_state", number(1)),
    ]);
    let (i, o) = project_general(doc).unwrap();
    assert_eq!(keys(&i), vec!["input", "pre_state"]);
    assert_eq!(keys(&o), vec!["output", "post_state"]);
    match &i {
        Json::Object(m) => assert!(matches!(m[0].1, Json::Bool(true))),
        _ => panic!("not an object"),
    }
    match &o {
        Json::Object(m) => assert!(matches!(&m[0].1, Json::Str(s) if s == "o")),
        _ => panic!("not an object"),
    }
}

#[test]
fn project_general_takes_the_last_of_repeated_members() {
    let doc = Json::Object(vec![
        member("input", number(1)),
        member("input", number(2)),
        member("pre_state", Json::Null),
        member("output", Json::Null),
        member("post_state", Json::Null),
    ]);
    let (i, _) = project_general(doc).unwrap();
    match &i {
        Json::Object(m) => {
            assert_eq!(m.len(), 2);
            assert!(matches!(&m[0].1, Json::Number(n) if n.as_u64() == Some(2)));
        }
        _ => panic!("not an object"),
    }
}

#[test]
fn project_rules_on_built_documents() {
    let item = Json::Object(vec![
        member("input", number(5)),
        member("output", Json::Str("x".to_string())),
        member("entropy", Json::Bool(false)),
    ]);
    let (i, o) = project_shuffle(Json::Array(vec![item])).unwrap();
    match (&i, &o) {
        (Json::Array(a), Json::Array(b)) => {
            assert_eq!(a.len(), 1);
            assert_eq!(b.len(), 1);
            assert_eq!(keys(&a[0]), vec!["input", "entropy"]);
            assert_eq!(keys(&b[0]), vec!["output"]);
        }
        _ => panic!("not arrays"),
    }
    assert!(matches!(project_trie(Json::Null), Err(EntryError::WrongShape)));
}

#[test]
fn output_members_come_sorted_and_compact() {
    let text = "{ \"post_state\" : [ 1 , 2 ] , \"output\" : { \"z\" : 1 , \"a\" : 2 } , \"pre_state\" : 0 , \"input\" : 0 }";
    let (_, o) = pair(Section::Preimages, text);
    assert_eq!(o, r#"{"output":{"a":2,"z":1},"post_state":[1,2]}"#);
}

#[test]
fn normalize_doc_dispatches_by_section() {
    assert!(matches!(
        normalize_doc(Section::Codec, Json::Null),
        Err(EntryError::MissingBinary)
    ));
    let doc = Json::Object(vec![
        member("block", number(1)),
        member("pre_state", number(2)),
        member("post_state", number(3)),
    ]);
    let (i, o) = normalize_doc(Section::Trace(Trace::Safrole), doc).unwrap();
    assert_eq!(keys(&i), vec!["block", "pre_state"]);
    assert_eq!(keys(&o), vec!["post_state"]);
    assert!(matches!(
        normalize_doc(Section::Pvm, Json::Array(Vec::new())),
        Err(EntryError::WrongShape)
    ));
}
