use serde_field_codecs::option_separate_by_comma;
use serde_field_codecs::separate_by_comma;
use serde_json::Value;

fn strings(xs: &[&str]) -> Vec<String> {
    xs.iter().map(|x| x.to_string()).collect()
}

fn field(doc: &Value, name: &str) -> Value {
    doc.get(name).cloned().unwrap_or(Value::Null)
}

fn text_field(doc: &Value, name: &str) -> String {
    field(doc, name).as_str().unwrap().to_string()
}

#[test]
fn serialize_separate_by_comma() {
    let ichiro: Value = serde_json::from_str(r#"{"id": "1", "names": "aa,いい,uu"}"#).unwrap();
    let id = text_field(&ichiro, "id");
    let names = separate_by_comma::deserialize(text_field(&ichiro, "names"));

    assert_eq!(id, "1", "Not applied");
    assert_eq!(names, vec!["aa", "いい", "uu"], "Applied");
}

#[test]
fn separator_serialize_separate_by_comma() {
    let ichiro: Value = serde_json::from_str(r#"{"id": "1", "names": "aa,いい,uu"}"#).unwrap();
    let id = text_field(&ichiro, "id");
    let names = option_separate_by_comma::deserialize(field(&ichiro, "names").as_str().map(String::from));

    assert_eq!(id, "1", "Not applied");
    assert_eq!(
        names,
        Some(vec!["aa".to_string(), "いい".to_string(), "uu".to_string()]),
        "Applied"
    );
}

#[test]
fn serialize_none() {
    let ichiro: Value = serde_json::from_str(r#"{"id": "1", "names": null}"#).unwrap();
    let id = text_field(&ichiro, "id");
    let names = option_separate_by_comma::deserialize(field(&ichiro, "names").as_str().map(String::from));

    assert_eq!(id, "1", "Not applied");
    assert_eq!(names, None, "Applied");
}

#[test]
fn split_of_empty_is_one_empty_element() {
    assert_eq!(separate_by_comma::deserialize(String::new()), strings(&[""]));
}

#[test]
fn split_keeps_empty_interior_segment() {
    assert_eq!(separate_by_comma::deserialize("a,,b".to_string()), strings(&["a", "", "b"]));
}

#[test]
fn split_keeps_leading_and_trailing_empty_segments() {
    assert_eq!(separate_by_comma::deserialize(",".to_string()), strings(&["", ""]));
    assert_eq!(separate_by_comma::deserialize(",x,".to_string()), strings(&["", "x", ""]));
}

#[test]
fn split_without_delimiter_is_one_element() {
    assert_eq!(separate_by_comma::deserialize("いい uu".to_string()), strings(&["いい uu"]));
}

#[test]
fn split_multibyte_elements() {
    assert_eq!(
        separate_by_comma::deserialize("aa,いい,uu".to_string()),
        strings(&["aa", "いい", "uu"])
    );
}

#[test]
fn join_of_empty_list_is_empty_string() {
    assert_eq!(separate_by_comma::serialize(&Vec::new()), "");
}

#[test]
fn join_two_elements() {
    assert_eq!(separate_by_comma::serialize(&strings(&["a", "b"])), "a,b");
}

#[test]
fn join_single_and_empty_elements() {
    assert_eq!(separate_by_comma::serialize(&strings(&["solo"])), "solo");
    assert_eq!(separate_by_comma::serialize(&strings(&["", ""])), ",");
    assert_eq!(separate_by_comma::serialize(&strings(&["aa", "いい", "uu"])), "aa,いい,uu");
}

#[test]
fn round_trip_list_without_delimiters() {
    for xs in [strings(&["aa", "いい", "uu"]), strings(&[""]), strings(&["", "x", ""]), strings(&["a"])] {
        let joined = separate_by_comma::serialize(&xs);
        assert_eq!(separate_by_comma::deserialize(joined), xs);
    }
}

#[test]
fn round_trip_string() {
    for s in ["", ",", "a,,b", "aa,いい,uu", "no delimiter"] {
        let parts = separate_by_comma::deserialize(s.to_string());
        assert_eq!(separate_by_comma::serialize(&parts), s);
    }
}

#[test]
fn embedded_delimiter_is_not_escaped() {
    let joined = separate_by_comma::serialize(&strings(&["a,b", "c"]));
    assert_eq!(joined, "a,b,c");
    assert_eq!(separate_by_comma::deserialize(joined), strings(&["a", "b", "c"]));
}

#[test]
fn optional_absent_stays_absent() {
    assert_eq!(option_separate_by_comma::serialize(&None), None);
    assert_eq!(option_separate_by_comma::deserialize(None), None);
}

#[test]
fn optional_present_empty_is_not_absent() {
    assert_eq!(option_separate_by_comma::serialize(&Some(Vec::new())), Some(String::new()));
    assert_eq!(option_separate_by_comma::deserialize(Some(String::new())), Some(strings(&[""])));
}

#[test]
fn optional_present_goes_through_list_codec() {
    assert_eq!(
        option_separate_by_comma::serialize(&Some(strings(&["a", "b"]))),
        Some("a,b".to_string())
    );
    assert_eq!(
        option_separate_by_comma::deserialize(Some("a,,b".to_string())),
        Some(strings(&["a", "", "b"]))
    );
}
