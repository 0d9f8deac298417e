use everythingkb_core::llm::client::{
    extract_json, parse_json_attempt, parse_json_string_value, prose_as_page_json, ExtractJsonError,
    JsonReply,
};

fn text_value(r: JsonReply) -> serde_json::Value {
    match r {
        JsonReply::Text(t) => serde_json::from_str(&t).unwrap(),
        JsonReply::Page(p) => {
            let mut m = serde_json::Map::new();
            m.insert("description".to_string(), serde_json::Value::String(p.description));
            m.insert("content".to_string(), serde_json::Value::String(p.content));
            serde_json::Value::Object(m)
        }
    }
}

#[test]
fn prose_fallback_wraps_markdown() {
    let p = prose_as_page_json("# Title\n\nBody text.").unwrap();
    assert_eq!(p.content, "# Title\n\nBody text.");
    assert!(p.description.contains("Title"));
}

#[test]
fn extract_json_from_fences() {
    let v = text_value(extract_json("```json\n{\"a\": 1}\n```").unwrap());
    assert_eq!(v["a"], 1);
}

#[test]
fn recover_truncated_summary_json() {
    let raw = "{\n\"description\": \"Enrollment process overview.\",\n\"content\": \"# Enrollment Appl";
    let v = text_value(extract_json(raw).unwrap());
    assert_eq!(v["description"], "Enrollment process overview.");
    assert!(v["content"].as_str().unwrap().starts_with("# Enrollment"));
}

#[test]
fn extract_json_strips_markers_and_thinking() {
    match extract_json("<start_of_turn>model\n  {\"x\": true}").unwrap() {
        JsonReply::Text(t) => assert_eq!(t, "{\"x\": true}"),
        _ => panic!("expected text"),
    }
    let thought = format!("<{}>hmm</{}> {{\"y\": 2}}", "think", "think");
    match extract_json(&thought).unwrap() {
        JsonReply::Text(t) => assert_eq!(t, "{\"y\": 2}"),
        _ => panic!("expected text"),
    }
    match extract_json("Sure! {\"z\": [1]} hope it helps").unwrap() {
        JsonReply::Text(t) => assert_eq!(t, "{\"z\": [1]}"),
        _ => panic!("expected text"),
    }
}

#[test]
fn extract_json_errors() {
    assert_eq!(extract_json("no braces here").unwrap_err(), ExtractJsonError::NoObject);
    assert_eq!(extract_json("{ broken").unwrap_err(), ExtractJsonError::Invalid);
    assert_eq!(ExtractJsonError::NoObject.message(), "no JSON object in model output");
}

#[test]
fn string_values() {
    assert_eq!(parse_json_string_value("a\\nb\" rest"), Some("a\nb".to_string()));
    assert_eq!(parse_json_string_value("\""), Some(String::new()));
    assert_eq!(parse_json_string_value(""), None);
    assert_eq!(parse_json_string_value("abc\\"), None);
    assert_eq!(parse_json_string_value("cut off"), Some("cut off".to_string()));
}

#[test]
fn attempt_falls_back_to_prose() {
    match parse_json_attempt("Plain answer\nsecond line").unwrap() {
        JsonReply::Page(p) => {
            assert_eq!(p.description, "Plain answer");
            assert_eq!(p.content, "Plain answer\nsecond line");
        }
        _ => panic!("expected page"),
    }
    assert!(parse_json_attempt("   ").is_none());
}
