use ts_scaffold::json::{Document, Entry, Json, render_json};

fn doc(entries: Vec<Entry>) -> Document {
    Document { entries }
}

fn entry(key: &str, val: Json) -> Entry {
    Entry { key: key.to_owned(), val }
}

#[test]
fn render_scalars() {
    assert_eq!(render_json(&Json::Null, ""), "null");
    assert_eq!(render_json(&Json::Bool(true), ""), "true");
    assert_eq!(render_json(&Json::Bool(false), ""), "false");
    assert_eq!(render_json(&Json::Str("hi".to_owned()), ""), "\"hi\"");
}

#[test]
fn render_integers() {
    assert_eq!(render_json(&Json::Int(0), ""), "0");
    assert_eq!(render_json(&Json::Int(7), ""), "7");
    assert_eq!(render_json(&Json::Int(1234), ""), "1234");
    assert_eq!(render_json(&Json::Int(-1), ""), "-1");
    assert_eq!(render_json(&Json::Int(-9007), ""), "-9007");
    assert_eq!(render_json(&Json::Int(i64::MAX), ""), "9223372036854775807");
    assert_eq!(render_json(&Json::Int(i64::MIN), ""), "-9223372036854775808");
}

#[test]
fn render_empty_containers() {
    assert_eq!(render_json(&Json::Arr(Vec::new()), ""), "[]");
    assert_eq!(render_json(&Json::Obj(Vec::new()), ""), "{}");
}

#[test]
fn render_array() {
    let arr = Json::Arr(vec![Json::Int(1), Json::Str("two".to_owned()), Json::Bool(false)]);
    assert_eq!(render_json(&arr, ""), "[\n  1,\n  \"two\",\n  false\n]");
}

#[test]
fn render_nested_object() {
    let inner = Json::Obj(vec![entry("b", Json::Int(2))]);
    let outer = Json::Obj(vec![entry("a", Json::Int(1)), entry("o", inner)]);
    assert_eq!(
        render_json(&outer, ""),
        "{\n  \"a\": 1,\n  \"o\": {\n    \"b\": 2\n  }\n}"
    );
}

#[test]
fn set_updates_in_place_keeping_order() {
    let mut d = doc(vec![entry("a", Json::Int(1)), entry("b", Json::Int(2))]);
    d.set("a".to_owned(), Json::Int(9));
    let s = d.render();
    assert_eq!(s, "{\n  \"a\": 9,\n  \"b\": 2\n}");
}

#[test]
fn set_appends_new_key_at_end() {
    let mut d = doc(vec![entry("a", Json::Int(1))]);
    d.set("z".to_owned(), Json::Bool(true));
    let s = d.render();
    assert_eq!(s, "{\n  \"a\": 1,\n  \"z\": true\n}");
}

#[test]
fn get_finds_values() {
    let d = doc(vec![entry("a", Json::Int(1)), entry("b", Json::Str("x".to_owned()))]);
    assert!(matches!(d.get(&"a".to_owned()), Some(Json::Int(1))));
    assert!(matches!(d.get(&"b".to_owned()), Some(Json::Str(_))));
    assert!(d.get(&"missing".to_owned()).is_none());
}

#[test]
fn set_nested_updates_inner_object_only() {
    let inner = Json::Obj(vec![entry("b", Json::Int(2))]);
    let mut d = doc(vec![entry("a", Json::Int(1)), entry("o", inner)]);
    d.set_nested(&"o".to_owned(), "c".to_owned(), Json::Bool(true));
    assert_eq!(
        d.render(),
        "{\n  \"a\": 1,\n  \"o\": {\n    \"b\": 2,\n    \"c\": true\n  }\n}"
    );
}

#[test]
fn set_nested_without_object_is_identity() {
    let mut d = doc(vec![entry("a", Json::Int(1))]);
    d.set_nested(&"a".to_owned(), "c".to_owned(), Json::Bool(true));
    assert_eq!(d.render(), "{\n  \"a\": 1\n}");
    let mut d2 = doc(vec![entry("a", Json::Int(1))]);
    d2.set_nested(&"missing".to_owned(), "c".to_owned(), Json::Bool(true));
    assert_eq!(d2.render(), "{\n  \"a\": 1\n}");
}

#[test]
fn apply_strict_adds_three_flags() {
    let co = Json::Obj(vec![entry("target", Json::Str("ES2022".to_owned()))]);
    let mut d = doc(vec![entry("compilerOptions", co)]);
    d.apply_strict(true);
    let s = d.render();
    assert_eq!(
        s,
        "{\n  \"compilerOptions\": {\n    \"target\": \"ES2022\",\n    \"strict\": true,\n    \"noUncheckedIndexedAccess\": true,\n    \"noImplicitOverride\": true\n  }\n}"
    );
}

#[test]
fn apply_strict_declined_is_identity() {
    let co = Json::Obj(vec![entry("target", Json::Str("ES2022".to_owned()))]);
    let mut d = doc(vec![entry("compilerOptions", co)]);
    let before = d.render();
    let co2 = Json::Obj(vec![entry("target", Json::Str("ES2022".to_owned()))]);
    let mut d2 = doc(vec![entry("compilerOptions", co2)]);
    d2.apply_strict(false);
    assert_eq!(d2.render(), before);
}

#[test]
fn apply_strict_without_compiler_options_is_identity() {
    let mut d = doc(vec![entry("other", Json::Int(1))]);
    d.apply_strict(true);
    assert_eq!(d.render(), "{\n  \"other\": 1\n}");
}

#[test]
fn rendered_output_is_valid_json() {
    let inner = Json::Obj(vec![entry("b", Json::Int(-3)), entry("c", Json::Bool(true))]);
    let outer = Json::Obj(vec![
        entry("a", Json::Str("v".to_owned())),
        entry("o", inner),
        entry("l", Json::Arr(vec![Json::Int(1), Json::Int(2)])),
    ]);
    let text = render_json(&outer, "");
    let parsed: serde_json::Value = serde_json::from_str(&text).expect("output must parse");
    assert_eq!(parsed["a"], serde_json::Value::String("v".to_owned()));
    assert_eq!(parsed["o"]["b"], serde_json::Value::from(-3i64));
    assert_eq!(parsed["o"]["c"], serde_json::Value::Bool(true));
    assert_eq!(parsed["l"][1], serde_json::Value::from(2i64));
}
