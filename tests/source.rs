use iso_rs::codegen::{country_struct, currency_struct, language_struct, option_literal, option_to_string, string_literal, vec_to_string};
use iso_rs::emit::{emit, map_source, EmitError};
use iso_rs::{build_tables, Country, Currency, Json, Language, Tables};

fn st(s: &str) -> Json {
    Json::Str(s.to_string())
}

fn obj(members: Vec<(&str, Json)>) -> Json {
    Json::Object(members.into_iter().map(|(k, v)| (k.to_string(), v)).collect())
}

#[test]
fn string_literals_escape_quotes_and_backslashes() {
    assert_eq!(string_literal("India"), "\"India\"");
    assert_eq!(string_literal("a\"b\\c"), "\"a\\\"b\\\\c\"");
    assert_eq!(string_literal(""), "\"\"");
    assert_eq!(string_literal("₹"), "\"₹\"");
}

#[test]
fn option_literals() {
    assert_eq!(option_literal(&Some("x".to_string())), "Some(\"x\")");
    assert_eq!(option_literal(&None), "None");
}

#[test]
fn option_texts() {
    assert_eq!(option_to_string(&Some("x".to_string())), "x");
    assert_eq!(option_to_string(&Some("\"q\"".to_string())), "\"q\"");
    assert_eq!(option_to_string(&None), "None");
}

#[test]
fn slice_literals() {
    assert_eq!(vec_to_string(&vec![]), "&[]");
    assert_eq!(vec_to_string(&vec!["1".to_string()]), "&[1]");
    assert_eq!(vec_to_string(&vec!["1".to_string(), "2".to_string(), "3".to_string()]), "&[1,2,3]");
}

#[test]
fn currency_and_language_literals() {
    let c = Currency { code: Some("INR".to_string()), name: Some("Indian rupee".to_string()), symbol: None };
    assert_eq!(currency_struct(&c), "Currency {name: Some(\"Indian rupee\"),code: Some(\"INR\"),symbol: None,}");
    let l = Language { iso639_1: Some("hi".to_string()), iso639_2: None, name: Some("Hindi".to_string()), native_name: None };
    assert_eq!(language_struct(&l), "Language {iso639_1: Some(\"hi\"),iso639_2: None,name: Some(\"Hindi\"),native_name: None,}");
}

#[test]
fn country_literal() {
    let c = Country {
        name: "X".to_string(),
        capital: Some("Y".to_string()),
        region: None,
        alpha_2: "XX".to_string(),
        alpha_3: "XXX".to_string(),
        timezones: vec!["UTC+1:00".to_string()],
        currencies: vec![],
        languages: vec![Language::default()],
        call_codes: vec!["1".to_string(), "2".to_string()],
    };
    assert_eq!(
        country_struct(&c),
        "Country {name: \"X\",capital: Some(\"Y\"),region: None,alpha_2: \"XX\",alpha_3: \"XXX\",timezones: &[\"UTC+1:00\"],currencies: &[],languages: &[Language {iso639_1: None,iso639_2: None,name: None,native_name: None,}],call_codes: &[\"1\",\"2\"],}"
    );
}

#[test]
fn map_source_builds_a_phf_map() {
    let s = map_source(&vec!["a".to_string(), "b".to_string()], &vec!["1".to_string(), "2".to_string()]).unwrap();
    assert!(s.starts_with("::phf::Map {"));
    assert!(s.contains("(\"a\", 1)"));
    assert!(s.contains("(\"b\", 2)"));
    assert!(s.contains("disps"));
}

#[test]
fn map_source_refuses_repeated_keys() {
    assert!(map_source(&vec!["a".to_string(), "a".to_string()], &vec!["1".to_string(), "2".to_string()]).is_none());
}

fn india_tables() -> Tables {
    let doc = Json::Array(vec![obj(vec![
        ("name", st("India")),
        ("capital", st("New Delhi")),
        ("region", st("Southern Asia")),
        ("alpha2Code", st("IN")),
        ("alpha3Code", st("IND")),
    ])]);
    build_tables(&doc, &obj(vec![]))
}

#[test]
fn emit_declares_all_tables() {
    let s = emit(&india_tables()).unwrap();
    for name in ["NAMES", "CAPTIAL", "REGIONS", "ALPHA_2", "ALPHA_3", "from_capitals", "from_regions", "from_alpha_2", "from_alpha_3", "disps"] {
        assert!(s.contains(name), "missing {}", name);
    }
    assert!(s.contains("\"New Delhi\""));
    assert!(s.contains("\"India\""));
}

#[test]
fn generate_runs_the_whole_build() {
    let doc = Json::Array(vec![obj(vec![("name", st("India")), ("alpha2Code", st("IN"))])]);
    let s = iso_rs::generate(&doc, &obj(vec![])).unwrap();
    assert!(s.contains("NAMES"));
    assert!(s.contains("\"IN\""));
}

#[test]
fn emit_refuses_a_repeated_name() {
    let mut t = india_tables();
    let again = t.names[0].clone();
    t.names.push(again);
    assert_eq!(emit(&t).unwrap_err(), EmitError::DuplicateKey);
}

#[test]
fn emit_prints_the_lexed_token_stream() {
    let s = emit(&india_tables()).unwrap();
    assert!(!s.contains("NAMES: phf::Map<&'static str, Country>"));
    assert!(s.contains("NAMES"));
}
