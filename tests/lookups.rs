use iso_rs::{build_tables, Country, Currency, Json, Language, Tables};

fn st(s: &str) -> Json {
    Json::Str(s.to_string())
}

fn obj(members: Vec<(&str, Json)>) -> Json {
    Json::Object(members.into_iter().map(|(k, v)| (k.to_string(), v)).collect())
}

fn language(i1: &str, i2: &str, name: &str, native: &str) -> Json {
    obj(vec![
        ("iso639_1", st(i1)),
        ("iso639_2", st(i2)),
        ("name", st(name)),
        ("nativeName", st(native)),
    ])
}

fn india() -> Json {
    obj(vec![
        ("name", st("India")),
        ("capital", st("New Delhi")),
        ("region", st("Southern Asia")),
        ("alpha2Code", st("IN")),
        ("alpha3Code", st("IND")),
        (
            "currencies",
            Json::Array(vec![obj(vec![
                ("code", st("INR")),
                ("name", st("Indian rupee")),
                ("symbol", st("₹")),
            ])]),
        ),
        (
            "languages",
            Json::Array(vec![
                language("hi", "hin", "Hindi", "हिन्दी"),
                language("en", "eng", "English", "English"),
            ]),
        ),
        ("callingCodes", Json::Array(vec![st("91")])),
    ])
}

fn zones() -> Json {
    obj(vec![(
        "zones",
        Json::Array(vec![obj(vec![
            ("countryCode", st("IN")),
            ("zoneName", st("Asia/Kolkata")),
            ("gmtOffset", Json::Number("19800".to_string())),
        ])]),
    )])
}

fn tables() -> Tables {
    build_tables(&Json::Array(vec![india()]), &zones())
}

fn india_check(india: &Country) {
    assert_eq!(india.capital.as_deref().unwrap(), "New Delhi");
    assert_eq!(india.region.as_deref().unwrap(), "Southern Asia");
    assert_eq!(india.alpha_2, "IN");
    assert_eq!(india.alpha_3, "IND");
    assert_eq!(india.timezones[0], "UTC+5:30");
    assert_eq!(india.call_codes[0], "91");
    let c = &india.currencies[0];
    assert_eq!(c.code.as_deref(), Some("INR"));
    assert_eq!(c.name.as_deref(), Some("Indian rupee"));
    assert_eq!(c.symbol.as_deref(), Some("₹"));
    let l = &india.languages[0];
    assert_eq!(l.iso639_1.as_deref(), Some("hi"));
    assert_eq!(l.iso639_2.as_deref(), Some("hin"));
    assert_eq!(l.name.as_deref(), Some("Hindi"));
    assert_eq!(l.native_name.as_deref(), Some("हिन्दी"));
    let l = &india.languages[1];
    assert_eq!(l.iso639_1.as_deref(), Some("en"));
    assert_eq!(l.iso639_2.as_deref(), Some("eng"));
    assert_eq!(l.name.as_deref(), Some("English"));
    assert_eq!(l.native_name.as_deref(), Some("English"));
}

fn same_country(a: &Country, b: &Country) -> bool {
    format!("{:?}", a) == format!("{:?}", b)
}

#[test]
fn basic_country_fetching_from_name() {
    let t = tables();
    let india = Country::from_name(&t, "India").unwrap();
    india_check(india);
}

#[test]
fn basic_country_fetching_from_capital() {
    let t = tables();
    let india = Country::from_capital(&t, "New Delhi").unwrap();
    india_check(&india[0]);
}

#[test]
fn basic_country_fetching_from_alpha_2() {
    let t = tables();
    let india = &Country::from_alpha_2(&t, "IN").unwrap()[0];
    india_check(india);
}

#[test]
fn basic_country_fetching_from_alpha_3() {
    let t = tables();
    let india = &Country::from_alpha_3(&t, "IND").unwrap()[0];
    india_check(india);
}

#[test]
fn basic_country_fetching_from_region() {
    let t = tables();
    let southern_asia = Country::from_region(&t, "Southern Asia").unwrap();
    let india = Country::from_name(&t, "India").unwrap();
    assert!(southern_asia.iter().any(|c| same_country(c, india)));
}

#[test]
fn india_scenario_end_to_end() {
    let t = tables();
    let india = Country::from_name(&t, "India").unwrap();
    assert_eq!(india.name, "India");
    assert_eq!(india.capital.as_deref(), Some("New Delhi"));
    assert_eq!(india.timezones, vec!["UTC+5:30".to_string()]);
    assert_eq!(india.languages[0].name.as_deref(), Some("Hindi"));
    assert_eq!(india.currencies[0].symbol.as_deref(), Some("₹"));
}

#[test]
fn unknown_keys_give_nothing() {
    let t = tables();
    assert!(Country::from_name(&t, "Atlantis").is_none());
    assert!(Country::from_name(&t, "india").is_none());
    assert!(Country::from_capital(&t, "Paris").is_none());
    assert!(Country::from_region(&t, "Europe").is_none());
    assert!(Country::from_alpha_2(&t, "FR").is_none());
    assert!(Country::from_alpha_3(&t, "FRA").is_none());
}

#[test]
fn from_name_returns_the_queried_name() {
    let doc = Json::Array(vec![
        obj(vec![("name", st("A")), ("region", st("R"))]),
        obj(vec![("name", st("B")), ("region", st("R"))]),
        obj(vec![("name", st("C"))]),
    ]);
    let t = build_tables(&doc, &obj(vec![]));
    for n in ["A", "B", "C"] {
        assert_eq!(Country::from_name(&t, n).unwrap().name, n);
    }
}

#[test]
fn first_entry_of_a_name_wins() {
    let doc = Json::Array(vec![
        obj(vec![("name", st("Twin")), ("capital", st("First"))]),
        obj(vec![("name", st("Other")), ("capital", st("Elsewhere"))]),
        obj(vec![("name", st("Twin")), ("capital", st("Second"))]),
    ]);
    let t = build_tables(&doc, &obj(vec![]));
    assert_eq!(t.names.len(), 2);
    assert_eq!(t.names.iter().filter(|c| c.name == "Twin").count(), 1);
    let twin = Country::from_name(&t, "Twin").unwrap();
    assert_eq!(twin.capital.as_deref(), Some("First"));
    assert!(Country::from_capital(&t, "Second").is_none());
}

#[test]
fn groups_list_each_matching_country_once() {
    let doc = Json::Array(vec![
        obj(vec![("name", st("A")), ("region", st("R")), ("alpha2Code", st("XA"))]),
        obj(vec![("name", st("B")), ("region", st("S")), ("alpha2Code", st("XB"))]),
        obj(vec![("name", st("C")), ("region", st("R")), ("alpha2Code", st("XA"))]),
    ]);
    let t = build_tables(&doc, &obj(vec![]));
    let r = Country::from_region(&t, "R").unwrap();
    let names: Vec<&str> = r.iter().map(|c| c.name.as_str()).collect();
    assert_eq!(names, vec!["A", "C"]);
    assert!(r.iter().all(|c| c.region.as_deref() == Some("R")));
    let s = Country::from_region(&t, "S").unwrap();
    assert_eq!(s.len(), 1);
    assert_eq!(s[0].name, "B");
    let xa = Country::from_alpha_2(&t, "XA").unwrap();
    assert_eq!(xa.len(), 2);
    assert_eq!(t.regions.len(), 2);
}

#[test]
fn absent_capital_is_sentinel_and_unlisted() {
    let doc = Json::Array(vec![obj(vec![("name", st("Nowhere")), ("region", st("R"))])]);
    let records = iso_rs::get_countries(&doc, &Vec::new());
    assert_eq!(records[0].capital, "None");
    assert_eq!(records[0].alpha_2, "None");
    let t = build_tables(&doc, &obj(vec![]));
    assert!(t.capitals.is_empty());
    assert!(Country::from_capital(&t, "None").is_none());
    assert_eq!(Country::from_name(&t, "Nowhere").unwrap().capital, None);
}

#[test]
fn null_capital_reads_as_absent() {
    let doc = Json::Array(vec![obj(vec![("name", st("N")), ("capital", Json::Null)])]);
    let t = build_tables(&doc, &obj(vec![]));
    assert_eq!(Country::from_name(&t, "N").unwrap().capital, None);
    assert!(t.capitals.is_empty());
}

#[test]
fn empty_capital_is_not_listed() {
    let doc = Json::Array(vec![obj(vec![("name", st("E")), ("capital", st(""))])]);
    let t = build_tables(&doc, &obj(vec![]));
    assert_eq!(Country::from_name(&t, "E").unwrap().capital.as_deref(), Some(""));
    assert!(t.capitals.is_empty());
}

#[test]
fn null_and_missing_fields_normalise_alike() {
    let with_null = obj(vec![("code", Json::Null), ("name", st("Euro")), ("symbol", st("€"))]);
    let missing = obj(vec![("name", st("Euro")), ("symbol", st("€"))]);
    let marked = obj(vec![("code", st("(none)")), ("name", st("Euro")), ("symbol", st("€"))]);
    let a = iso_rs::countries::currency_from_json(&with_null);
    let b = iso_rs::countries::currency_from_json(&missing);
    let c = iso_rs::countries::currency_from_json(&marked);
    assert_eq!(a.code, None);
    assert_eq!(b.code, None);
    assert_eq!(c.code, None);
    assert_eq!(a.name.as_deref(), Some("Euro"));
    let l = iso_rs::countries::language_from_json(&obj(vec![("name", st("X")), ("nativeName", Json::Null)]));
    assert_eq!(l.native_name, None);
    assert_eq!(l.iso639_1, None);
    assert_eq!(l.name.as_deref(), Some("X"));
}

#[test]
fn list_fields_default_to_sentinel() {
    let doc = Json::Array(vec![obj(vec![
        ("name", st("L")),
        ("currencies", st("none here")),
        ("callingCodes", Json::Number("7".to_string())),
    ])]);
    let records = iso_rs::get_countries(&doc, &Vec::new());
    let r = &records[0];
    assert_eq!(r.call_codes, vec!["None".to_string()]);
    assert_eq!(r.currencies.len(), 1);
    assert_eq!(r.currencies[0].code, None);
    assert_eq!(r.languages.len(), 1);
    assert_eq!(r.languages[0].name, None);
    assert!(r.timezones.is_empty());
}

#[test]
fn non_object_currency_has_no_fields() {
    let c = iso_rs::countries::currency_from_json(&st("INR"));
    assert_eq!(c.code, None);
    assert_eq!(c.name, None);
    assert_eq!(c.symbol, None);
}

#[test]
fn malformed_documents_give_nothing() {
    assert!(iso_rs::get_countries(&obj(vec![("name", st("A"))]), &Vec::new()).is_empty());
    assert!(iso_rs::get_time(&Json::Array(vec![])).is_empty());
    assert!(iso_rs::get_time(&obj(vec![("zones", st("x"))])).is_empty());
    let t = build_tables(&Json::Null, &Json::Null);
    assert!(t.names.is_empty());
}

#[test]
fn entries_without_name_are_skipped() {
    let doc = Json::Array(vec![obj(vec![("capital", st("C"))]), st("x"), obj(vec![("name", st("Y"))])]);
    let records = iso_rs::get_countries(&doc, &Vec::new());
    assert_eq!(records.len(), 1);
    assert_eq!(records[0].name, "Y");
}

#[test]
fn numeric_values_keep_their_text() {
    let doc = Json::Array(vec![obj(vec![
        ("name", st("Num")),
        ("capital", Json::Number("42".to_string())),
        ("region", Json::Bool(true)),
    ])]);
    let records = iso_rs::get_countries(&doc, &Vec::new());
    assert_eq!(records[0].capital, "42");
    assert_eq!(records[0].region, "true");
}

#[test]
fn zones_follow_document_order_and_skip_incomplete() {
    let doc = obj(vec![(
        "zones",
        Json::Array(vec![
            obj(vec![("countryCode", st("US")), ("zoneName", st("America/New_York")), ("gmtOffset", Json::Number("-18000".to_string()))]),
            obj(vec![("countryCode", st("US")), ("gmtOffset", Json::Number("-3600".to_string()))]),
            obj(vec![("countryCode", st("US")), ("zoneName", st("America/Los_Angeles")), ("gmtOffset", Json::Number("-28800".to_string()))]),
            obj(vec![("countryCode", st("GB")), ("zoneName", st("Europe/London"))]),
        ]),
    )]);
    let zs = iso_rs::get_time(&doc);
    assert_eq!(zs.len(), 3);
    assert_eq!(zs[0].zone_name, "America/New_York");
    assert_eq!(zs[2].offset, "0");
    let countries = Json::Array(vec![
        obj(vec![("name", st("United States")), ("alpha2Code", st("US"))]),
        obj(vec![("name", st("United Kingdom")), ("alpha2Code", st("GB"))]),
    ]);
    let t = build_tables(&countries, &doc);
    let us = Country::from_name(&t, "United States").unwrap();
    assert_eq!(us.timezones, vec!["UTC-5:00".to_string(), "UTC-8:00".to_string()]);
    let gb = Country::from_name(&t, "United Kingdom").unwrap();
    assert_eq!(gb.timezones, vec!["UTC+0:00".to_string()]);
}

#[test]
fn timezone_vec_renders_each_offset() {
    let zs = vec![
        iso_rs::Zone { country_code: "IN".to_string(), zone_name: "Asia/Kolkata".to_string(), offset: "19800".to_string() },
        iso_rs::Zone { country_code: "NP".to_string(), zone_name: "Asia/Kathmandu".to_string(), offset: "20700".to_string() },
    ];
    assert_eq!(iso_rs::timezone_vec(&zs), vec!["UTC+5:30".to_string(), "UTC+5:45".to_string()]);
}

#[test]
fn builder_sets_each_field() {
    let d = iso_rs::CountryData::builder()
        .name("N".to_string())
        .capital("C".to_string())
        .region("R".to_string())
        .alpha_2("A2".to_string())
        .alpha_3("A3".to_string())
        .timezones(vec!["UTC+1:00".to_string()])
        .currencies(vec![Currency::default()])
        .languages(vec![Language::default()])
        .call_codes(vec!["1".to_string()])
        .build();
    assert_eq!(d.name, "N");
    assert_eq!(d.capital, "C");
    assert_eq!(d.region, "R");
    assert_eq!(d.alpha_2, "A2");
    assert_eq!(d.alpha_3, "A3");
    assert_eq!(d.timezones, vec!["UTC+1:00".to_string()]);
    assert_eq!(d.currencies.len(), 1);
    assert_eq!(d.languages.len(), 1);
    assert_eq!(d.call_codes, vec!["1".to_string()]);
    let e = iso_rs::CountryData::builder().build();
    assert!(e.name.is_empty() && e.timezones.is_empty());
}

#[test]
fn compile_keeps_record_order() {
    let records = iso_rs::get_countries(
        &Json::Array(vec![obj(vec![("name", st("B"))]), obj(vec![("name", st("A"))])]),
        &Vec::new(),
    );
    let t = iso_rs::compile(&records);
    assert_eq!(t.names[0].name, "B");
    assert_eq!(t.names[1].name, "A");
    assert_eq!(t.alpha_2.len(), 1);
    assert_eq!(t.alpha_2[0].key, "None");
    assert_eq!(t.alpha_2[0].countries.len(), 2);
}

#[test]
fn non_array_document_gives_empty_tables() {
    let t = build_tables(&obj(vec![]), &zones());
    assert!(t.names.is_empty());
    assert!(t.capitals.is_empty());
    assert!(t.regions.is_empty());
    assert!(t.alpha_2.is_empty());
    assert!(t.alpha_3.is_empty());
    assert!(iso_rs::generate(&st("x"), &zones()).is_ok());
}

#[test]
fn every_group_has_members() {
    let t = tables();
    for g in t.capitals.iter().chain(t.regions.iter()).chain(t.alpha_2.iter()).chain(t.alpha_3.iter()) {
        assert!(!g.countries.is_empty());
    }
}
