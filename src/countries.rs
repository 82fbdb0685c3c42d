//! Building country records from the feed documents.
use vstd::prelude::*;
use crate::json::{Json, text_of, none_text, none_string};
use crate::time::{offset_label, second_offset_to_utc_offset};
use crate::country::{
    CountryData, CountryDataView, Currency, CurrencyView, Language, LanguageView, currencies_view,
    languages_view, opt_view, strs_view,
};

verus! {

/// One timezone of the feed.
#[derive(Debug)]
pub struct Zone {
    pub country_code: String,
    pub zone_name: String,
    /// Offset from UTC in seconds, as the feed writes it.
    pub offset: String,
}

pub struct ZoneView {
    pub country_code: Seq<char>,
    pub zone_name: Seq<char>,
    pub offset: Seq<char>,
}

impl View for Zone {
    type V = ZoneView;

    open spec fn view(&self) -> ZoneView {
        ZoneView { country_code: self.country_code@, zone_name: self.zone_name@, offset: self.offset@ }
    }
}

pub open spec fn zones_view(v: Seq<Zone>) -> Seq<ZoneView> {
    v.map_values(|z: Zone| z@)
}

pub open spec fn key_name() -> Seq<char> { seq!['n', 'a', 'm', 'e'] }
pub open spec fn key_capital() -> Seq<char> { seq!['c', 'a', 'p', 'i', 't', 'a', 'l'] }
pub open spec fn key_region() -> Seq<char> { seq!['r', 'e', 'g', 'i', 'o', 'n'] }
pub open spec fn key_alpha_2() -> Seq<char> { seq!['a', 'l', 'p', 'h', 'a', '2', 'C', 'o', 'd', 'e'] }
pub open spec fn key_alpha_3() -> Seq<char> { seq!['a', 'l', 'p', 'h', 'a', '3', 'C', 'o', 'd', 'e'] }
pub open spec fn key_currencies() -> Seq<char> { seq!['c', 'u', 'r', 'r', 'e', 'n', 'c', 'i', 'e', 's'] }
pub open spec fn key_languages() -> Seq<char> { seq!['l', 'a', 'n', 'g', 'u', 'a', 'g', 'e', 's'] }
pub open spec fn key_calling_codes() -> Seq<char> {
    seq!['c', 'a', 'l', 'l', 'i', 'n', 'g', 'C', 'o', 'd', 'e', 's']
}
pub open spec fn key_code() -> Seq<char> { seq!['c', 'o', 'd', 'e'] }
pub open spec fn key_symbol() -> Seq<char> { seq!['s', 'y', 'm', 'b', 'o', 'l'] }
pub open spec fn key_iso639_1() -> Seq<char> { seq!['i', 's', 'o', '6', '3', '9', '_', '1'] }
pub open spec fn key_iso639_2() -> Seq<char> { seq!['i', 's', 'o', '6', '3', '9', '_', '2'] }
pub open spec fn key_native_name() -> Seq<char> {
    seq!['n', 'a', 't', 'i', 'v', 'e', 'N', 'a', 'm', 'e']
}
pub open spec fn key_zones() -> Seq<char> { seq!['z', 'o', 'n', 'e', 's'] }
pub open spec fn key_country_code() -> Seq<char> {
    seq!['c', 'o', 'u', 'n', 't', 'r', 'y', 'C', 'o', 'd', 'e']
}
pub open spec fn key_zone_name() -> Seq<char> { seq!['z', 'o', 'n', 'e', 'N', 'a', 'm', 'e'] }
pub open spec fn key_gmt_offset() -> Seq<char> { seq!['g', 'm', 't', 'O', 'f', 'f', 's', 'e', 't'] }

/// The text `(none)` that the feed writes for a missing optional field.
pub open spec fn none_marker() -> Seq<char> { seq!['(', 'n', 'o', 'n', 'e', ')'] }

/// An optional field: absent when the key is missing, the value is `null`, or
/// the value reads `(none)`; otherwise its text.
pub open spec fn optional_field(m: Option<Json>) -> Option<Seq<char>> {
    match m {
        None => None,
        Some(Json::Null) => None,
        Some(j) => if text_of(j) == none_marker() { None } else { Some(text_of(j)) },
    }
}

/// A scalar field: its text, or the sentinel when the key is missing.
pub open spec fn scalar_field(m: Option<Json>) -> Seq<char> {
    match m {
        Some(j) => text_of(j),
        None => none_text(),
    }
}

/// The currency an element of `currencies` describes; all fields absent for a
/// value that is not an object.
pub open spec fn currency_of(j: Json) -> CurrencyView {
    match j {
        Json::Object(_) => CurrencyView {
            code: optional_field(j.member(key_code())),
            name: optional_field(j.member(key_name())),
            symbol: optional_field(j.member(key_symbol())),
        },
        _ => CurrencyView { code: None, name: None, symbol: None },
    }
}

/// The language an element of `languages` describes; all fields absent for a
/// value that is not an object.
pub open spec fn language_of(j: Json) -> LanguageView {
    match j {
        Json::Object(_) => LanguageView {
            iso639_1: optional_field(j.member(key_iso639_1())),
            iso639_2: optional_field(j.member(key_iso639_2())),
            name: optional_field(j.member(key_name())),
            native_name: optional_field(j.member(key_native_name())),
        },
        _ => LanguageView { iso639_1: None, iso639_2: None, name: None, native_name: None },
    }
}

/// `currencies` of an entry: one currency per element of an array, else a
/// single currency with every field absent.
pub open spec fn currencies_of(m: Option<Json>) -> Seq<CurrencyView> {
    match m {
        Some(Json::Array(xs)) => xs@.map_values(|x: Json| currency_of(x)),
        _ => seq![CurrencyView { code: None, name: None, symbol: None }],
    }
}

/// `languages` of an entry, by the same rule as `currencies_of`.
pub open spec fn languages_of(m: Option<Json>) -> Seq<LanguageView> {
    match m {
        Some(Json::Array(xs)) => xs@.map_values(|x: Json| language_of(x)),
        _ => seq![LanguageView { iso639_1: None, iso639_2: None, name: None, native_name: None }],
    }
}

/// `callingCodes` of an entry: the text of each element of an array, else
/// the sentinel alone.
pub open spec fn call_codes_of(m: Option<Json>) -> Seq<Seq<char>> {
    match m {
        Some(Json::Array(xs)) => xs@.map_values(|x: Json| text_of(x)),
        _ => seq![none_text()],
    }
}

/// The zone an element of `zones` describes, when it names both a country
/// code and a zone; a missing offset reads `0`.
pub open spec fn zone_of(j: Json) -> Option<ZoneView> {
    match (j.member(key_country_code()), j.member(key_zone_name())) {
        (Some(c), Some(n)) => Some(ZoneView {
            country_code: text_of(c),
            zone_name: text_of(n),
            offset: match j.member(key_gmt_offset()) {
                Some(o) => text_of(o),
                None => seq!['0'],
            },
        }),
        _ => None,
    }
}

/// The zones of a list of entries, in order, skipping the incomplete ones.
pub open spec fn zones_of(es: Seq<Json>) -> Seq<ZoneView>
    decreases es.len(),
{
    if es.len() == 0 {
        Seq::empty()
    } else {
        let prev = zones_of(es.drop_last());
        match zone_of(es.last()) {
            Some(z) => prev.push(z),
            None => prev,
        }
    }
}

/// The elements of `doc[key]` when it is an array; nothing otherwise.
pub open spec fn array_at(doc: Json, key: Seq<char>) -> Seq<Json> {
    match doc.member(key) {
        Some(Json::Array(xs)) => xs@,
        _ => Seq::empty(),
    }
}

/// The zones whose country code is `code`, in order.
pub open spec fn zones_with_code(zs: Seq<ZoneView>, code: Seq<char>) -> Seq<ZoneView>
    decreases zs.len(),
{
    if zs.len() == 0 {
        Seq::empty()
    } else {
        let prev = zones_with_code(zs.drop_last(), code);
        if zs.last().country_code == code {
            prev.push(zs.last())
        } else {
            prev
        }
    }
}

/// The UTC offset label of each zone.
pub open spec fn labels(zs: Seq<ZoneView>) -> Seq<Seq<char>> {
    zs.map_values(|z: ZoneView| offset_label(z.offset))
}

/// The record built from a country entry.
pub open spec fn record_of(e: Json, zones: Seq<ZoneView>) -> CountryDataView {
    let alpha_2 = scalar_field(e.member(key_alpha_2()));
    CountryDataView {
        name: scalar_field(e.member(key_name())),
        capital: scalar_field(e.member(key_capital())),
        region: scalar_field(e.member(key_region())),
        alpha_2: alpha_2,
        alpha_3: scalar_field(e.member(key_alpha_3())),
        timezones: labels(zones_with_code(zones, alpha_2)),
        currencies: currencies_of(e.member(key_currencies())),
        languages: languages_of(e.member(key_languages())),
        call_codes: call_codes_of(e.member(key_calling_codes())),
    }
}

pub open spec fn has_name(rs: Seq<CountryDataView>, name: Seq<char>) -> bool {
    exists|k: int| 0 <= k < rs.len() && #[trigger] rs[k].name == name
}

/// The records of a list of entries: each entry with a `name` member gives a
/// record unless an earlier record has that name already.
pub open spec fn records_of(es: Seq<Json>, zones: Seq<ZoneView>) -> Seq<CountryDataView>
    decreases es.len(),
{
    if es.len() == 0 {
        Seq::empty()
    } else {
        let prev = records_of(es.drop_last(), zones);
        let e = es.last();
        match e.member(key_name()) {
            Some(n) => if has_name(prev, text_of(n)) {
                prev
            } else {
                prev.push(record_of(e, zones))
            },
            None => prev,
        }
    }
}

pub open spec fn records_view(v: Seq<CountryData>) -> Seq<CountryDataView> {
    v.map_values(|d: CountryData| d@)
}

fn optional_text(m: Option<&Json>) -> (r: Option<String>)
    ensures
        opt_view(r) == optional_field(match m { Some(j) => Some(*j), None => None }),
{
    match m {
        None => None,
        Some(Json::Null) => None,
        Some(j) => {
            let t = j.text();
            proof {
                reveal_strlit("(none)");
                assert("(none)"@ =~= none_marker());
            }
            if t == String::from_str("(none)") {
                None
            } else {
                Some(t)
            }
        },
    }
}

fn scalar_text(m: Option<&Json>) -> (r: String)
    ensures
        r@ == scalar_field(match m { Some(j) => Some(*j), None => None }),
{
    match m {
        Some(j) => j.text(),
        None => none_string(),
    }
}

/// The currency that an element of `currencies` describes.
pub fn currency_from_json(j: &Json) -> (r: Currency)
    ensures
        r@ == currency_of(*j),
{
    match j {
        Json::Object(_) => {
            proof {
                reveal_strlit("code");
                assert("code"@ =~= key_code());
                reveal_strlit("name");
                assert("name"@ =~= key_name());
                reveal_strlit("symbol");
                assert("symbol"@ =~= key_symbol());
            }
            Currency {
                code: optional_text(j.get("code")),
                name: optional_text(j.get("name")),
                symbol: optional_text(j.get("symbol")),
            }
        },
        _ => Currency { code: None, name: None, symbol: None },
    }
}

/// The language that an element of `languages` describes.
pub fn language_from_json(j: &Json) -> (r: Language)
    ensures
        r@ == language_of(*j),
{
    match j {
        Json::Object(_) => {
            proof {
                reveal_strlit("iso639_1");
                assert("iso639_1"@ =~= key_iso639_1());
                reveal_strlit("iso639_2");
                assert("iso639_2"@ =~= key_iso639_2());
                reveal_strlit("name");
                assert("name"@ =~= key_name());
                reveal_strlit("nativeName");
                assert("nativeName"@ =~= key_native_name());
            }
            Language {
                iso639_1: optional_text(j.get("iso639_1")),
                iso639_2: optional_text(j.get("iso639_2")),
                name: optional_text(j.get("name")),
                native_name: optional_text(j.get("nativeName")),
            }
        },
        _ => Language { iso639_1: None, iso639_2: None, name: None, native_name: None },
    }
}

fn currencies_from(m: Option<&Json>) -> (r: Vec<Currency>)
    ensures
        currencies_view(r@) == currencies_of(match m { Some(j) => Some(*j), None => None }),
{
    match m {
        Some(Json::Array(xs)) => {
            let mut r: Vec<Currency> = Vec::new();
            let mut i: usize = 0;
            while i < xs.len()
                invariant
                    i <= xs@.len(),
                    r@.len() == i,
                    forall|k: int| 0 <= k < i ==> #[trigger] r@[k]@ == currency_of(xs@[k]),
                decreases xs@.len() - i,
            {
                r.push(currency_from_json(&xs[i]));
                i = i + 1;
            }
            assert(currencies_view(r@) =~= xs@.map_values(|x: Json| currency_of(x)));
            r
        },
        _ => {
            let r = vec![Currency { code: None, name: None, symbol: None }];
            assert(currencies_view(r@) =~= seq![CurrencyView { code: None, name: None, symbol: None }]);
            r
        },
    }
}

fn languages_from(m: Option<&Json>) -> (r: Vec<Language>)
    ensures
        languages_view(r@) == languages_of(match m { Some(j) => Some(*j), None => None }),
{
    match m {
        Some(Json::Array(xs)) => {
            let mut r: Vec<Language> = Vec::new();
            let mut i: usize = 0;
            while i < xs.len()
                invariant
                    i <= xs@.len(),
                    r@.len() == i,
                    forall|k: int| 0 <= k < i ==> #[trigger] r@[k]@ == language_of(xs@[k]),
                decreases xs@.len() - i,
            {
                r.push(language_from_json(&xs[i]));
                i = i + 1;
            }
            assert(languages_view(r@) =~= xs@.map_values(|x: Json| language_of(x)));
            r
        },
        _ => {
            let r = vec![Language { iso639_1: None, iso639_2: None, name: None, native_name: None }];
            assert(languages_view(r@) =~= seq![
                LanguageView { iso639_1: None, iso639_2: None, name: None, native_name: None },
            ]);
            r
        },
    }
}

fn call_codes_from(m: Option<&Json>) -> (r: Vec<String>)
    ensures
        strs_view(r@) == call_codes_of(match m { Some(j) => Some(*j), None => None }),
{
    match m {
        Some(Json::Array(xs)) => {
            let mut r: Vec<String> = Vec::new();
            let mut i: usize = 0;
            while i < xs.len()
                invariant
                    i <= xs@.len(),
                    r@.len() == i,
                    forall|k: int| 0 <= k < i ==> #[trigger] r@[k]@ == text_of(xs@[k]),
                decreases xs@.len() - i,
            {
                r.push(xs[i].text());
                i = i + 1;
            }
            assert(strs_view(r@) =~= xs@.map_values(|x: Json| text_of(x)));
            r
        },
        _ => {
            let r = vec![none_string()];
            assert(strs_view(r@) =~= seq![none_text()]);
            r
        },
    }
}

/// The zone that an element of `zones` describes, if it is complete.
pub fn zone_from_json(j: &Json) -> (r: Option<Zone>)
    ensures
        match r {
            Some(z) => zone_of(*j) == Some(z@),
            None => zone_of(*j) is None,
        },
{
    proof {
        reveal_strlit("countryCode");
        assert("countryCode"@ =~= key_country_code());
        reveal_strlit("zoneName");
        assert("zoneName"@ =~= key_zone_name());
        reveal_strlit("gmtOffset");
        assert("gmtOffset"@ =~= key_gmt_offset());
        reveal_strlit("0");
        assert("0"@ =~= seq!['0']);
    }
    match (j.get("countryCode"), j.get("zoneName")) {
        (Some(c), Some(n)) => {
            let offset = match j.get("gmtOffset") {
                Some(o) => o.text(),
                None => String::from_str("0"),
            };
            Some(Zone { country_code: c.text(), zone_name: n.text(), offset })
        },
        _ => None,
    }
}

/// Every complete zone of the timezone document, in document order: the
/// elements of its `zones` array that name a country code and a zone. A
/// document of any other shape gives none.
pub fn get_time(doc: &Json) -> (r: Vec<Zone>)
    ensures
        zones_view(r@) == zones_of(array_at(*doc, key_zones())),
{
    proof {
        reveal_strlit("zones");
        assert("zones"@ =~= key_zones());
    }
    let mut r: Vec<Zone> = Vec::new();
    match doc.get("zones") {
        Some(Json::Array(xs)) => {
            let mut i: usize = 0;
            assert(xs@.subrange(0, 0) =~= Seq::<Json>::empty());
            assert(zones_view(r@) =~= Seq::<ZoneView>::empty());
            while i < xs.len()
                invariant
                    i <= xs@.len(),
                    zones_view(r@) == zones_of(xs@.subrange(0, i as int)),
                decreases xs@.len() - i,
            {
                let ghost before = r@;
                assert(xs@.subrange(0, i + 1).drop_last() =~= xs@.subrange(0, i as int));
                assert(xs@.subrange(0, i + 1).last() == xs@[i as int]);
                match zone_from_json(&xs[i]) {
                    Some(z) => {
                        r.push(z);
                        assert(zones_view(r@) =~= zones_view(before).push(z@));
                    },
                    None => {},
                }
                i = i + 1;
            }
            assert(xs@.subrange(0, i as int) =~= xs@);
            r
        },
        _ => {
            assert(zones_view(r@) =~= Seq::<ZoneView>::empty());
            r
        },
    }
}

/// The zones of `zones` whose country code is `code`, in order.
pub fn zones_for(zones: &Vec<Zone>, code: &String) -> (r: Vec<Zone>)
    ensures
        zones_view(r@) == zones_with_code(zones_view(zones@), code@),
{
    let mut r: Vec<Zone> = Vec::new();
    let mut i: usize = 0;
    assert(zones_view(zones@).subrange(0, 0) =~= Seq::<ZoneView>::empty());
    assert(zones_view(r@) =~= Seq::<ZoneView>::empty());
    while i < zones.len()
        invariant
            i <= zones@.len(),
            zones_view(r@) == zones_with_code(zones_view(zones@).subrange(0, i as int), code@),
        decreases zones@.len() - i,
    {
        let ghost before = r@;
        let ghost all = zones_view(zones@);
        assert(all.subrange(0, i + 1).drop_last() =~= all.subrange(0, i as int));
        assert(all.subrange(0, i + 1).last() == zones@[i as int]@);
        if zones[i].country_code == *code {
            let z = Zone {
                country_code: zones[i].country_code.clone(),
                zone_name: zones[i].zone_name.clone(),
                offset: zones[i].offset.clone(),
            };
            r.push(z);
            assert(zones_view(r@) =~= zones_view(before).push(zones@[i as int]@));
        }
        i = i + 1;
    }
    assert(zones_view(zones@).subrange(0, i as int) =~= zones_view(zones@));
    r
}

/// The UTC offset label of each zone, in order.
pub fn timezone_vec(timezones: &Vec<Zone>) -> (r: Vec<String>)
    ensures
        strs_view(r@) == labels(zones_view(timezones@)),
{
    let mut r: Vec<String> = Vec::new();
    let mut i: usize = 0;
    while i < timezones.len()
        invariant
            i <= timezones@.len(),
            r@.len() == i,
            forall|k: int| 0 <= k < i ==> #[trigger] r@[k]@ == offset_label(timezones@[k].offset@),
        decreases timezones@.len() - i,
    {
        r.push(second_offset_to_utc_offset(timezones[i].offset.clone()));
        i = i + 1;
    }
    assert(strs_view(r@) =~= labels(zones_view(timezones@)));
    r
}

/// The record built from a country entry with the zones of the timezone
/// document.
pub fn country_record(entry: &Json, zones: &Vec<Zone>) -> (r: CountryData)
    ensures
        r@ == record_of(*entry, zones_view(zones@)),
{
    proof {
        reveal_strlit("name");
        assert("name"@ =~= key_name());
        reveal_strlit("capital");
        assert("capital"@ =~= key_capital());
        reveal_strlit("region");
        assert("region"@ =~= key_region());
        reveal_strlit("alpha2Code");
        assert("alpha2Code"@ =~= key_alpha_2());
        reveal_strlit("alpha3Code");
        assert("alpha3Code"@ =~= key_alpha_3());
        reveal_strlit("currencies");
        assert("currencies"@ =~= key_currencies());
        reveal_strlit("languages");
        assert("languages"@ =~= key_languages());
        reveal_strlit("callingCodes");
        assert("callingCodes"@ =~= key_calling_codes());
    }
    let alpha_2 = scalar_text(entry.get("alpha2Code"));
    let timezones = timezone_vec(&zones_for(zones, &alpha_2));
    CountryData::builder()
        .name(scalar_text(entry.get("name")))
        .capital(scalar_text(entry.get("capital")))
        .region(scalar_text(entry.get("region")))
        .alpha_2(alpha_2)
        .alpha_3(scalar_text(entry.get("alpha3Code")))
        .timezones(timezones)
        .currencies(currencies_from(entry.get("currencies")))
        .languages(languages_from(entry.get("languages")))
        .call_codes(call_codes_from(entry.get("callingCodes")))
        .build()
}

fn name_taken(records: &Vec<CountryData>, name: &String) -> (r: bool)
    ensures
        r == has_name(records_view(records@), name@),
{
    let ghost rs = records_view(records@);
    let mut k: usize = 0;
    while k < records.len()
        invariant
            k <= records@.len(),
            rs == records_view(records@),
            forall|j: int| 0 <= j < k ==> #[trigger] rs[j].name != name@,
        decreases records@.len() - k,
    {
        assert(rs[k as int] == records@[k as int]@);
        if records[k].name == *name {
            assert(rs[k as int].name == name@);
            return true;
        }
        k = k + 1;
    }
    false
}

/// The records of the country document: one for each element of its
/// top-level array that has a `name` member, the first of each name only.
/// A document of any other shape gives none.
pub fn get_countries(doc: &Json, zones: &Vec<Zone>) -> (r: Vec<CountryData>)
    ensures
        records_view(r@) == records_of(
            match *doc { Json::Array(xs) => xs@, _ => Seq::empty() },
            zones_view(zones@),
        ),
{
    proof {
        reveal_strlit("name");
        assert("name"@ =~= key_name());
    }
    let mut r: Vec<CountryData> = Vec::new();
    match doc {
        Json::Array(xs) => {
            let ghost zs = zones_view(zones@);
            let mut i: usize = 0;
            assert(xs@.subrange(0, 0) =~= Seq::<Json>::empty());
            assert(records_view(r@) =~= Seq::<CountryDataView>::empty());
            while i < xs.len()
                invariant
                    i <= xs@.len(),
                    zs == zones_view(zones@),
                    "name"@ == key_name(),
                    records_view(r@) == records_of(xs@.subrange(0, i as int), zs),
                decreases xs@.len() - i,
            {
                let ghost before = records_view(r@);
                assert(xs@.subrange(0, i + 1).drop_last() =~= xs@.subrange(0, i as int));
                assert(xs@.subrange(0, i + 1).last() == xs@[i as int]);
                let entry = &xs[i];
                match entry.get("name") {
                    Some(n) => {
                        let name = n.text();
                        let seen = name_taken(&r, &name);
                        if !seen {
                            let record = country_record(entry, zones);
                            r.push(record);
                            assert(records_view(r@) =~= before.push(record_of(xs@[i as int], zs)));
                        }
                    },
                    None => {},
                }
                i = i + 1;
            }
            assert(xs@.subrange(0, i as int) =~= xs@);
            r
        },
        _ => r,
    }
}

} // verus!
