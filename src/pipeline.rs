//! The whole build: feed documents in, tables and their source out.
use vstd::prelude::*;
use crate::json::Json;
use crate::countries::{array_at, get_countries, get_time, key_zones, records_of, zones_of};
use crate::tables::{Tables, compile};
use crate::emit::{EmitError, declarations, emit, emittable, token_text};

verus! {

/// The elements of a top-level array; nothing for a document of another shape.
pub open spec fn top_level(doc: Json) -> Seq<Json> {
    match doc {
        Json::Array(xs) => xs@,
        _ => Seq::empty(),
    }
}

/// The records that the country document gives with the zones of the
/// timezone document.
pub open spec fn feed_records(countries: Json, timezones: Json) -> Seq<crate::country::CountryDataView> {
    records_of(top_level(countries), zones_of(array_at(timezones, key_zones())))
}

/// The lookup tables of the country and timezone documents.
pub fn build_tables(countries: &Json, timezones: &Json) -> (r: Tables)
    ensures
        r.compiled_from(feed_records(*countries, *timezones)),
{
    let zones = get_time(timezones);
    let records = get_countries(countries, &zones);
    compile(&records)
}

/// The source declarations of the tables of the country and timezone
/// documents.
pub fn generate(countries: &Json, timezones: &Json) -> (r: Result<String, EmitError>)
    ensures
        exists|t: Tables|
            t.compiled_from(feed_records(*countries, *timezones)) && match r {
                Ok(s) => emittable(t) && token_text(declarations(t)) == Some(s@),
                Err(EmitError::DuplicateKey) => !emittable(t),
                Err(EmitError::Unlexable) => emittable(t) && token_text(declarations(t)) is None,
            },
{
    let tables = build_tables(countries, timezones);
    emit(&tables)
}

} // verus!
