//! Emitting the compiled tables as Rust source declarations of perfect-hash
//! maps.
use vstd::prelude::*;
use crate::country::{CountryView, opt_view, strs_view};
use crate::codegen::{country_lit, country_struct, slice_lit, vec_to_string};
use crate::tables::{Group, Tables, countries_view};

verus! {

#[verifier::external_type_specification]
#[verifier::external_body]
#[verifier::reject_recursive_types(K)]
pub struct ExPhfMap<K>(phf_codegen::Map<K>);

/// The key and value text of each entry given to a map builder, in order.
pub uninterp spec fn phf_entries(m: phf_codegen::Map<String>) -> Seq<(Seq<char>, Seq<char>)>;

/// The source text of the perfect-hash map with these entries.
pub uninterp spec fn phf_map_source(entries: Seq<(Seq<char>, Seq<char>)>) -> Seq<char>;

/// The text of the token stream lexed from `s`; `None` where `s` does not lex.
pub uninterp spec fn token_text(s: Seq<char>) -> Option<Seq<char>>;

/// Relies on phf_codegen::Map::new: a builder with no entries.
#[verifier::external_body]
fn phf_new() -> (r: phf_codegen::Map<String>)
    ensures
        phf_entries(r) == Seq::<(Seq<char>, Seq<char>)>::empty(),
{
    phf_codegen::Map::new()
}

/// Relies on phf_codegen::Map::entry: appends the key and the value text.
#[verifier::external_body]
fn phf_entry(m: &mut phf_codegen::Map<String>, key: String, value: &str)
    ensures
        phf_entries(*final(m)) == phf_entries(*old(m)).push((key@, value@)),
{
    m.entry(key, value);
}

/// Relies on phf_codegen::Map::build and the `Display` of its result: the
/// source text of the map, whose hash key phf_generator searches for from a
/// fixed seed, so the text depends on the entries alone. `build` panics on a
/// repeated key.
#[verifier::external_body]
fn phf_source(m: &phf_codegen::Map<String>) -> (r: String)
    requires
        keys_distinct(phf_entries(*m)),
    ensures
        r@ == phf_map_source(phf_entries(*m)),
{
    m.build().to_string()
}

/// Relies on proc_macro2's `FromStr` for `TokenStream` and the stream's
/// `Display`: the source lexed and printed back, or nothing where it does not
/// lex.
#[verifier::external_body]
fn lex_and_print(s: &str) -> (r: Option<String>)
    ensures
        opt_view(r) == token_text(s@),
{
    match s.parse::<proc_macro2::TokenStream>() {
        Ok(t) => Some(t.to_string()),
        Err(_) => None,
    }
}

pub open spec fn keys_distinct(es: Seq<(Seq<char>, Seq<char>)>) -> bool {
    forall|i: int, j: int| 0 <= i < j < es.len() ==> #[trigger] es[i].0 != #[trigger] es[j].0
}

pub open spec fn entries_of(keys: Seq<Seq<char>>, values: Seq<Seq<char>>) -> Seq<(Seq<char>, Seq<char>)> {
    Seq::new(keys.len(), |i: int| (keys[i], values[i]))
}

/// The name table's entries: each country's literal under its name.
pub open spec fn name_entries(cs: Seq<CountryView>) -> Seq<(Seq<char>, Seq<char>)> {
    cs.map_values(|c: CountryView| (c.name, country_lit(c)))
}

/// A grouping table's entries: the slice literal of each group's countries
/// under its key.
pub open spec fn group_entries(gs: Seq<Group>) -> Seq<(Seq<char>, Seq<char>)> {
    gs.map_values(
        |g: Group|
            (g.key@, slice_lit(countries_view(g.countries@).map_values(|c: CountryView| country_lit(c)))),
    )
}

/// Whether every table's keys are distinct, as the map builder needs.
pub open spec fn emittable(t: Tables) -> bool {
    &&& keys_distinct(name_entries(countries_view(t.names@)))
    &&& keys_distinct(group_entries(t.capitals@))
    &&& keys_distinct(group_entries(t.regions@))
    &&& keys_distinct(group_entries(t.alpha_2@))
    &&& keys_distinct(group_entries(t.alpha_3@))
}

/// The declarations of the five tables; all but the name table sit behind a
/// feature of their own.
pub open spec fn declarations(t: Tables) -> Seq<char> {
    "pub static NAMES: phf::Map<&'static str, Country> = "@
        + phf_map_source(name_entries(countries_view(t.names@))) + ";\n"@
        + "#[cfg(feature = \"from_capitals\")]\npub static CAPTIAL: phf::Map<&'static str, &'static [Country]> = "@
        + phf_map_source(group_entries(t.capitals@)) + ";\n"@
        + "#[cfg(feature = \"from_regions\")]\npub static REGIONS: phf::Map<&'static str, &'static [Country]> = "@
        + phf_map_source(group_entries(t.regions@)) + ";\n"@
        + "#[cfg(feature = \"from_alpha_2\")]\npub static ALPHA_2: phf::Map<&'static str, &'static [Country]> = "@
        + phf_map_source(group_entries(t.alpha_2@)) + ";\n"@
        + "#[cfg(feature = \"from_alpha_3\")]\npub static ALPHA_3: phf::Map<&'static str, &'static [Country]> = "@
        + phf_map_source(group_entries(t.alpha_3@)) + ";\n"@
}

/// Why the tables could not be emitted.
#[derive(Debug, Clone, Copy, PartialEq, Eq)]
pub enum EmitError {
    /// A table holds a key twice.
    DuplicateKey,
    /// The generated source does not lex.
    Unlexable,
}

fn distinct_keys(keys: &Vec<String>) -> (r: bool)
    ensures
        r == forall|i: int, j: int|
            0 <= i < j < keys@.len() ==> #[trigger] keys@[i]@ != #[trigger] keys@[j]@,
{
    let mut i: usize = 0;
    while i < keys.len()
        invariant
            i <= keys@.len(),
            forall|a: int, b: int| 0 <= a < b < keys@.len() && a < i ==> #[trigger] keys@[a]@ != #[trigger] keys@[b]@,
        decreases keys@.len() - i,
    {
        let mut j: usize = i + 1;
        while j < keys.len()
            invariant
                i < keys@.len(),
                i + 1 <= j <= keys@.len(),
                forall|a: int, b: int| 0 <= a < b < keys@.len() && a < i ==> #[trigger] keys@[a]@ != #[trigger] keys@[b]@,
                forall|b: int| i < b < j ==> keys@[i as int]@ != #[trigger] keys@[b]@,
            decreases keys@.len() - j,
        {
            if keys[i] == keys[j] {
                return false;
            }
            j = j + 1;
        }
        i = i + 1;
    }
    true
}

/// The source of the perfect-hash map from each key to the value at the same
/// place; `None` where a key repeats.
pub fn map_source(keys: &Vec<String>, values: &Vec<String>) -> (r: Option<String>)
    requires
        keys@.len() == values@.len(),
    ensures
        match r {
            Some(s) => keys_distinct(entries_of(strs_view(keys@), strs_view(values@))) && s@
                == phf_map_source(entries_of(strs_view(keys@), strs_view(values@))),
            None => !keys_distinct(entries_of(strs_view(keys@), strs_view(values@))),
        },
{
    let ghost es = entries_of(strs_view(keys@), strs_view(values@));
    if !distinct_keys(keys) {
        proof {
            let (a, b) = choose|a: int, b: int| 0 <= a < b < keys@.len() && keys@[a]@ == keys@[b]@;
            assert(es[a].0 == es[b].0);
        }
        return None;
    }
    let mut m = phf_new();
    let mut i: usize = 0;
    while i < keys.len()
        invariant
            i <= keys@.len(),
            keys@.len() == values@.len(),
            es == entries_of(strs_view(keys@), strs_view(values@)),
            phf_entries(m) =~= es.subrange(0, i as int),
        decreases keys@.len() - i,
    {
        phf_entry(&mut m, keys[i].clone(), values[i].as_str());
        i = i + 1;
    }
    assert(es.subrange(0, i as int) =~= es);
    assert(keys_distinct(es)) by {
        assert forall|a: int, b: int| 0 <= a < b < es.len() implies #[trigger] es[a].0 != #[trigger] es[b].0 by {
            assert(keys@[a]@ != keys@[b]@);
        }
    }
    Some(phf_source(&m))
}

fn group_table_source(gs: &Vec<Group>) -> (r: Option<String>)
    ensures
        match r {
            Some(s) => keys_distinct(group_entries(gs@)) && s@ == phf_map_source(group_entries(gs@)),
            None => !keys_distinct(group_entries(gs@)),
        },
{
    let mut keys: Vec<String> = Vec::new();
    let mut values: Vec<String> = Vec::new();
    let mut i: usize = 0;
    while i < gs.len()
        invariant
            i <= gs@.len(),
            keys@.len() == i,
            values@.len() == i,
            forall|k: int| 0 <= k < i ==> (#[trigger] keys@[k]@, values@[k]@) == group_entries(gs@)[k],
        decreases gs@.len() - i,
    {
        let mut lits: Vec<String> = Vec::new();
        let cs = &gs[i].countries;
        let mut j: usize = 0;
        while j < cs.len()
            invariant
                j <= cs@.len(),
                lits@.len() == j,
                forall|k: int| 0 <= k < j ==> #[trigger] lits@[k]@ == country_lit(cs@[k]@),
            decreases cs@.len() - j,
        {
            lits.push(country_struct(&cs[j]));
            j = j + 1;
        }
        assert(strs_view(lits@) =~= countries_view(cs@).map_values(|c: CountryView| country_lit(c)));
        keys.push(gs[i].key.clone());
        values.push(vec_to_string(&lits));
        i = i + 1;
    }
    assert(entries_of(strs_view(keys@), strs_view(values@)) =~= group_entries(gs@));
    map_source(&keys, &values)
}

fn name_table_source(cs: &Vec<crate::country::Country>) -> (r: Option<String>)
    ensures
        match r {
            Some(s) => keys_distinct(name_entries(countries_view(cs@))) && s@ == phf_map_source(
                name_entries(countries_view(cs@)),
            ),
            None => !keys_distinct(name_entries(countries_view(cs@))),
        },
{
    let mut keys: Vec<String> = Vec::new();
    let mut values: Vec<String> = Vec::new();
    let mut i: usize = 0;
    while i < cs.len()
        invariant
            i <= cs@.len(),
            keys@.len() == i,
            values@.len() == i,
            forall|k: int|
                0 <= k < i ==> (#[trigger] keys@[k]@, values@[k]@) == name_entries(countries_view(cs@))[k],
        decreases cs@.len() - i,
    {
        keys.push(cs[i].name.clone());
        values.push(country_struct(&cs[i]));
        i = i + 1;
    }
    assert(entries_of(strs_view(keys@), strs_view(values@)) =~= name_entries(countries_view(cs@)));
    map_source(&keys, &values)
}

/// The source declarations of the compiled tables, lexed and printed back as
/// a token stream.
pub fn emit(t: &Tables) -> (r: Result<String, EmitError>)
    ensures
        match r {
            Ok(s) => emittable(*t) && token_text(declarations(*t)) == Some(s@),
            Err(EmitError::DuplicateKey) => !emittable(*t),
            Err(EmitError::Unlexable) => emittable(*t) && token_text(declarations(*t)) is None,
        },
{
    let names = match name_table_source(&t.names) {
        Some(s) => s,
        None => return Err(EmitError::DuplicateKey),
    };
    let capitals = match group_table_source(&t.capitals) {
        Some(s) => s,
        None => return Err(EmitError::DuplicateKey),
    };
    let regions = match group_table_source(&t.regions) {
        Some(s) => s,
        None => return Err(EmitError::DuplicateKey),
    };
    let alpha_2 = match group_table_source(&t.alpha_2) {
        Some(s) => s,
        None => return Err(EmitError::DuplicateKey),
    };
    let alpha_3 = match group_table_source(&t.alpha_3) {
        Some(s) => s,
        None => return Err(EmitError::DuplicateKey),
    };
    let mut out = String::from_str("pub static NAMES: phf::Map<&'static str, Country> = ");
    out.append(names.as_str());
    out.append(";\n");
    out.append("#[cfg(feature = \"from_capitals\")]\npub static CAPTIAL: phf::Map<&'static str, &'static [Country]> = ");
    out.append(capitals.as_str());
    out.append(";\n");
    out.append("#[cfg(feature = \"from_regions\")]\npub static REGIONS: phf::Map<&'static str, &'static [Country]> = ");
    out.append(regions.as_str());
    out.append(";\n");
    out.append("#[cfg(feature = \"from_alpha_2\")]\npub static ALPHA_2: phf::Map<&'static str, &'static [Country]> = ");
    out.append(alpha_2.as_str());
    out.append(";\n");
    out.append("#[cfg(feature = \"from_alpha_3\")]\npub static ALPHA_3: phf::Map<&'static str, &'static [Country]> = ");
    out.append(alpha_3.as_str());
    out.append(";\n");
    assert(out@ =~= declarations(*t));
    match lex_and_print(out.as_str()) {
        Some(s) => Ok(s),
        None => Err(EmitError::Unlexable),
    }
}

} // verus!
