//! The compiled lookup tables and the queries over them.
use vstd::prelude::*;
use crate::json::none_text;
use crate::country::{
    Country, CountryData, CountryDataView, CountryView, copy_currencies, copy_languages,
    copy_strings, currencies_view, languages_view, strs_view,
};
use crate::countries::records_view;

verus! {

pub open spec fn null_text() -> Seq<char> {
    seq!['n', 'u', 'l', 'l']
}

/// A capital or region that the entry did not supply: the sentinel, or `null`.
pub open spec fn is_absent(s: Seq<char>) -> bool {
    s == none_text() || s == null_text()
}

pub open spec fn present(s: Seq<char>) -> Option<Seq<char>> {
    if is_absent(s) { None } else { Some(s) }
}

/// The country a record stands for: an absent capital or region becomes `None`.
pub open spec fn country_of(d: CountryDataView) -> CountryView {
    CountryView {
        name: d.name,
        capital: present(d.capital),
        region: present(d.region),
        alpha_2: d.alpha_2,
        alpha_3: d.alpha_3,
        timezones: d.timezones,
        currencies: d.currencies,
        languages: d.languages,
        call_codes: d.call_codes,
    }
}

pub open spec fn countries_view(v: Seq<Country>) -> Seq<CountryView> {
    v.map_values(|c: Country| c@)
}

/// The record fields that a grouping table is keyed by.
#[derive(Debug, Clone, Copy, PartialEq, Eq)]
pub enum Field {
    Capital,
    Region,
    Alpha2,
    Alpha3,
}

pub open spec fn field_of(d: CountryDataView, f: Field) -> Seq<char> {
    match f {
        Field::Capital => d.capital,
        Field::Region => d.region,
        Field::Alpha2 => d.alpha_2,
        Field::Alpha3 => d.alpha_3,
    }
}

/// The value a country holds in field `f`, `None` where it has none.
pub open spec fn country_key(c: CountryView, f: Field) -> Option<Seq<char>> {
    match f {
        Field::Capital => c.capital,
        Field::Region => c.region,
        Field::Alpha2 => Some(c.alpha_2),
        Field::Alpha3 => Some(c.alpha_3),
    }
}

/// Whether a record with value `k` in field `f` is listed under `k`: an empty
/// or absent capital or region is not; every code is.
pub open spec fn is_key(f: Field, k: Seq<char>) -> bool {
    match f {
        Field::Capital | Field::Region => k.len() > 0 && !is_absent(k),
        _ => true,
    }
}

/// The countries of the records whose field `f` is `k`, in record order.
pub open spec fn members(rs: Seq<CountryDataView>, f: Field, k: Seq<char>) -> Seq<CountryView>
    decreases rs.len(),
{
    if rs.len() == 0 {
        Seq::empty()
    } else {
        let prev = members(rs.drop_last(), f, k);
        if field_of(rs.last(), f) == k {
            prev.push(country_of(rs.last()))
        } else {
            prev
        }
    }
}

/// The countries listed under one key.
#[derive(Debug)]
pub struct Group {
    pub key: String,
    pub countries: Vec<Country>,
}

/// A grouping table for field `f` over records `rs`: one group per key,
/// keys distinct, each group holding exactly the matching countries in record
/// order and at least one of them, and every record that is listed at all
/// under its key.
pub open spec fn is_grouping(gs: Seq<Group>, rs: Seq<CountryDataView>, f: Field) -> bool {
    &&& forall|i: int, j: int|
        0 <= i < j < gs.len() ==> #[trigger] gs[i].key@ != #[trigger] gs[j].key@
    &&& forall|i: int|
        0 <= i < gs.len() ==> is_key(f, #[trigger] gs[i].key@) && countries_view(gs[i].countries@)
            == members(rs, f, gs[i].key@) && members(rs, f, gs[i].key@).len() > 0
    &&& forall|p: int|
        0 <= p < rs.len() && is_key(f, #[trigger] field_of(rs[p], f)) ==> exists|i: int|
            0 <= i < gs.len() && #[trigger] gs[i].key@ == field_of(rs[p], f)
}

/// The compiled lookup tables.
#[derive(Debug)]
pub struct Tables {
    /// One country per record, in record order.
    pub names: Vec<Country>,
    pub capitals: Vec<Group>,
    pub regions: Vec<Group>,
    pub alpha_2: Vec<Group>,
    pub alpha_3: Vec<Group>,
}

impl Tables {
    /// The tables compiled from records `rs`.
    pub open spec fn compiled_from(self, rs: Seq<CountryDataView>) -> bool {
        &&& countries_view(self.names@) == rs.map_values(|d: CountryDataView| country_of(d))
        &&& is_grouping(self.capitals@, rs, Field::Capital)
        &&& is_grouping(self.regions@, rs, Field::Region)
        &&& is_grouping(self.alpha_2@, rs, Field::Alpha2)
        &&& is_grouping(self.alpha_3@, rs, Field::Alpha3)
    }
}

fn opt_present(s: &String) -> (r: Option<String>)
    ensures
        match r {
            Some(t) => present(s@) == Some(t@),
            None => present(s@) is None,
        },
{
    proof {
        reveal_strlit("None");
        reveal_strlit("null");
        assert("None"@ =~= none_text());
        assert("null"@ =~= null_text());
    }
    if *s == String::from_str("None") || *s == String::from_str("null") {
        None
    } else {
        Some(s.clone())
    }
}

impl Country {
    /// The country that a record stands for.
    pub fn from_record(d: &CountryData) -> (r: Country)
        ensures
            r@ == country_of(d@),
    {
        let capital = opt_present(&d.capital);
        let region = opt_present(&d.region);
        Country {
            name: d.name.clone(),
            capital,
            region,
            alpha_2: d.alpha_2.clone(),
            alpha_3: d.alpha_3.clone(),
            timezones: copy_strings(&d.timezones),
            currencies: copy_currencies(&d.currencies),
            languages: copy_languages(&d.languages),
            call_codes: copy_strings(&d.call_codes),
        }
    }
}

fn field_text(d: &CountryData, f: Field) -> (r: &String)
    ensures
        r@ == field_of(d@, f),
{
    match f {
        Field::Capital => &d.capital,
        Field::Region => &d.region,
        Field::Alpha2 => &d.alpha_2,
        Field::Alpha3 => &d.alpha_3,
    }
}

fn keyed(f: Field, k: &String) -> (r: bool)
    ensures
        r == is_key(f, k@),
{
    proof {
        reveal_strlit("None");
        reveal_strlit("null");
        assert("None"@ =~= none_text());
        assert("null"@ =~= null_text());
    }
    match f {
        Field::Capital | Field::Region => {
            k.as_str().unicode_len() > 0 && !(*k == String::from_str("None")
                || *k == String::from_str("null"))
        },
        _ => true,
    }
}

/// The countries of the records whose field `f` is `key`, in record order.
pub fn members_of(records: &Vec<CountryData>, f: Field, key: &String) -> (r: Vec<Country>)
    ensures
        countries_view(r@) == members(records_view(records@), f, key@),
{
    let ghost rs = records_view(records@);
    let mut r: Vec<Country> = Vec::new();
    let mut i: usize = 0;
    assert(rs.subrange(0, 0) =~= Seq::<CountryDataView>::empty());
    assert(countries_view(r@) =~= Seq::<CountryView>::empty());
    while i < records.len()
        invariant
            i <= records@.len(),
            rs == records_view(records@),
            countries_view(r@) == members(rs.subrange(0, i as int), f, key@),
        decreases records@.len() - i,
    {
        let ghost before = countries_view(r@);
        assert(rs.subrange(0, i + 1).drop_last() =~= rs.subrange(0, i as int));
        assert(rs.subrange(0, i + 1).last() == records@[i as int]@);
        if *field_text(&records[i], f) == *key {
            let c = Country::from_record(&records[i]);
            r.push(c);
            assert(countries_view(r@) =~= before.push(c@));
        }
        i = i + 1;
    }
    assert(rs.subrange(0, i as int) =~= rs);
    r
}

fn key_listed(gs: &Vec<Group>, k: &String) -> (r: bool)
    ensures
        r == exists|i: int| 0 <= i < gs@.len() && #[trigger] gs@[i].key@ == k@,
{
    let mut i: usize = 0;
    while i < gs.len()
        invariant
            i <= gs@.len(),
            forall|j: int| 0 <= j < i ==> #[trigger] gs@[j].key@ != k@,
        decreases gs@.len() - i,
    {
        if gs[i].key == *k {
            return true;
        }
        i = i + 1;
    }
    false
}

proof fn lemma_members_nonempty(rs: Seq<CountryDataView>, f: Field, k: Seq<char>, p: int)
    requires
        0 <= p < rs.len(),
        field_of(rs[p], f) == k,
    ensures
        members(rs, f, k).len() > 0,
    decreases rs.len(),
{
    if p < rs.len() - 1 {
        assert(rs.drop_last()[p] == rs[p]);
        lemma_members_nonempty(rs.drop_last(), f, k, p);
    } else {
        assert(rs.last() == rs[p]);
    }
}

/// The grouping table for field `f`: one group per listed key, in the order
/// the keys first occur among the records.
pub fn group_by(records: &Vec<CountryData>, f: Field) -> (r: Vec<Group>)
    ensures
        is_grouping(r@, records_view(records@), f),
{
    let ghost rs = records_view(records@);
    let mut gs: Vec<Group> = Vec::new();
    let mut i: usize = 0;
    while i < records.len()
        invariant
            i <= records@.len(),
            rs == records_view(records@),
            forall|a: int, b: int|
                0 <= a < b < gs@.len() ==> #[trigger] gs@[a].key@ != #[trigger] gs@[b].key@,
            forall|a: int|
                0 <= a < gs@.len() ==> is_key(f, #[trigger] gs@[a].key@) && countries_view(
                    gs@[a].countries@,
                ) == members(rs, f, gs@[a].key@) && members(rs, f, gs@[a].key@).len() > 0,
            forall|p: int|
                0 <= p < i && is_key(f, #[trigger] field_of(rs[p], f)) ==> exists|a: int|
                    0 <= a < gs@.len() && #[trigger] gs@[a].key@ == field_of(rs[p], f),
        decreases records@.len() - i,
    {
        assert(rs[i as int] == records@[i as int]@);
        let k = field_text(&records[i], f);
        if keyed(f, k) && !key_listed(&gs, k) {
            proof {
                lemma_members_nonempty(rs, f, k@, i as int);
            }
            let g = Group { key: k.clone(), countries: members_of(records, f, k) };
            let ghost old_gs = gs@;
            gs.push(g);
            assert(gs@[old_gs.len() as int] == g);
            assert forall|p: int|
                0 <= p < i + 1 && is_key(f, #[trigger] field_of(rs[p], f)) implies exists|a: int|
                    0 <= a < gs@.len() && #[trigger] gs@[a].key@ == field_of(rs[p], f) by {
                if p < i {
                    let a = choose|a: int| 0 <= a < old_gs.len() && #[trigger] old_gs[a].key@ == field_of(rs[p], f);
                    assert(gs@[a] == old_gs[a]);
                }
                else {
                    assert(gs@[old_gs.len() as int].key@ == field_of(rs[p], f));
                }
            }
        }
        i = i + 1;
    }
    gs
}

/// Compiles the lookup tables from the records.
pub fn compile(records: &Vec<CountryData>) -> (r: Tables)
    ensures
        r.compiled_from(records_view(records@)),
{
    let ghost rs = records_view(records@);
    let mut names: Vec<Country> = Vec::new();
    let mut i: usize = 0;
    while i < records.len()
        invariant
            i <= records@.len(),
            rs == records_view(records@),
            names@.len() == i,
            forall|k: int| 0 <= k < i ==> #[trigger] names@[k]@ == country_of(rs[k]),
        decreases records@.len() - i,
    {
        assert(rs[i as int] == records@[i as int]@);
        names.push(Country::from_record(&records[i]));
        i = i + 1;
    }
    assert(countries_view(names@) =~= rs.map_values(|d: CountryDataView| country_of(d)));
    Tables {
        names,
        capitals: group_by(records, Field::Capital),
        regions: group_by(records, Field::Region),
        alpha_2: group_by(records, Field::Alpha2),
        alpha_3: group_by(records, Field::Alpha3),
    }
}

/// The first group keyed `key`.
fn find_group<'a>(gs: &'a Vec<Group>, key: &str) -> (r: Option<&'a [Country]>)
    ensures
        match r {
            Some(cs) => exists|i: int|
                0 <= i < gs@.len() && #[trigger] gs@[i].key@ == key@ && cs@ == gs@[i].countries@,
            None => forall|i: int| 0 <= i < gs@.len() ==> #[trigger] gs@[i].key@ != key@,
        },
{
    let k = String::from_str(key);
    let mut i: usize = 0;
    while i < gs.len()
        invariant
            i <= gs@.len(),
            k@ == key@,
            forall|j: int| 0 <= j < i ==> #[trigger] gs@[j].key@ != key@,
        decreases gs@.len() - i,
    {
        if gs[i].key == k {
            return Some(gs[i].countries.as_slice());
        }
        i = i + 1;
    }
    None
}

impl Country {
    /// The country named `name`: the first one in the name table, which holds
    /// each name once when compiled from deduplicated records.
    pub fn from_name<'a>(tables: &'a Tables, name: &str) -> (r: Option<&'a Country>)
        ensures
            match r {
                Some(c) => c.name@ == name@ && exists|i: int|
                    0 <= i < tables.names@.len() && *c == tables.names@[i] && forall|j: int|
                        0 <= j < i ==> #[trigger] tables.names@[j].name@ != name@,
                None => forall|i: int|
                    0 <= i < tables.names@.len() ==> #[trigger] tables.names@[i].name@ != name@,
            },
    {
        let k = String::from_str(name);
        let mut i: usize = 0;
        while i < tables.names.len()
            invariant
                i <= tables.names@.len(),
                k@ == name@,
                forall|j: int| 0 <= j < i ==> #[trigger] tables.names@[j].name@ != name@,
            decreases tables.names@.len() - i,
        {
            if tables.names[i].name == k {
                return Some(&tables.names[i]);
            }
            i = i + 1;
        }
        None
    }

    /// The countries whose capital is `capital`.
    pub fn from_capital<'a>(tables: &'a Tables, capital: &str) -> (r: Option<&'a [Country]>)
        ensures
            match r {
                Some(cs) => exists|i: int|
                    0 <= i < tables.capitals@.len() && #[trigger] tables.capitals@[i].key@
                        == capital@ && cs@ == tables.capitals@[i].countries@,
                None => forall|i: int|
                    0 <= i < tables.capitals@.len() ==> #[trigger] tables.capitals@[i].key@
                        != capital@,
            },
    {
        find_group(&tables.capitals, capital)
    }

    /// The countries of region `region`.
    pub fn from_region<'a>(tables: &'a Tables, region: &str) -> (r: Option<&'a [Country]>)
        ensures
            match r {
                Some(cs) => exists|i: int|
                    0 <= i < tables.regions@.len() && #[trigger] tables.regions@[i].key@
                        == region@ && cs@ == tables.regions@[i].countries@,
                None => forall|i: int|
                    0 <= i < tables.regions@.len() ==> #[trigger] tables.regions@[i].key@
                        != region@,
            },
    {
        find_group(&tables.regions, region)
    }

    /// The countries with ISO 3166-1 alpha-2 code `alpha_2`.
    pub fn from_alpha_2<'a>(tables: &'a Tables, alpha_2: &str) -> (r: Option<&'a [Country]>)
        ensures
            match r {
                Some(cs) => exists|i: int|
                    0 <= i < tables.alpha_2@.len() && #[trigger] tables.alpha_2@[i].key@
                        == alpha_2@ && cs@ == tables.alpha_2@[i].countries@,
                None => forall|i: int|
                    0 <= i < tables.alpha_2@.len() ==> #[trigger] tables.alpha_2@[i].key@
                        != alpha_2@,
            },
    {
        find_group(&tables.alpha_2, alpha_2)
    }

    /// The countries with ISO 3166-1 alpha-3 code `alpha_3`.
    pub fn from_alpha_3<'a>(tables: &'a Tables, alpha_3: &str) -> (r: Option<&'a [Country]>)
        ensures
            match r {
                Some(cs) => exists|i: int|
                    0 <= i < tables.alpha_3@.len() && #[trigger] tables.alpha_3@[i].key@
                        == alpha_3@ && cs@ == tables.alpha_3@[i].countries@,
                None => forall|i: int|
                    0 <= i < tables.alpha_3@.len() ==> #[trigger] tables.alpha_3@[i].key@
                        != alpha_3@,
            },
    {
        find_group(&tables.alpha_3, alpha_3)
    }
}

} // verus!
