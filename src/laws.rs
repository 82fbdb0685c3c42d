//! Properties that relate the builder, the compiled tables and the queries.
use vstd::prelude::*;
use crate::json::{Json, text_of, none_text};
use crate::country::CountryDataView;
use crate::countries::{
    ZoneView, currency_of, has_name, key_capital, key_name, language_of, optional_field,
    record_of, records_of,
};
use crate::time::{
    all_digits, decimal, digit_char, digits_value, is_digit, magnitude_text, offset_label,
};
use crate::tables::{
    Field, Group, Tables, countries_view, country_key, country_of, field_of, is_grouping, is_key,
    members,
};

verus! {

/// No two records share a name.
pub open spec fn names_distinct(rs: Seq<CountryDataView>) -> bool {
    forall|p: int, q: int| 0 <= p < q < rs.len() ==> #[trigger] rs[p].name != #[trigger] rs[q].name
}

/// Whether entry `e` has a `name` member whose text is `n`.
pub open spec fn entry_named(e: Json, n: Seq<char>) -> bool {
    match e.member(key_name()) {
        Some(m) => text_of(m) == n,
        None => false,
    }
}

proof fn lemma_records_prefix(es: Seq<Json>, zones: Seq<ZoneView>)
    requires
        es.len() > 0,
    ensures
        records_of(es.drop_last(), zones).len() <= records_of(es, zones).len(),
        forall|p: int|
            0 <= p < records_of(es.drop_last(), zones).len() ==> #[trigger] records_of(es, zones)[p]
                == records_of(es.drop_last(), zones)[p],
{
}

/// Every record comes from an entry with its name.
proof fn lemma_record_source(es: Seq<Json>, zones: Seq<ZoneView>, p: int)
    requires
        0 <= p < records_of(es, zones).len(),
    ensures
        exists|k: int| 0 <= k < es.len() && entry_named(#[trigger] es[k], records_of(es, zones)[p].name),
    decreases es.len(),
{
    let prev = records_of(es.drop_last(), zones);
    lemma_records_prefix(es, zones);
    if p < prev.len() {
        lemma_record_source(es.drop_last(), zones, p);
        let k = choose|k: int| 0 <= k < es.drop_last().len() && entry_named(#[trigger] es.drop_last()[k], prev[p].name);
        assert(es[k] == es.drop_last()[k]);
    } else {
        let k = es.len() - 1;
        assert(es[k] == es.last());
        assert(entry_named(es[k], records_of(es, zones)[p].name));
    }
}

/// The builder keeps each name once.
pub proof fn lemma_records_names_distinct(es: Seq<Json>, zones: Seq<ZoneView>)
    ensures
        names_distinct(records_of(es, zones)),
    decreases es.len(),
{
    if es.len() > 0 {
        lemma_records_names_distinct(es.drop_last(), zones);
        lemma_records_prefix(es, zones);
    }
}

/// Of the entries that share a name, the record kept is built from the first:
/// when entry `i` is named `n` and no earlier entry is, exactly one record is
/// named `n`, and it is the record of entry `i`.
pub proof fn lemma_first_entry_kept(es: Seq<Json>, zones: Seq<ZoneView>, i: int, n: Seq<char>)
    requires
        0 <= i < es.len(),
        entry_named(es[i], n),
        forall|k: int| 0 <= k < i ==> !entry_named(#[trigger] es[k], n),
    ensures
        exists|p: int|
            0 <= p < records_of(es, zones).len() && #[trigger] records_of(es, zones)[p] == record_of(
                es[i],
                zones,
            ) && records_of(es, zones)[p].name == n && forall|q: int|
                0 <= q < records_of(es, zones).len() && q != p ==> #[trigger] records_of(es, zones)[q].name
                    != n,
    decreases es.len(),
{
    let rs = records_of(es, zones);
    let prev = records_of(es.drop_last(), zones);
    lemma_records_prefix(es, zones);
    lemma_records_names_distinct(es, zones);
    if i < es.len() - 1 {
        assert forall|k: int| 0 <= k < i implies !entry_named(#[trigger] es.drop_last()[k], n) by {
            assert(es.drop_last()[k] == es[k]);
        }
        assert(es.drop_last()[i] == es[i]);
        lemma_first_entry_kept(es.drop_last(), zones, i, n);
        let p = choose|p: int|
            0 <= p < prev.len() && #[trigger] prev[p] == record_of(es.drop_last()[i], zones)
                && prev[p].name == n && forall|q: int|
                0 <= q < prev.len() && q != p ==> #[trigger] prev[q].name != n;
        assert(rs[p] == prev[p]);
    } else {
        assert(es.last() == es[i]);
        if has_name(prev, n) {
            let q = choose|q: int| 0 <= q < prev.len() && #[trigger] prev[q].name == n;
            lemma_record_source(es.drop_last(), zones, q);
            let k = choose|k: int| 0 <= k < es.drop_last().len() && entry_named(#[trigger] es.drop_last()[k], prev[q].name);
            assert(es.drop_last()[k] == es[k]);
            assert(false);
        }
        let p = prev.len() as int;
        assert(rs[p] == record_of(es[i], zones));
        assert(rs[p].name == n);
    }
}

proof fn lemma_member_source(rs: Seq<CountryDataView>, f: Field, k: Seq<char>, j: int)
    requires
        0 <= j < members(rs, f, k).len(),
    ensures
        exists|p: int|
            0 <= p < rs.len() && field_of(#[trigger] rs[p], f) == k && members(rs, f, k)[j] == country_of(rs[p]),
    decreases rs.len(),
{
    let prev = members(rs.drop_last(), f, k);
    if j < prev.len() {
        lemma_member_source(rs.drop_last(), f, k, j);
        let p = choose|p: int|
            0 <= p < rs.drop_last().len() && field_of(#[trigger] rs.drop_last()[p], f) == k
                && prev[j] == country_of(rs.drop_last()[p]);
        assert(rs[p] == rs.drop_last()[p]);
    } else {
        assert(rs[rs.len() - 1] == rs.last());
    }
}

proof fn lemma_member_once(rs: Seq<CountryDataView>, f: Field, k: Seq<char>, p: int)
    requires
        names_distinct(rs),
        0 <= p < rs.len(),
        field_of(rs[p], f) == k,
    ensures
        exists|j: int|
            0 <= j < members(rs, f, k).len() && #[trigger] members(rs, f, k)[j] == country_of(rs[p])
                && forall|q: int|
                0 <= q < members(rs, f, k).len() && q != j ==> #[trigger] members(rs, f, k)[q].name
                    != rs[p].name,
    decreases rs.len(),
{
    let ms = members(rs, f, k);
    let init = rs.drop_last();
    let prev = members(init, f, k);
    assert(names_distinct(init)) by {
        assert forall|a: int, b: int| 0 <= a < b < init.len() implies #[trigger] init[a].name != #[trigger] init[b].name by {
            assert(init[a] == rs[a]);
            assert(init[b] == rs[b]);
        }
    }
    if p < rs.len() - 1 {
        assert(init[p] == rs[p]);
        lemma_member_once(init, f, k, p);
        let j = choose|j: int|
            0 <= j < prev.len() && #[trigger] prev[j] == country_of(rs[p]) && forall|q: int|
                0 <= q < prev.len() && q != j ==> #[trigger] prev[q].name != rs[p].name;
        assert(ms[j] == prev[j]);
        assert forall|q: int| 0 <= q < ms.len() && q != j implies #[trigger] ms[q].name != rs[p].name by {
            if q < prev.len() {
                assert(ms[q] == prev[q]);
            } else {
                assert(ms[q] == country_of(rs.last()));
                assert(rs.last() == rs[rs.len() - 1]);
            }
        }
    } else {
        assert(rs.last() == rs[p]);
        let j = prev.len() as int;
        assert(ms[j] == country_of(rs[p]));
        assert forall|q: int| 0 <= q < ms.len() && q != j implies #[trigger] ms[q].name != rs[p].name by {
            assert(ms[q] == prev[q]);
            lemma_member_source(init, f, k, q);
            let a = choose|a: int|
                0 <= a < init.len() && field_of(#[trigger] init[a], f) == k && prev[q] == country_of(init[a]);
            assert(init[a] == rs[a]);
        }
    }
}

/// A grouping table is exact: every country listed under a key has that key,
/// and each record whose field is a listed key appears exactly once, under
/// exactly one key.
pub proof fn lemma_grouping_exact(gs: Seq<Group>, rs: Seq<CountryDataView>, f: Field)
    requires
        is_grouping(gs, rs, f),
        names_distinct(rs),
    ensures
        forall|i: int, j: int|
            0 <= i < gs.len() && 0 <= j < gs[i].countries@.len() ==> country_key(
                #[trigger] gs[i].countries@[j]@,
                f,
            ) == Some(gs[i].key@),
        forall|p: int|
            0 <= p < rs.len() && is_key(f, #[trigger] field_of(rs[p], f)) ==> exists|i: int, j: int|
                0 <= i < gs.len() && 0 <= j < gs[i].countries@.len() && gs[i].key@ == field_of(rs[p], f)
                    && #[trigger] gs[i].countries@[j]@ == country_of(rs[p]) && (forall|i2: int|
                    0 <= i2 < gs.len() && i2 != i ==> #[trigger] gs[i2].key@ != field_of(rs[p], f))
                    && (forall|j2: int|
                    0 <= j2 < gs[i].countries@.len() && j2 != j ==> #[trigger] gs[i].countries@[j2]@.name
                        != rs[p].name),
{
    assert forall|i: int, j: int|
        0 <= i < gs.len() && 0 <= j < gs[i].countries@.len() implies country_key(
            #[trigger] gs[i].countries@[j]@,
            f,
        ) == Some(gs[i].key@) by {
        let k = gs[i].key@;
        assert(countries_view(gs[i].countries@)[j] == gs[i].countries@[j]@);
        lemma_member_source(rs, f, k, j);
    }
    assert forall|p: int|
        0 <= p < rs.len() && is_key(f, #[trigger] field_of(rs[p], f)) implies exists|i: int, j: int|
            0 <= i < gs.len() && 0 <= j < gs[i].countries@.len() && gs[i].key@ == field_of(rs[p], f)
                && #[trigger] gs[i].countries@[j]@ == country_of(rs[p]) && (forall|i2: int|
                0 <= i2 < gs.len() && i2 != i ==> #[trigger] gs[i2].key@ != field_of(rs[p], f))
                && (forall|j2: int|
                0 <= j2 < gs[i].countries@.len() && j2 != j ==> #[trigger] gs[i].countries@[j2]@.name
                    != rs[p].name) by {
        let k = field_of(rs[p], f);
        let i = choose|i: int| 0 <= i < gs.len() && #[trigger] gs[i].key@ == k;
        let cs = countries_view(gs[i].countries@);
        lemma_member_once(rs, f, k, p);
        let j = choose|j: int|
            0 <= j < members(rs, f, k).len() && #[trigger] members(rs, f, k)[j] == country_of(rs[p])
                && forall|q: int|
                0 <= q < members(rs, f, k).len() && q != j ==> #[trigger] members(rs, f, k)[q].name
                    != rs[p].name;
        assert(cs[j] == gs[i].countries@[j]@);
        assert forall|j2: int|
            0 <= j2 < gs[i].countries@.len() && j2 != j implies #[trigger] gs[i].countries@[j2]@.name
                != rs[p].name by {
            assert(cs[j2] == gs[i].countries@[j2]@);
        }
        assert forall|i2: int| 0 <= i2 < gs.len() && i2 != i implies #[trigger] gs[i2].key@ != k by {
            if i2 < i {
                assert(gs[i2].key@ != gs[i].key@);
            } else {
                assert(gs[i].key@ != gs[i2].key@);
            }
        }
    }
}

/// The name table holds, at the place of each record, that record's country,
/// and no other entry carries its name.
pub proof fn lemma_name_table_exact(t: Tables, rs: Seq<CountryDataView>, p: int, i: int)
    requires
        t.compiled_from(rs),
        names_distinct(rs),
        0 <= p < rs.len(),
        0 <= i < t.names@.len(),
        t.names@[i].name@ == rs[p].name,
    ensures
        i == p,
        t.names@[i]@ == country_of(rs[p]),
{
    let cv = countries_view(t.names@);
    assert(cv.len() == t.names@.len());
    assert(cv.len() == rs.len());
    assert(cv[i] == t.names@[i]@);
    assert(cv[p] == t.names@[p]@);
    assert(cv[i] == country_of(rs[i]));
    assert(cv[p] == country_of(rs[p]));
    if i != p {
        if i < p {
            assert(rs[i].name != rs[p].name);
        } else {
            assert(rs[p].name != rs[i].name);
        }
    }
}

/// An entry without a `capital` member gets the sentinel as its capital, and
/// its country is listed in no capital group.
pub proof fn lemma_absent_capital(e: Json, zones: Seq<ZoneView>, t: Tables, rs: Seq<CountryDataView>)
    requires
        e.member(key_capital()) is None,
        t.compiled_from(rs),
    ensures
        record_of(e, zones).capital == none_text(),
        forall|i: int, j: int|
            0 <= i < t.capitals@.len() && 0 <= j < t.capitals@[i].countries@.len()
                ==> #[trigger] t.capitals@[i].countries@[j]@ != country_of(record_of(e, zones)),
{
    assert forall|i: int, j: int|
        0 <= i < t.capitals@.len() && 0 <= j < t.capitals@[i].countries@.len()
            implies #[trigger] t.capitals@[i].countries@[j]@ != country_of(record_of(e, zones)) by {
        let k = t.capitals@[i].key@;
        assert(countries_view(t.capitals@[i].countries@)[j] == t.capitals@[i].countries@[j]@);
        lemma_member_source(rs, Field::Capital, k, j);
        assert(is_key(Field::Capital, k));
    }
}

/// A `null` optional field reads as a missing one: two objects that differ
/// only in that one holds `null` under a key the other lacks describe the same
/// currency and the same language.
pub proof fn lemma_null_same_as_missing(a: Json, b: Json, key: Seq<char>)
    requires
        a is Object,
        b is Object,
        a.member(key) == Some(Json::Null),
        b.member(key) is None,
        forall|k: Seq<char>| k != key ==> #[trigger] a.member(k) == b.member(k),
    ensures
        optional_field(Some(Json::Null)) == optional_field(None),
        currency_of(a) == currency_of(b),
        language_of(a) == language_of(b),
{
}

proof fn lemma_digit_char(d: nat)
    requires
        d < 10,
    ensures
        is_digit(digit_char(d)),
        ((digit_char(d) as nat) - ('0' as nat)) as nat == d,
{
}

proof fn lemma_decimal_digits(n: nat)
    ensures
        decimal(n).len() >= 1,
        all_digits(decimal(n)),
        digits_value(decimal(n)) == n,
    decreases n,
{
    lemma_digit_char(n % 10);
    if n < 10 {
        lemma_digit_char(n);
        let d = decimal(n);
        assert(d.drop_last() =~= Seq::<char>::empty());
        assert(digits_value(d.drop_last()) == 0);
        assert(d.last() == digit_char(n));
        assert(is_digit(d[0]));
    } else {
        lemma_decimal_digits(n / 10);
        let d = decimal(n);
        assert(d.drop_last() =~= decimal(n / 10));
        assert(d.last() == digit_char(n % 10));
        assert(digits_value(d) == digits_value(decimal(n / 10)) * 10 + n % 10);
        assert((n / 10) * 10 + n % 10 == n) by (nonlinear_arith);
        assert forall|i: int| 0 <= i < d.len() implies #[trigger] is_digit(d[i]) by {
            if i < d.len() - 1 {
                assert(d[i] == decimal(n / 10)[i]);
            }
        }
    }
}

/// The text of a whole number of seconds: its decimal digits, after a minus
/// sign when it is negative.
pub open spec fn seconds_text(negative: bool, n: nat) -> Seq<char> {
    if negative {
        seq!['-'] + decimal(n)
    } else {
        decimal(n)
    }
}

/// An offset whose leftover after whole hours is under a minute (a whole
/// number of hours in particular) is labelled with its hours and minutes
/// `00`, never a lone `0`: `UTC+1:00` for 3600, `UTC-5:00` for -18000.
pub proof fn lemma_whole_hours_label(negative: bool, n: nat)
    requires
        n <= u64::MAX,
        (n % 3600) / 60 == 0,
    ensures
        offset_label(seconds_text(negative, n)) == seq!['U', 'T', 'C', if negative { '-' } else { '+' }]
            + decimal(n / 3600) + seq![':', '0', '0'],
{
    lemma_decimal_digits(n);
    let s = seconds_text(negative, n);
    assert(!is_digit('-'));
    if negative {
        assert(s.drop_first() =~= decimal(n));
    } else {
        assert(is_digit(s[0]));
    }
    assert(magnitude_text(s) == decimal(n));
}

/// Every key of a grouping table is the field value of some record, and its
/// group is not empty.
pub proof fn lemma_group_keys_from_records(gs: Seq<Group>, rs: Seq<CountryDataView>, f: Field, i: int)
    requires
        is_grouping(gs, rs, f),
        0 <= i < gs.len(),
    ensures
        gs[i].countries@.len() > 0,
        exists|p: int| 0 <= p < rs.len() && #[trigger] field_of(rs[p], f) == gs[i].key@,
{
    let k = gs[i].key@;
    assert(countries_view(gs[i].countries@).len() == gs[i].countries@.len());
    lemma_member_source(rs, f, k, 0);
}

/// Tables compiled from no records are all empty; this is what a country
/// document that is not an array gives.
pub proof fn lemma_no_records_empty_tables(t: Tables)
    requires
        t.compiled_from(Seq::empty()),
    ensures
        t.names@.len() == 0,
        t.capitals@.len() == 0,
        t.regions@.len() == 0,
        t.alpha_2@.len() == 0,
        t.alpha_3@.len() == 0,
{
    let rs = Seq::<CountryDataView>::empty();
    assert(countries_view(t.names@).len() == t.names@.len());
    if t.capitals@.len() > 0 {
        lemma_group_keys_from_records(t.capitals@, rs, Field::Capital, 0);
    }
    if t.regions@.len() > 0 {
        lemma_group_keys_from_records(t.regions@, rs, Field::Region, 0);
    }
    if t.alpha_2@.len() > 0 {
        lemma_group_keys_from_records(t.alpha_2@, rs, Field::Alpha2, 0);
    }
    if t.alpha_3@.len() > 0 {
        lemma_group_keys_from_records(t.alpha_3@, rs, Field::Alpha3, 0);
    }
}

} // verus!
