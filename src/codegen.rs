//! Rendering countries as Rust source literals.
use vstd::prelude::*;
use crate::country::{
    Country, CountryView, Currency, CurrencyView, Language, LanguageView, currencies_view,
    languages_view, opt_view, strs_view,
};

verus! {

/// A character as written inside a string literal.
pub open spec fn esc_char(c: char) -> Seq<char> {
    if c == '"' {
        seq!['\\', '"']
    } else if c == '\\' {
        seq!['\\', '\\']
    } else {
        seq![c]
    }
}

pub open spec fn escaped(s: Seq<char>) -> Seq<char>
    decreases s.len(),
{
    if s.len() == 0 {
        Seq::empty()
    } else {
        escaped(s.drop_last()) + esc_char(s.last())
    }
}

/// The string literal that denotes `s`.
pub open spec fn str_lit(s: Seq<char>) -> Seq<char> {
    seq!['"'] + escaped(s) + seq!['"']
}

/// The text of an optional value: the value itself, or `None`.
pub open spec fn option_text(o: Option<Seq<char>>) -> Seq<char> {
    match o {
        Some(s) => s,
        None => "None"@,
    }
}

pub open spec fn option_lit(o: Option<Seq<char>>) -> Seq<char> {
    match o {
        Some(s) => "Some("@ + str_lit(s) + ")"@,
        None => "None"@,
    }
}

/// The items separated by commas.
pub open spec fn joined(items: Seq<Seq<char>>) -> Seq<char>
    decreases items.len(),
{
    if items.len() == 0 {
        Seq::empty()
    } else if items.len() == 1 {
        items[0]
    } else {
        joined(items.drop_last()) + ","@ + items.last()
    }
}

/// A slice literal of the items.
pub open spec fn slice_lit(items: Seq<Seq<char>>) -> Seq<char> {
    "&["@ + joined(items) + "]"@
}

pub open spec fn currency_lit(c: CurrencyView) -> Seq<char> {
    "Currency {name: "@ + option_lit(c.name) + ",code: "@ + option_lit(c.code) + ",symbol: "@
        + option_lit(c.symbol) + ",}"@
}

pub open spec fn language_lit(l: LanguageView) -> Seq<char> {
    "Language {iso639_1: "@ + option_lit(l.iso639_1) + ",iso639_2: "@ + option_lit(l.iso639_2)
        + ",name: "@ + option_lit(l.name) + ",native_name: "@ + option_lit(l.native_name) + ",}"@
}

pub open spec fn str_lits(v: Seq<Seq<char>>) -> Seq<Seq<char>> {
    v.map_values(|s: Seq<char>| str_lit(s))
}

pub open spec fn country_lit(c: CountryView) -> Seq<char> {
    "Country {name: "@ + str_lit(c.name) + ",capital: "@ + option_lit(c.capital) + ",region: "@
        + option_lit(c.region) + ",alpha_2: "@ + str_lit(c.alpha_2) + ",alpha_3: "@ + str_lit(
        c.alpha_3,
    ) + ",timezones: "@ + slice_lit(str_lits(c.timezones)) + ",currencies: "@ + slice_lit(
        c.currencies.map_values(|x: CurrencyView| currency_lit(x)),
    ) + ",languages: "@ + slice_lit(c.languages.map_values(|x: LanguageView| language_lit(x)))
        + ",call_codes: "@ + slice_lit(str_lits(c.call_codes)) + ",}"@
}

/// Appends `s` to `out` as it is written inside a string literal.
fn push_escaped(out: &mut String, s: &str)
    ensures
        final(out)@ == old(out)@ + escaped(s@),
{
    let len = s.unicode_len();
    let mut i: usize = 0;
    assert(s@.subrange(0, 0) =~= Seq::<char>::empty());
    assert(old(out)@ + escaped(Seq::<char>::empty()) =~= old(out)@);
    while i < len
        invariant
            i <= len,
            len == s@.len(),
            out@ == old(out)@ + escaped(s@.subrange(0, i as int)),
        decreases len - i,
    {
        let c = s.get_char(i);
        assert(s@.subrange(0, i + 1).drop_last() =~= s@.subrange(0, i as int));
        assert(s@.subrange(0, i + 1).last() == c);
        if c == '"' {
            out.append("\\\"");
            proof {
                reveal_strlit("\\\"");
            }
            assert("\\\""@ =~= esc_char(c));
        } else if c == '\\' {
            out.append("\\\\");
            proof {
                reveal_strlit("\\\\");
            }
            assert("\\\\"@ =~= esc_char(c));
        } else {
            let one = s.substring_char(i, i + 1);
            out.append(one);
            assert(one@ =~= esc_char(c));
        }
        assert(out@ =~= old(out)@ + escaped(s@.subrange(0, i + 1)));
        i = i + 1;
    }
    assert(s@.subrange(0, i as int) =~= s@);
}

/// The string literal that denotes `s`.
pub fn string_literal(s: &str) -> (r: String)
    ensures
        r@ == str_lit(s@),
{
    proof {
        reveal_strlit("\"");
    }
    let mut r = String::from_str("\"");
    push_escaped(&mut r, s);
    r.append("\"");
    assert(r@ =~= str_lit(s@));
    r
}

/// The text of an optional string: the string itself when present, `None`
/// when absent.
pub fn option_to_string(option: &Option<String>) -> (r: String)
    ensures
        r@ == option_text(opt_view(*option)),
{
    match option {
        Some(x) => x.clone(),
        None => String::from_str("None"),
    }
}

/// The literal of an optional string: `Some("..")` or `None`.
pub fn option_literal(option: &Option<String>) -> (r: String)
    ensures
        r@ == option_lit(opt_view(*option)),
{
    match option {
        Some(x) => {
            let mut r = String::from_str("Some(");
            let lit = string_literal(x.as_str());
            r.append(lit.as_str());
            r.append(")");
            assert(r@ =~= option_lit(opt_view(*option)));
            r
        },
        None => String::from_str("None"),
    }
}

/// A slice literal of the items, which are already literals.
pub fn vec_to_string(items: &Vec<String>) -> (r: String)
    ensures
        r@ == slice_lit(strs_view(items@)),
{
    let ghost v = strs_view(items@);
    let mut body = String::new();
    let mut i: usize = 0;
    assert(v.subrange(0, 0) =~= Seq::<Seq<char>>::empty());
    while i < items.len()
        invariant
            i <= items@.len(),
            v == strs_view(items@),
            body@ == joined(v.subrange(0, i as int)),
        decreases items@.len() - i,
    {
        assert(v.subrange(0, i + 1).drop_last() =~= v.subrange(0, i as int));
        assert(v.subrange(0, i + 1).last() == items@[i as int]@);
        if i > 0 {
            body.append(",");
        } else {
            assert(v.subrange(0, 1)[0] == items@[0]@);
            assert(body@ =~= Seq::<char>::empty());
        }
        body.append(items[i].as_str());
        assert(body@ =~= joined(v.subrange(0, i + 1)));
        i = i + 1;
    }
    assert(v.subrange(0, i as int) =~= v);
    let mut r = String::from_str("&[");
    r.append(body.as_str());
    r.append("]");
    assert(r@ =~= slice_lit(v));
    r
}

/// The struct literal of a currency.
pub fn currency_struct(c: &Currency) -> (r: String)
    ensures
        r@ == currency_lit(c@),
{
    let mut r = String::from_str("Currency {name: ");
    r.append(option_literal(&c.name).as_str());
    r.append(",code: ");
    r.append(option_literal(&c.code).as_str());
    r.append(",symbol: ");
    r.append(option_literal(&c.symbol).as_str());
    r.append(",}");
    assert(r@ =~= currency_lit(c@));
    r
}

/// The struct literal of a language.
pub fn language_struct(l: &Language) -> (r: String)
    ensures
        r@ == language_lit(l@),
{
    let mut r = String::from_str("Language {iso639_1: ");
    r.append(option_literal(&l.iso639_1).as_str());
    r.append(",iso639_2: ");
    r.append(option_literal(&l.iso639_2).as_str());
    r.append(",name: ");
    r.append(option_literal(&l.name).as_str());
    r.append(",native_name: ");
    r.append(option_literal(&l.native_name).as_str());
    r.append(",}");
    assert(r@ =~= language_lit(l@));
    r
}

fn string_literals(v: &Vec<String>) -> (r: Vec<String>)
    ensures
        strs_view(r@) == str_lits(strs_view(v@)),
{
    let mut r: Vec<String> = Vec::new();
    let mut i: usize = 0;
    while i < v.len()
        invariant
            i <= v@.len(),
            r@.len() == i,
            forall|k: int| 0 <= k < i ==> #[trigger] r@[k]@ == str_lit(v@[k]@),
        decreases v@.len() - i,
    {
        r.push(string_literal(v[i].as_str()));
        i = i + 1;
    }
    assert(strs_view(r@) =~= str_lits(strs_view(v@)));
    r
}

fn currency_literals(v: &Vec<Currency>) -> (r: Vec<String>)
    ensures
        strs_view(r@) == currencies_view(v@).map_values(|x: CurrencyView| currency_lit(x)),
{
    let mut r: Vec<String> = Vec::new();
    let mut i: usize = 0;
    while i < v.len()
        invariant
            i <= v@.len(),
            r@.len() == i,
            forall|k: int| 0 <= k < i ==> #[trigger] r@[k]@ == currency_lit(v@[k]@),
        decreases v@.len() - i,
    {
        r.push(currency_struct(&v[i]));
        i = i + 1;
    }
    assert(strs_view(r@) =~= currencies_view(v@).map_values(|x: CurrencyView| currency_lit(x)));
    r
}

fn language_literals(v: &Vec<Language>) -> (r: Vec<String>)
    ensures
        strs_view(r@) == languages_view(v@).map_values(|x: LanguageView| language_lit(x)),
{
    let mut r: Vec<String> = Vec::new();
    let mut i: usize = 0;
    while i < v.len()
        invariant
            i <= v@.len(),
            r@.len() == i,
            forall|k: int| 0 <= k < i ==> #[trigger] r@[k]@ == language_lit(v@[k]@),
        decreases v@.len() - i,
    {
        r.push(language_struct(&v[i]));
        i = i + 1;
    }
    assert(strs_view(r@) =~= languages_view(v@).map_values(|x: LanguageView| language_lit(x)));
    r
}

/// The struct literal of a country.
pub fn country_struct(country: &Country) -> (r: String)
    ensures
        r@ == country_lit(country@),
{
    let timezones = vec_to_string(&string_literals(&country.timezones));
    let currencies = vec_to_string(&currency_literals(&country.currencies));
    let languages = vec_to_string(&language_literals(&country.languages));
    let call_codes = vec_to_string(&string_literals(&country.call_codes));
    let mut r = String::from_str("Country {name: ");
    r.append(string_literal(country.name.as_str()).as_str());
    r.append(",capital: ");
    r.append(option_literal(&country.capital).as_str());
    r.append(",region: ");
    r.append(option_literal(&country.region).as_str());
    r.append(",alpha_2: ");
    r.append(string_literal(country.alpha_2.as_str()).as_str());
    r.append(",alpha_3: ");
    r.append(string_literal(country.alpha_3.as_str()).as_str());
    r.append(",timezones: ");
    r.append(timezones.as_str());
    r.append(",currencies: ");
    r.append(currencies.as_str());
    r.append(",languages: ");
    r.append(languages.as_str());
    r.append(",call_codes: ");
    r.append(call_codes.as_str());
    r.append(",}");
    assert(r@ =~= country_lit(country@));
    r
}

} // verus!
