//! Country, currency and language records, with their mathematical views.
use vstd::prelude::*;

verus! {

pub open spec fn opt_view(o: Option<String>) -> Option<Seq<char>> {
    match o {
        Some(s) => Some(s@),
        None => None,
    }
}

pub open spec fn strs_view(v: Seq<String>) -> Seq<Seq<char>> {
    v.map_values(|s: String| s@)
}

pub open spec fn currencies_view(v: Seq<Currency>) -> Seq<CurrencyView> {
    v.map_values(|c: Currency| c@)
}

pub open spec fn languages_view(v: Seq<Language>) -> Seq<LanguageView> {
    v.map_values(|l: Language| l@)
}

fn copy_opt(o: &Option<String>) -> (r: Option<String>)
    ensures
        opt_view(r) == opt_view(*o),
{
    match o {
        Some(s) => Some(s.clone()),
        None => None,
    }
}

pub fn copy_strings(v: &Vec<String>) -> (r: Vec<String>)
    ensures
        strs_view(r@) == strs_view(v@),
{
    let r = v.clone();
    assert(r@ =~= v@);
    r
}

/// A currency with its ISO 4217 code.
#[derive(Debug, Clone, Default)]
pub struct Currency {
    /// ISO 4217 currency code
    pub code: Option<String>,
    /// Name of the currency in English
    pub name: Option<String>,
    /// Symbol of the currency
    pub symbol: Option<String>,
}

pub struct CurrencyView {
    pub code: Option<Seq<char>>,
    pub name: Option<Seq<char>>,
    pub symbol: Option<Seq<char>>,
}

impl View for Currency {
    type V = CurrencyView;

    open spec fn view(&self) -> CurrencyView {
        CurrencyView { code: opt_view(self.code), name: opt_view(self.name), symbol: opt_view(self.symbol) }
    }
}

impl Currency {
    /// A field-for-field copy.
    pub fn duplicate(&self) -> (r: Currency)
        ensures
            r@ == self@,
    {
        Currency { code: copy_opt(&self.code), name: copy_opt(&self.name), symbol: copy_opt(&self.symbol) }
    }
}

/// A language with its ISO 639-1 and ISO 639-2 codes.
#[derive(Debug, Clone, Default)]
pub struct Language {
    /// ISO 639-1 language code
    pub iso639_1: Option<String>,
    /// ISO 639-2 language code
    pub iso639_2: Option<String>,
    /// Name of the language in English
    pub name: Option<String>,
    /// Name of the language in the language itself
    pub native_name: Option<String>,
}

pub struct LanguageView {
    pub iso639_1: Option<Seq<char>>,
    pub iso639_2: Option<Seq<char>>,
    pub name: Option<Seq<char>>,
    pub native_name: Option<Seq<char>>,
}

impl View for Language {
    type V = LanguageView;

    open spec fn view(&self) -> LanguageView {
        LanguageView {
            iso639_1: opt_view(self.iso639_1),
            iso639_2: opt_view(self.iso639_2),
            name: opt_view(self.name),
            native_name: opt_view(self.native_name),
        }
    }
}

impl Language {
    /// A field-for-field copy.
    pub fn duplicate(&self) -> (r: Language)
        ensures
            r@ == self@,
    {
        Language {
            iso639_1: copy_opt(&self.iso639_1),
            iso639_2: copy_opt(&self.iso639_2),
            name: copy_opt(&self.name),
            native_name: copy_opt(&self.native_name),
        }
    }
}

pub fn copy_currencies(v: &Vec<Currency>) -> (r: Vec<Currency>)
    ensures
        currencies_view(r@) == currencies_view(v@),
{
    let mut r: Vec<Currency> = Vec::new();
    let mut i: usize = 0;
    while i < v.len()
        invariant
            i <= v@.len(),
            r@.len() == i,
            forall|k: int| 0 <= k < i ==> #[trigger] r@[k]@ == v@[k]@,
        decreases v@.len() - i,
    {
        r.push(v[i].duplicate());
        i = i + 1;
    }
    assert(currencies_view(r@) =~= currencies_view(v@));
    r
}

pub fn copy_languages(v: &Vec<Language>) -> (r: Vec<Language>)
    ensures
        languages_view(r@) == languages_view(v@),
{
    let mut r: Vec<Language> = Vec::new();
    let mut i: usize = 0;
    while i < v.len()
        invariant
            i <= v@.len(),
            r@.len() == i,
            forall|k: int| 0 <= k < i ==> #[trigger] r@[k]@ == v@[k]@,
        decreases v@.len() - i,
    {
        r.push(v[i].duplicate());
        i = i + 1;
    }
    assert(languages_view(r@) =~= languages_view(v@));
    r
}

/// A country as the lookup tables serve it.
#[derive(Debug, Clone)]
pub struct Country {
    /// Name of the country, eg. "United States".
    pub name: String,
    /// Name of the country's capital, eg. "Washington, DC".
    pub capital: Option<String>,
    /// Region of the country
    pub region: Option<String>,
    /// ISO 3166-1 2-letter country code
    pub alpha_2: String,
    /// ISO 3166-1 3-letter country code
    pub alpha_3: String,
    /// UTC offsets of the country's timezones, eg. `UTC+5:30`
    pub timezones: Vec<String>,
    /// Currencies used in the country
    pub currencies: Vec<Currency>,
    /// Languages used in the country
    pub languages: Vec<Language>,
    /// Dialling codes used in the country
    pub call_codes: Vec<String>,
}

pub struct CountryView {
    pub name: Seq<char>,
    pub capital: Option<Seq<char>>,
    pub region: Option<Seq<char>>,
    pub alpha_2: Seq<char>,
    pub alpha_3: Seq<char>,
    pub timezones: Seq<Seq<char>>,
    pub currencies: Seq<CurrencyView>,
    pub languages: Seq<LanguageView>,
    pub call_codes: Seq<Seq<char>>,
}

impl View for Country {
    type V = CountryView;

    open spec fn view(&self) -> CountryView {
        CountryView {
            name: self.name@,
            capital: opt_view(self.capital),
            region: opt_view(self.region),
            alpha_2: self.alpha_2@,
            alpha_3: self.alpha_3@,
            timezones: strs_view(self.timezones@),
            currencies: currencies_view(self.currencies@),
            languages: languages_view(self.languages@),
            call_codes: strs_view(self.call_codes@),
        }
    }
}

/// A country record as built from one feed entry: every scalar field holds
/// text, `None` where the entry did not supply it.
#[derive(Debug)]
pub struct CountryData {
    pub name: String,
    pub capital: String,
    pub region: String,
    pub alpha_2: String,
    pub alpha_3: String,
    pub timezones: Vec<String>,
    pub currencies: Vec<Currency>,
    pub languages: Vec<Language>,
    pub call_codes: Vec<String>,
}

pub struct CountryDataView {
    pub name: Seq<char>,
    pub capital: Seq<char>,
    pub region: Seq<char>,
    pub alpha_2: Seq<char>,
    pub alpha_3: Seq<char>,
    pub timezones: Seq<Seq<char>>,
    pub currencies: Seq<CurrencyView>,
    pub languages: Seq<LanguageView>,
    pub call_codes: Seq<Seq<char>>,
}

impl View for CountryData {
    type V = CountryDataView;

    open spec fn view(&self) -> CountryDataView {
        CountryDataView {
            name: self.name@,
            capital: self.capital@,
            region: self.region@,
            alpha_2: self.alpha_2@,
            alpha_3: self.alpha_3@,
            timezones: strs_view(self.timezones@),
            currencies: currencies_view(self.currencies@),
            languages: languages_view(self.languages@),
            call_codes: strs_view(self.call_codes@),
        }
    }
}

/// The record with every field empty.
pub open spec fn empty_record() -> CountryDataView {
    CountryDataView {
        name: Seq::empty(),
        capital: Seq::empty(),
        region: Seq::empty(),
        alpha_2: Seq::empty(),
        alpha_3: Seq::empty(),
        timezones: Seq::empty(),
        currencies: Seq::empty(),
        languages: Seq::empty(),
        call_codes: Seq::empty(),
    }
}

impl CountryData {
    /// A builder with every field empty.
    pub fn builder() -> (r: CountryDataBuilder)
        ensures
            r.fields() == empty_record(),
    {
        CountryDataBuilder::default()
    }
}

/// Assembles a `CountryData` field by field.
#[derive(Debug)]
pub struct CountryDataBuilder {
    name: String,
    capital: String,
    region: String,
    alpha_2: String,
    alpha_3: String,
    timezones: Vec<String>,
    currencies: Vec<Currency>,
    languages: Vec<Language>,
    call_codes: Vec<String>,
}

impl Default for CountryDataBuilder {
    fn default() -> (r: Self)
        ensures
            r.fields() == empty_record(),
    {
        let r = CountryDataBuilder {
            name: String::new(),
            capital: String::new(),
            region: String::new(),
            alpha_2: String::new(),
            alpha_3: String::new(),
            timezones: Vec::new(),
            currencies: Vec::new(),
            languages: Vec::new(),
            call_codes: Vec::new(),
        };
        assert(strs_view(r.timezones@) =~= Seq::empty());
        assert(strs_view(r.call_codes@) =~= Seq::empty());
        assert(currencies_view(r.currencies@) =~= Seq::empty());
        assert(languages_view(r.languages@) =~= Seq::empty());
        r
    }
}

impl CountryDataBuilder {
    /// The record the builder holds so far.
    pub closed spec fn fields(self) -> CountryDataView {
        CountryDataView {
            name: self.name@,
            capital: self.capital@,
            region: self.region@,
            alpha_2: self.alpha_2@,
            alpha_3: self.alpha_3@,
            timezones: strs_view(self.timezones@),
            currencies: currencies_view(self.currencies@),
            languages: languages_view(self.languages@),
            call_codes: strs_view(self.call_codes@),
        }
    }

    pub fn name(self, name: String) -> (r: Self)
        ensures
            r.fields() == (CountryDataView { name: name@, ..self.fields() }),
    {
        let mut b = self;
        b.name = name;
        b
    }

    pub fn capital(self, capital: String) -> (r: Self)
        ensures
            r.fields() == (CountryDataView { capital: capital@, ..self.fields() }),
    {
        let mut b = self;
        b.capital = capital;
        b
    }

    pub fn region(self, region: String) -> (r: Self)
        ensures
            r.fields() == (CountryDataView { region: region@, ..self.fields() }),
    {
        let mut b = self;
        b.region = region;
        b
    }

    pub fn alpha_2(self, alpha_2: String) -> (r: Self)
        ensures
            r.fields() == (CountryDataView { alpha_2: alpha_2@, ..self.fields() }),
    {
        let mut b = self;
        b.alpha_2 = alpha_2;
        b
    }

    pub fn alpha_3(self, alpha_3: String) -> (r: Self)
        ensures
            r.fields() == (CountryDataView { alpha_3: alpha_3@, ..self.fields() }),
    {
        let mut b = self;
        b.alpha_3 = alpha_3;
        b
    }

    pub fn timezones(self, timezones: Vec<String>) -> (r: Self)
        ensures
            r.fields() == (CountryDataView { timezones: strs_view(timezones@), ..self.fields() }),
    {
        let mut b = self;
        b.timezones = timezones;
        b
    }

    pub fn currencies(self, currencies: Vec<Currency>) -> (r: Self)
        ensures
            r.fields() == (CountryDataView { currencies: currencies_view(currencies@), ..self.fields() }),
    {
        let mut b = self;
        b.currencies = currencies;
        b
    }

    pub fn languages(self, languages: Vec<Language>) -> (r: Self)
        ensures
            r.fields() == (CountryDataView { languages: languages_view(languages@), ..self.fields() }),
    {
        let mut b = self;
        b.languages = languages;
        b
    }

    pub fn call_codes(self, call_codes: Vec<String>) -> (r: Self)
        ensures
            r.fields() == (CountryDataView { call_codes: strs_view(call_codes@), ..self.fields() }),
    {
        let mut b = self;
        b.call_codes = call_codes;
        b
    }

    pub fn build(self) -> (r: CountryData)
        ensures
            r@ == self.fields(),
    {
        CountryData {
            name: self.name,
            capital: self.capital,
            region: self.region,
            alpha_2: self.alpha_2,
            alpha_3: self.alpha_3,
            timezones: self.timezones,
            currencies: self.currencies,
            languages: self.languages,
            call_codes: self.call_codes,
        }
    }
}

} // verus!
