//! The country record and the records it is made of.
//!
//! Every type has a deep view: the same record with `String` read as
//! `Seq<char>` and `Vec` as `Seq`. Contracts speak of records by these views,
//! and `clone` keeps the view.

use vstd::prelude::*;

verus! {

/// A name in one language, in its short and its formal form.
#[derive(Debug, PartialEq, Eq)]
pub struct NativeName {
    pub common: String,
    pub official: String,
}

pub struct NativeNameView {
    pub common: Seq<char>,
    pub official: Seq<char>,
}

impl DeepView for NativeName {
    type V = NativeNameView;

    open spec fn deep_view(&self) -> NativeNameView {
        NativeNameView { common: self.common@, official: self.official@ }
    }
}

impl Clone for NativeName {
    fn clone(&self) -> (out: Self)
        ensures
            out.deep_view() == self.deep_view(),
    {
        NativeName { common: self.common.clone(), official: self.official.clone() }
    }
}

/// A copy of a list of strings.
fn clone_strings(list: &Vec<String>) -> (out: Vec<String>)
    ensures
        out.deep_view() == list.deep_view(),
{
    list.clone()
}

/// A copy of an optional string.
fn clone_optional_string(value: &Option<String>) -> (out: Option<String>)
    ensures
        out.deep_view() == value.deep_view(),
{
    match value {
        Some(s) => Some(s.clone()),
        None => None,
    }
}

/// A copy of a list of string pairs.
fn clone_string_entries(list: &Vec<(String, String)>) -> (out: Vec<(String, String)>)
    ensures
        out.deep_view() == list.deep_view(),
{
    let mut out: Vec<(String, String)> = Vec::new();
    let mut i: usize = 0;
    while i < list.len()
        invariant
            i <= list.len(),
            out.len() == i,
            forall|j: int| 0 <= j < i ==> (#[trigger] out@[j]).deep_view() == list@[j].deep_view(),
        decreases list.len() - i,
    {
        let entry = &list[i];
        out.push((entry.0.clone(), entry.1.clone()));
        i += 1;
    }
    out
}

/// A copy of a list of names keyed by language code.
fn clone_name_entries(list: &Vec<(String, NativeName)>) -> (out: Vec<(String, NativeName)>)
    ensures
        out.deep_view() == list.deep_view(),
{
    let mut out: Vec<(String, NativeName)> = Vec::new();
    let mut i: usize = 0;
    while i < list.len()
        invariant
            i <= list.len(),
            out.len() == i,
            forall|j: int| 0 <= j < i ==> (#[trigger] out@[j]).deep_view() == list@[j].deep_view(),
        decreases list.len() - i,
    {
        let entry = &list[i];
        out.push((entry.0.clone(), entry.1.clone()));
        i += 1;
    }
    out
}

/// The names of a country: the common and the official English name, and the
/// names in the country's own languages, one entry for each language code.
#[derive(Debug, PartialEq, Eq)]
pub struct Name {
    pub common: String,
    pub official: String,
    pub native_name: Vec<(String, NativeName)>,
}

pub struct NameView {
    pub common: Seq<char>,
    pub official: Seq<char>,
    pub native_name: Seq<(Seq<char>, NativeNameView)>,
}

impl DeepView for Name {
    type V = NameView;

    open spec fn deep_view(&self) -> NameView {
        NameView {
            common: self.common@,
            official: self.official@,
            native_name: self.native_name.deep_view(),
        }
    }
}

impl Clone for Name {
    fn clone(&self) -> (out: Self)
        ensures
            out.deep_view() == self.deep_view(),
    {
        Name {
            common: self.common.clone(),
            official: self.official.clone(),
            native_name: clone_name_entries(&self.native_name),
        }
    }
}

/// A currency: its display name and its symbol.
#[derive(Debug, PartialEq, Eq)]
pub struct Currency {
    pub name: String,
    pub symbol: String,
}

pub struct CurrencyView {
    pub name: Seq<char>,
    pub symbol: Seq<char>,
}

impl DeepView for Currency {
    type V = CurrencyView;

    open spec fn deep_view(&self) -> CurrencyView {
        CurrencyView { name: self.name@, symbol: self.symbol@ }
    }
}

impl Clone for Currency {
    fn clone(&self) -> (out: Self)
        ensures
            out.deep_view() == self.deep_view(),
    {
        Currency { name: self.name.clone(), symbol: self.symbol.clone() }
    }
}

/// A copy of a list of currencies keyed by currency code.
fn clone_currency_entries(list: &Vec<(String, Currency)>) -> (out: Vec<(String, Currency)>)
    ensures
        out.deep_view() == list.deep_view(),
{
    let mut out: Vec<(String, Currency)> = Vec::new();
    let mut i: usize = 0;
    while i < list.len()
        invariant
            i <= list.len(),
            out.len() == i,
            forall|j: int| 0 <= j < i ==> (#[trigger] out@[j]).deep_view() == list@[j].deep_view(),
        decreases list.len() - i,
    {
        let entry = &list[i];
        out.push((entry.0.clone(), entry.1.clone()));
        i += 1;
    }
    out
}

/// International direct dialing: a root such as `+1` and the suffixes that
/// follow it. Each full dialing code is the root followed by one suffix.
#[derive(Debug, PartialEq, Eq)]
pub struct Idd {
    pub root: String,
    pub suffixes: Vec<String>,
}

pub struct IddView {
    pub root: Seq<char>,
    pub suffixes: Seq<Seq<char>>,
}

impl DeepView for Idd {
    type V = IddView;

    open spec fn deep_view(&self) -> IddView {
        IddView { root: self.root@, suffixes: self.suffixes.deep_view() }
    }
}

impl Clone for Idd {
    fn clone(&self) -> (out: Self)
        ensures
            out.deep_view() == self.deep_view(),
    {
        Idd { root: self.root.clone(), suffixes: clone_strings(&self.suffixes) }
    }
}

/// Road traffic: the distinguishing signs of vehicles and the driving side.
#[derive(Debug, PartialEq, Eq)]
pub struct Car {
    pub signs: Vec<String>,
    pub side: String,
}

pub struct CarView {
    pub signs: Seq<Seq<char>>,
    pub side: Seq<char>,
}

impl DeepView for Car {
    type V = CarView;

    open spec fn deep_view(&self) -> CarView {
        CarView { signs: self.signs.deep_view(), side: self.side@ }
    }
}

impl Clone for Car {
    fn clone(&self) -> (out: Self)
        ensures
            out.deep_view() == self.deep_view(),
    {
        Car { signs: clone_strings(&self.signs), side: self.side.clone() }
    }
}

/// Where the capital lies. Latitude and longitude are kept as the bit
/// patterns of IEEE 754 doubles: the engine carries them and never computes
/// with them.
#[derive(Debug, PartialEq, Eq)]
pub struct CapitalInformation {
    pub latlng: Option<[u64; 2]>,
}

pub struct CapitalInformationView {
    pub latlng: Option<Seq<u64>>,
}

impl DeepView for CapitalInformation {
    type V = CapitalInformationView;

    open spec fn deep_view(&self) -> CapitalInformationView {
        CapitalInformationView { latlng: self.latlng.deep_view() }
    }
}

impl Clone for CapitalInformation {
    fn clone(&self) -> (out: Self)
        ensures
            out.deep_view() == self.deep_view(),
    {
        let latlng: Option<[u64; 2]> = match &self.latlng {
            Some(pair) => Some(*pair),
            None => None,
        };
        CapitalInformation { latlng }
    }
}

/// An image in two formats, with an optional description.
#[derive(Debug, PartialEq, Eq)]
pub struct Flag {
    pub png: String,
    pub svg: String,
    pub alt: Option<String>,
}

pub struct FlagView {
    pub png: Seq<char>,
    pub svg: Seq<char>,
    pub alt: Option<Seq<char>>,
}

impl DeepView for Flag {
    type V = FlagView;

    open spec fn deep_view(&self) -> FlagView {
        FlagView { png: self.png@, svg: self.svg@, alt: self.alt.deep_view() }
    }
}

impl Clone for Flag {
    fn clone(&self) -> (out: Self)
        ensures
            out.deep_view() == self.deep_view(),
    {
        Flag {
            png: self.png.clone(),
            svg: self.svg.clone(),
            alt: clone_optional_string(&self.alt),
        }
    }
}

/// A copy of a list of demonyms keyed by language code.
fn clone_demonym_entries(list: &Vec<(String, Vec<(String, String)>)>) -> (out: Vec<(String, Vec<(String, String)>)>)
    ensures
        out.deep_view() == list.deep_view(),
{
    let mut out: Vec<(String, Vec<(String, String)>)> = Vec::new();
    let mut i: usize = 0;
    while i < list.len()
        invariant
            i <= list.len(),
            out.len() == i,
            forall|j: int| 0 <= j < i ==> (#[trigger] out@[j]).deep_view() == list@[j].deep_view(),
        decreases list.len() - i,
    {
        let entry = &list[i];
        out.push((entry.0.clone(), clone_string_entries(&entry.1)));
        i += 1;
    }
    out
}

/// A copy of a list of index values keyed by year.
fn clone_index_entries(list: &Vec<(String, u64)>) -> (out: Vec<(String, u64)>)
    ensures
        out.deep_view() == list.deep_view(),
{
    let mut out: Vec<(String, u64)> = Vec::new();
    let mut i: usize = 0;
    while i < list.len()
        invariant
            i <= list.len(),
            out.len() == i,
            forall|j: int| 0 <= j < i ==> (#[trigger] out@[j]).deep_view() == list@[j].deep_view(),
        decreases list.len() - i,
    {
        let entry = &list[i];
        out.push((entry.0.clone(), entry.1));
        i += 1;
    }
    out
}

/// A copy of a list of optional strings keyed by name.
fn clone_postal_entries(list: &Vec<(String, Option<String>)>) -> (out: Vec<(String, Option<String>)>)
    ensures
        out.deep_view() == list.deep_view(),
{
    let mut out: Vec<(String, Option<String>)> = Vec::new();
    let mut i: usize = 0;
    while i < list.len()
        invariant
            i <= list.len(),
            out.len() == i,
            forall|j: int| 0 <= j < i ==> (#[trigger] out@[j]).deep_view() == list@[j].deep_view(),
        decreases list.len() - i,
    {
        let entry = &list[i];
        out.push((entry.0.clone(), clone_optional_string(&entry.1)));
        i += 1;
    }
    out
}

/// One country or territory.
///
/// The engine matches on `cca3`, `name`, `capital`, `languages`, `currencies`
/// and `idd`. The other fields describe the country and are carried along
/// as they are. Where the source data has an object keyed by strings, the
/// record has a list of entries, one for each key.
#[derive(Debug, PartialEq, Eq)]
pub struct Country {
    pub name: Name,
    pub tld: Vec<String>,
    pub cca2: String,
    pub ccn3: String,
    /// The three-letter code that identifies the country.
    pub cca3: String,
    pub cioc: String,
    pub independent: Option<bool>,
    pub status: String,
    pub un_member: bool,
    /// One entry for each currency code.
    pub currencies: Vec<(String, Currency)>,
    pub idd: Idd,
    /// The capital cities; some countries have none.
    pub capital: Vec<String>,
    pub alt_spellings: Vec<String>,
    pub region: String,
    pub subregion: String,
    /// One entry for each language code, with the name of the language.
    pub languages: Vec<(String, String)>,
    pub translations: Vec<(String, NativeName)>,
    /// Latitude and longitude, as the bit patterns of IEEE 754 doubles.
    pub latlng: [u64; 2],
    pub landlocked: bool,
    pub borders: Vec<String>,
    /// The area, as the bit pattern of an IEEE 754 double.
    pub area: u64,
    pub demonyms: Vec<(String, Vec<(String, String)>)>,
    pub flag: String,
    pub maps: Vec<(String, String)>,
    pub population: i64,
    /// Gini index by year, each value as the bit pattern of an IEEE 754
    /// double.
    pub gini: Vec<(String, u64)>,
    pub fifa: String,
    pub car: Car,
    pub timezones: Vec<String>,
    pub continents: Vec<String>,
    pub flags: Flag,
    pub coat_of_arms: Flag,
    pub start_of_week: String,
    pub capital_info: CapitalInformation,
    pub postal_code: Vec<(String, Option<String>)>,
}

pub struct CountryView {
    pub name: NameView,
    pub tld: Seq<Seq<char>>,
    pub cca2: Seq<char>,
    pub ccn3: Seq<char>,
    pub cca3: Seq<char>,
    pub cioc: Seq<char>,
    pub independent: Option<bool>,
    pub status: Seq<char>,
    pub un_member: bool,
    pub currencies: Seq<(Seq<char>, CurrencyView)>,
    pub idd: IddView,
    pub capital: Seq<Seq<char>>,
    pub alt_spellings: Seq<Seq<char>>,
    pub region: Seq<char>,
    pub subregion: Seq<char>,
    pub languages: Seq<(Seq<char>, Seq<char>)>,
    pub translations: Seq<(Seq<char>, NativeNameView)>,
    pub latlng: Seq<u64>,
    pub landlocked: bool,
    pub borders: Seq<Seq<char>>,
    pub area: u64,
    pub demonyms: Seq<(Seq<char>, Seq<(Seq<char>, Seq<char>)>)>,
    pub flag: Seq<char>,
    pub maps: Seq<(Seq<char>, Seq<char>)>,
    pub population: i64,
    pub gini: Seq<(Seq<char>, u64)>,
    pub fifa: Seq<char>,
    pub car: CarView,
    pub timezones: Seq<Seq<char>>,
    pub continents: Seq<Seq<char>>,
    pub flags: FlagView,
    pub coat_of_arms: FlagView,
    pub start_of_week: Seq<char>,
    pub capital_info: CapitalInformationView,
    pub postal_code: Seq<(Seq<char>, Option<Seq<char>>)>,
}

impl DeepView for Country {
    type V = CountryView;

    open spec fn deep_view(&self) -> CountryView {
        CountryView {
            name: self.name.deep_view(),
            tld: self.tld.deep_view(),
            cca2: self.cca2.deep_view(),
            ccn3: self.ccn3.deep_view(),
            cca3: self.cca3.deep_view(),
            cioc: self.cioc.deep_view(),
            independent: self.independent.deep_view(),
            status: self.status.deep_view(),
            un_member: self.un_member.deep_view(),
            currencies: self.currencies.deep_view(),
            idd: self.idd.deep_view(),
            capital: self.capital.deep_view(),
            alt_spellings: self.alt_spellings.deep_view(),
            region: self.region.deep_view(),
            subregion: self.subregion.deep_view(),
            languages: self.languages.deep_view(),
            translations: self.translations.deep_view(),
            latlng: self.latlng.deep_view(),
            landlocked: self.landlocked.deep_view(),
            borders: self.borders.deep_view(),
            area: self.area.deep_view(),
            demonyms: self.demonyms.deep_view(),
            flag: self.flag.deep_view(),
            maps: self.maps.deep_view(),
            population: self.population.deep_view(),
            gini: self.gini.deep_view(),
            fifa: self.fifa.deep_view(),
            car: self.car.deep_view(),
            timezones: self.timezones.deep_view(),
            continents: self.continents.deep_view(),
            flags: self.flags.deep_view(),
            coat_of_arms: self.coat_of_arms.deep_view(),
            start_of_week: self.start_of_week.deep_view(),
            capital_info: self.capital_info.deep_view(),
            postal_code: self.postal_code.deep_view(),
        }
    }
}

impl Clone for Country {
    fn clone(&self) -> (out: Self)
        ensures
            out.deep_view() == self.deep_view(),
    {
        Country {
            name: self.name.clone(),
            tld: clone_strings(&self.tld),
            cca2: self.cca2.clone(),
            ccn3: self.ccn3.clone(),
            cca3: self.cca3.clone(),
            cioc: self.cioc.clone(),
            independent: self.independent,
            status: self.status.clone(),
            un_member: self.un_member,
            currencies: clone_currency_entries(&self.currencies),
            idd: self.idd.clone(),
            capital: clone_strings(&self.capital),
            alt_spellings: clone_strings(&self.alt_spellings),
            region: self.region.clone(),
            subregion: self.subregion.clone(),
            languages: clone_string_entries(&self.languages),
            translations: clone_name_entries(&self.translations),
            latlng: self.latlng,
            landlocked: self.landlocked,
            borders: clone_strings(&self.borders),
            area: self.area,
            demonyms: clone_demonym_entries(&self.demonyms),
            flag: self.flag.clone(),
            maps: clone_string_entries(&self.maps),
            population: self.population,
            gini: clone_index_entries(&self.gini),
            fifa: self.fifa.clone(),
            car: self.car.clone(),
            timezones: clone_strings(&self.timezones),
            continents: clone_strings(&self.continents),
            flags: self.flags.clone(),
            coat_of_arms: self.coat_of_arms.clone(),
            start_of_week: self.start_of_week.clone(),
            capital_info: self.capital_info.clone(),
            postal_code: clone_postal_entries(&self.postal_code),
        }
    }
}

/// A copy of `items[from..to]`.
pub fn copy_countries(items: &[Country], from: usize, to: usize) -> (out: Vec<Country>)
    requires
        from <= to <= items.len(),
    ensures
        out.deep_view() == items.deep_view().subrange(from as int, to as int),
{
    let mut out: Vec<Country> = Vec::new();
    let mut i: usize = from;
    while i < to
        invariant
            from <= i <= to <= items.len(),
            out.len() == i - from,
            forall|j: int|
                0 <= j < i - from ==> (#[trigger] out@[j]).deep_view() == items@[from
                    + j].deep_view(),
        decreases to - i,
    {
        out.push(items[i].clone());
        i += 1;
    }
    out
}

} // verus!
