//! The criteria by which countries are searched, and the decision whether a
//! country meets one.

use crate::data::{Country, CountryView, CurrencyView};
use crate::pattern::accepts;
use crate::text::{lowercase, to_chars};
use regex::Regex;
use vstd::prelude::*;

verus! {

/// One way to search the catalog.
#[derive(Debug)]
pub enum Criterion {
    /// The three-letter code is exactly this text.
    Code(String),
    /// The expression matches the common or the official name.
    Name(Regex),
    /// The expression matches one of the capitals.
    Capital(Regex),
    /// This text, which is in lowercase, is the lowercase form of the code or
    /// of the name of one of the languages.
    Language(String),
    /// The expression matches the code or the name of one of the currencies.
    Currency(Regex),
    /// This text is one of the dialing codes without its first character.
    CallingCode(String),
}

pub enum CriterionView {
    Code(Seq<char>),
    Name(Regex),
    Capital(Regex),
    Language(Seq<char>),
    Currency(Regex),
    CallingCode(Seq<char>),
}

impl DeepView for Criterion {
    type V = CriterionView;

    open spec fn deep_view(&self) -> CriterionView {
        match self {
            Criterion::Code(code) => CriterionView::Code(code@),
            Criterion::Name(re) => CriterionView::Name(*re),
            Criterion::Capital(re) => CriterionView::Capital(*re),
            Criterion::Language(lowered) => CriterionView::Language(lowered@),
            Criterion::Currency(re) => CriterionView::Currency(*re),
            Criterion::CallingCode(digits) => CriterionView::CallingCode(digits@),
        }
    }
}

/// Whether the country has the three-letter code `code`, letter for letter.
pub open spec fn code_matches(code: Seq<char>, country: CountryView) -> bool {
    country.cca3 == code
}

/// Whether `re` matches the common or the official name of the country.
pub open spec fn name_matches(re: Regex, country: CountryView) -> bool {
    accepts(re, country.name.common) || accepts(re, country.name.official)
}

/// Whether `re` matches one of the capitals of the country.
pub open spec fn capital_matches(re: Regex, country: CountryView) -> bool {
    exists|i: int| 0 <= i < country.capital.len() && accepts(re, #[trigger] country.capital[i])
}

/// Whether `lowered` is the lowercase form of the code or of the name of
/// this language.
pub open spec fn language_entry_matches(lowered: Seq<char>, entry: (Seq<char>, Seq<char>)) -> bool {
    lowercase(entry.0) == lowered || lowercase(entry.1) == lowered
}

/// Whether `lowered` is the lowercase form of the code or of the name of one
/// of the languages of the country. The whole text must be equal: a part of
/// a name is no match.
pub open spec fn language_matches(lowered: Seq<char>, country: CountryView) -> bool {
    exists|i: int|
        0 <= i < country.languages.len() && #[trigger] language_entry_matches(
            lowered,
            country.languages[i],
        )
}

/// Whether `re` matches the code or the name of this currency.
pub open spec fn currency_entry_matches(re: Regex, entry: (Seq<char>, CurrencyView)) -> bool {
    accepts(re, entry.0) || accepts(re, entry.1.name)
}

/// Whether `re` matches the code or the name of one of the currencies of the
/// country.
pub open spec fn currency_matches(re: Regex, country: CountryView) -> bool {
    exists|i: int|
        0 <= i < country.currencies.len() && #[trigger] currency_entry_matches(
            re,
            country.currencies[i],
        )
}

/// A dialing code without its first character: the root, then the suffix,
/// and of that all but the first character.
pub open spec fn dialing_tail(root: Seq<char>, suffix: Seq<char>) -> Seq<char> {
    (root + suffix).skip(1)
}

/// Whether `digits` is one of the dialing codes of the country without its
/// first character. A country without a root has no dialing codes.
pub open spec fn calling_code_matches(digits: Seq<char>, country: CountryView) -> bool {
    country.idd.root.len() > 0 && exists|i: int|
        0 <= i < country.idd.suffixes.len() && #[trigger] dialing_tail(
            country.idd.root,
            country.idd.suffixes[i],
        ) == digits
}

/// Whether the country meets the criterion.
pub open spec fn satisfies(criterion: CriterionView, country: CountryView) -> bool {
    match criterion {
        CriterionView::Code(code) => code_matches(code, country),
        CriterionView::Name(re) => name_matches(re, country),
        CriterionView::Capital(re) => capital_matches(re, country),
        CriterionView::Language(lowered) => language_matches(lowered, country),
        CriterionView::Currency(re) => currency_matches(re, country),
        CriterionView::CallingCode(digits) => calling_code_matches(digits, country),
    }
}

/// The property of meeting the criterion.
pub open spec fn satisfying(criterion: CriterionView) -> spec_fn(CountryView) -> bool {
    |country: CountryView| satisfies(criterion, country)
}

/// Whether the country has the three-letter code `code`.
pub fn has_code(country: &Country, code: &String) -> (found: bool)
    ensures
        found == code_matches(code@, country.deep_view()),
{
    country.cca3 == *code
}

/// Whether `re` matches one of the names of the country.
pub fn has_name(country: &Country, re: &Regex) -> (found: bool)
    ensures
        found == name_matches(*re, country.deep_view()),
{
    re.is_match(country.name.common.as_str()) || re.is_match(country.name.official.as_str())
}

/// Whether `re` matches one of the capitals of the country.
pub fn has_capital(country: &Country, re: &Regex) -> (found: bool)
    ensures
        found == capital_matches(*re, country.deep_view()),
{
    let capitals = &country.capital;
    let mut i: usize = 0;
    while i < capitals.len()
        invariant
            i <= capitals.len(),
            capitals.deep_view() == country.deep_view().capital,
            forall|j: int| 0 <= j < i ==> !accepts(*re, #[trigger] capitals.deep_view()[j]),
        decreases capitals.len() - i,
    {
        if re.is_match(capitals[i].as_str()) {
            assert(accepts(*re, capitals.deep_view()[i as int]));
            return true;
        }
        i += 1;
    }
    false
}

/// Whether `lowered` is the lowercase form of the code or of the name of one
/// of the languages of the country.
pub fn has_language(country: &Country, lowered: &String) -> (found: bool)
    ensures
        found == language_matches(lowered@, country.deep_view()),
{
    let languages = &country.languages;
    let mut i: usize = 0;
    while i < languages.len()
        invariant
            i <= languages.len(),
            languages.deep_view() == country.deep_view().languages,
            forall|j: int|
                0 <= j < i ==> !#[trigger] language_entry_matches(
                    lowered@,
                    languages.deep_view()[j],
                ),
        decreases languages.len() - i,
    {
        let entry = &languages[i];
        if entry.0.as_str().to_lowercase() == *lowered || entry.1.as_str().to_lowercase()
            == *lowered {
            assert(language_entry_matches(lowered@, languages.deep_view()[i as int]));
            return true;
        }
        i += 1;
    }
    false
}

/// Whether `re` matches the code or the name of one of the currencies of the
/// country.
pub fn has_currency(country: &Country, re: &Regex) -> (found: bool)
    ensures
        found == currency_matches(*re, country.deep_view()),
{
    let currencies = &country.currencies;
    let mut i: usize = 0;
    while i < currencies.len()
        invariant
            i <= currencies.len(),
            currencies.deep_view() == country.deep_view().currencies,
            forall|j: int|
                0 <= j < i ==> !#[trigger] currency_entry_matches(*re, currencies.deep_view()[j]),
        decreases currencies.len() - i,
    {
        let entry = &currencies[i];
        if re.is_match(entry.0.as_str()) || re.is_match(entry.1.name.as_str()) {
            assert(currency_entry_matches(*re, currencies.deep_view()[i as int]));
            return true;
        }
        i += 1;
    }
    false
}

/// Whether `digits` is `root` followed by `suffix`, without the first
/// character.
pub fn is_dialing_tail(root: &[char], suffix: &[char], digits: &[char]) -> (same: bool)
    requires
        root.len() > 0,
    ensures
        same == (dialing_tail(root@, suffix@) == digits@),
{
    let kept = root.len() - 1;
    let ghost tail = dialing_tail(root@, suffix@);
    if digits.len() < kept || digits.len() - kept != suffix.len() {
        return false;
    }
    let mut i: usize = 0;
    while i < digits.len()
        invariant
            i <= digits.len(),
            kept == root.len() - 1,
            digits.len() == kept + suffix.len(),
            tail == dialing_tail(root@, suffix@),
            forall|j: int| 0 <= j < i ==> digits@[j] == tail[j],
        decreases digits.len() - i,
    {
        let expected = if i < kept {
            root[i + 1]
        } else {
            suffix[i - kept]
        };
        if digits[i] != expected {
            return false;
        }
        i += 1;
    }
    assert(tail =~= digits@);
    true
}

/// Whether `digits` is one of the dialing codes of the country without its
/// first character.
pub fn has_calling_code(country: &Country, digits: &String) -> (found: bool)
    ensures
        found == calling_code_matches(digits@, country.deep_view()),
{
    let root = to_chars(country.idd.root.as_str());
    if root.len() == 0 {
        return false;
    }
    let wanted = to_chars(digits.as_str());
    let suffixes = &country.idd.suffixes;
    let mut i: usize = 0;
    while i < suffixes.len()
        invariant
            i <= suffixes.len(),
            root.len() > 0,
            root@ == country.deep_view().idd.root,
            wanted@ == digits@,
            suffixes.deep_view() == country.deep_view().idd.suffixes,
            forall|j: int|
                0 <= j < i ==> #[trigger] dialing_tail(root@, suffixes.deep_view()[j]) != digits@,
        decreases suffixes.len() - i,
    {
        let suffix = to_chars(suffixes[i].as_str());
        if is_dialing_tail(&root, &suffix, &wanted) {
            assert(dialing_tail(root@, suffixes.deep_view()[i as int]) == digits@);
            return true;
        }
        i += 1;
    }
    false
}

/// Whether the country meets the criterion.
pub fn meets(criterion: &Criterion, country: &Country) -> (found: bool)
    ensures
        found == satisfies(criterion.deep_view(), country.deep_view()),
{
    match criterion {
        Criterion::Code(code) => has_code(country, code),
        Criterion::Name(re) => has_name(country, re),
        Criterion::Capital(re) => has_capital(country, re),
        Criterion::Language(lowered) => has_language(country, lowered),
        Criterion::Currency(re) => has_currency(country, re),
        Criterion::CallingCode(digits) => has_calling_code(country, digits),
    }
}

/// A country without a root has no dialing codes: it meets no calling-code
/// criterion, whatever its suffixes are.
pub proof fn lemma_no_root_no_calling_code(digits: Seq<char>, country: CountryView)
    requires
        country.idd.root.len() == 0,
    ensures
        !calling_code_matches(digits, country),
{
}

/// Where a country meets a calling-code criterion, the text stands for one
/// of its dialing codes with exactly one character taken from the front:
/// the first character of the root, put before the text, gives the root
/// followed by one of the suffixes.
pub proof fn lemma_calling_code_drops_first_character(digits: Seq<char>, country: CountryView)
    requires
        calling_code_matches(digits, country),
    ensures
        exists|i: int|
            0 <= i < country.idd.suffixes.len() && country.idd.root
                + #[trigger] country.idd.suffixes[i] == seq![country.idd.root[0]] + digits,
{
    let root = country.idd.root;
    let i = choose|i: int|
        0 <= i < country.idd.suffixes.len() && #[trigger] dialing_tail(
            root,
            country.idd.suffixes[i],
        ) == digits;
    assert(root + country.idd.suffixes[i] =~= seq![root[0]] + digits);
}

/// Languages are compared as whole texts: a country none of whose language
/// codes and names has the lowercase form `lowered` meets no language
/// criterion for it, whatever the codes and names contain.
pub proof fn lemma_language_needs_whole_text(lowered: Seq<char>, country: CountryView)
    requires
        forall|i: int|
            0 <= i < country.languages.len() ==> lowercase((#[trigger] country.languages[i]).0)
                != lowered && lowercase(country.languages[i].1) != lowered,
    ensures
        !language_matches(lowered, country),
{
}

} // verus!
