//! The searches that the catalog offers, one function for each.

use crate::data::Country;
use crate::engine::{
    find_first, first_position, lemma_calling_code_results_have_root,
    lemma_first_position_by_code, select, selected,
};
use crate::matchers::{Criterion, CriterionView};
use crate::pagination::{page_of, paginate, Paginated};
use crate::pattern::{build_case_insensitive, compiled};
use crate::text::lowercase;
use regex::Regex;
use vstd::prelude::*;

verus! {

/// Why a search gave no result.
#[derive(Debug, Clone, Copy, PartialEq, Eq)]
pub enum QueryError {
    /// The text is not a regular expression.
    InvalidPattern,
    /// No country has the code.
    NotFound,
}

/// The outcome of a compilation as a search reports it: the expression, or
/// `InvalidPattern` where the `regex` crate did not accept the text.
pub fn checked_pattern(built: Result<Regex, regex::Error>) -> (out: Result<Regex, QueryError>)
    ensures
        match built {
            Ok(re) => out == Ok::<Regex, QueryError>(re),
            Err(_) => out == Err::<Regex, QueryError>(QueryError::InvalidPattern),
        },
{
    match built {
        Ok(re) => Ok(re),
        Err(_) => Err(QueryError::InvalidPattern),
    }
}

/// Compiles `pattern` as a regular expression that ignores case.
pub fn compile(pattern: &str) -> (out: Result<Regex, QueryError>)
    ensures
        match compiled(pattern@) {
            Ok(re) => out == Ok::<Regex, QueryError>(re),
            Err(_) => out == Err::<Regex, QueryError>(QueryError::InvalidPattern),
        },
{
    checked_pattern(build_case_insensitive(pattern))
}

/// The page of the whole catalog that the request asks for.
pub fn all(catalog: &[Country], path: &str, query: Option<&str>) -> (out: Paginated)
    ensures
        out.deep_view() == page_of(path@, query.deep_view(), catalog.deep_view()),
{
    paginate(path, query, catalog)
}

/// The country with the three-letter code `cca3`, compared letter for
/// letter: a copy of the first one in the catalog that has the code, and
/// `NotFound` where none has it.
pub fn by_cca3(catalog: &[Country], cca3: &str) -> (out: Result<Country, QueryError>)
    ensures
        ({
            let at = first_position(catalog.deep_view(), CriterionView::Code(cca3@));
            if 0 <= at < catalog.len() {
                out matches Ok(country) && country.deep_view() == catalog.deep_view()[at]
            } else {
                out matches Err(e) && e == QueryError::NotFound
            }
        }),
        out matches Ok(country) ==> country.cca3@ == cca3@,
        out is Err <==> forall|i: int| 0 <= i < catalog.len() ==> catalog[i].cca3@ != cca3@,
{
    proof {
        let all = catalog.deep_view();
        let at = first_position(all, CriterionView::Code(cca3@));
        lemma_first_position_by_code(all, cca3@);
        if at < catalog.len() {
            assert(catalog[at].cca3@ == all[at].cca3);
        } else {
            assert forall|i: int| 0 <= i < catalog.len() implies catalog[i].cca3@ != cca3@ by {
                assert(catalog[i].cca3@ == all[i].cca3);
            }
        }
    }
    match find_first(catalog, &Criterion::Code(cca3.to_owned())) {
        Some(country) => Ok(country),
        None => Err(QueryError::NotFound),
    }
}

/// The countries whose common or official name the expression `pattern`
/// matches, ignoring case.
pub fn name(catalog: &[Country], pattern: &str) -> (out: Result<Vec<Country>, QueryError>)
    ensures
        match compiled(pattern@) {
            Ok(re) => out matches Ok(found) && found.deep_view() == selected(
                catalog.deep_view(),
                CriterionView::Name(re),
            ),
            Err(_) => out matches Err(e) && e == QueryError::InvalidPattern,
        },
{
    match compile(pattern) {
        Ok(re) => Ok(select(catalog, &Criterion::Name(re))),
        Err(e) => Err(e),
    }
}

/// The countries one of whose capitals the expression `pattern` matches,
/// ignoring case.
pub fn capital(catalog: &[Country], pattern: &str) -> (out: Result<Vec<Country>, QueryError>)
    ensures
        match compiled(pattern@) {
            Ok(re) => out matches Ok(found) && found.deep_view() == selected(
                catalog.deep_view(),
                CriterionView::Capital(re),
            ),
            Err(_) => out matches Err(e) && e == QueryError::InvalidPattern,
        },
{
    match compile(pattern) {
        Ok(re) => Ok(select(catalog, &Criterion::Capital(re))),
        Err(e) => Err(e),
    }
}

/// The countries that have a language whose code or name is `wanted`,
/// ignoring case. The text is compared as it is and is no expression.
pub fn language(catalog: &[Country], wanted: &str) -> (out: Vec<Country>)
    ensures
        out.deep_view() == selected(
            catalog.deep_view(),
            CriterionView::Language(lowercase(wanted@)),
        ),
{
    select(catalog, &Criterion::Language(wanted.to_lowercase()))
}

/// The countries one of whose currencies has a code or a name that the
/// expression `pattern` matches, ignoring case.
pub fn currency(catalog: &[Country], pattern: &str) -> (out: Result<Vec<Country>, QueryError>)
    ensures
        match compiled(pattern@) {
            Ok(re) => out matches Ok(found) && found.deep_view() == selected(
                catalog.deep_view(),
                CriterionView::Currency(re),
            ),
            Err(_) => out matches Err(e) && e == QueryError::InvalidPattern,
        },
{
    match compile(pattern) {
        Ok(re) => Ok(select(catalog, &Criterion::Currency(re))),
        Err(e) => Err(e),
    }
}

/// The countries one of whose dialing codes, without its first character,
/// is `calling_code`. The text is compared as it is and is no expression.
/// A country without a root has no dialing codes and is never among them.
pub fn callingcode(catalog: &[Country], calling_code: &str) -> (out: Vec<Country>)
    ensures
        out.deep_view() == selected(
            catalog.deep_view(),
            CriterionView::CallingCode(calling_code@),
        ),
        forall|k: int| 0 <= k < out.len() ==> (#[trigger] out[k]).idd.root@.len() > 0,
{
    let out = select(catalog, &Criterion::CallingCode(calling_code.to_owned()));
    proof {
        lemma_calling_code_results_have_root(catalog.deep_view(), calling_code@);
        assert forall|k: int| 0 <= k < out.len() implies (#[trigger] out[k]).idd.root@.len()
            > 0 by {
            assert(out.deep_view()[k].idd.root == out[k].idd.root@);
        }
    }
    out
}

} // verus!
