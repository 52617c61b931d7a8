//! Runs one criterion over the catalog.
//!
//! The catalog is a list of countries in a fixed order. A search reads it
//! and returns copies, in the order of the catalog.

use crate::data::{Country, CountryView};
use crate::matchers::{meets, satisfies, satisfying, Criterion, CriterionView};
use crate::search::{first_where, lemma_first_where_is_first, lemma_first_where_unique};
use vstd::prelude::*;

verus! {

/// The countries of the catalog that meet the criterion: each of them once
/// for each time it stands in the catalog, in the order of the catalog.
pub open spec fn selected(catalog: Seq<CountryView>, criterion: CriterionView) -> Seq<CountryView> {
    catalog.filter(satisfying(criterion))
}

/// The position of the first country of the catalog that meets the
/// criterion, or the length of the catalog where none does.
pub open spec fn first_position(catalog: Seq<CountryView>, criterion: CriterionView) -> int {
    first_where(catalog, satisfying(criterion))
}

/// Copies of the countries of the catalog that meet the criterion.
pub fn select(catalog: &[Country], criterion: &Criterion) -> (out: Vec<Country>)
    ensures
        out.deep_view() == selected(catalog.deep_view(), criterion.deep_view()),
{
    let ghost all = catalog.deep_view();
    let ghost pred = satisfying(criterion.deep_view());
    let mut out: Vec<Country> = Vec::new();
    let mut i: usize = 0;
    proof {
        reveal(Seq::filter);
    }
    while i < catalog.len()
        invariant
            i <= catalog.len(),
            all == catalog.deep_view(),
            pred == satisfying(criterion.deep_view()),
            out.deep_view() == all.take(i as int).filter(pred),
        decreases catalog.len() - i,
    {
        proof {
            reveal(Seq::filter);
            assert(all.take(i + 1).drop_last() =~= all.take(i as int));
        }
        if meets(criterion, &catalog[i]) {
            out.push(catalog[i].clone());
        }
        i += 1;
    }
    assert(all.take(i as int) =~= all);
    out
}

/// A copy of the first country of the catalog that meets the criterion.
pub fn find_first(catalog: &[Country], criterion: &Criterion) -> (out: Option<Country>)
    ensures
        ({
            let at = first_position(catalog.deep_view(), criterion.deep_view());
            if 0 <= at < catalog.len() {
                out matches Some(country) && country.deep_view() == catalog.deep_view()[at]
            } else {
                out is None
            }
        }),
{
    let mut i: usize = 0;
    while i < catalog.len() && !meets(criterion, &catalog[i])
        invariant
            i <= catalog.len(),
            forall|j: int|
                0 <= j < i ==> !satisfies(criterion.deep_view(), #[trigger] catalog.deep_view()[j]),
        decreases catalog.len() - i,
    {
        i += 1;
    }
    proof {
        lemma_first_where_unique(
            catalog.deep_view(),
            satisfying(criterion.deep_view()),
            i as int,
        );
    }
    if i < catalog.len() {
        Some(catalog[i].clone())
    } else {
        None
    }
}

/// A search keeps what meets the criterion and nothing else: every country
/// of the result meets it and stands in the catalog, every country of the
/// catalog that meets it stands in the result, and the result is no longer
/// than the catalog.
pub proof fn lemma_selected_are_those_that_match(
    catalog: Seq<CountryView>,
    criterion: CriterionView,
)
    ensures
        forall|k: int|
            0 <= k < selected(catalog, criterion).len() ==> satisfies(
                criterion,
                #[trigger] selected(catalog, criterion)[k],
            ) && catalog.contains(selected(catalog, criterion)[k]),
        forall|i: int|
            0 <= i < catalog.len() && satisfies(criterion, catalog[i]) ==> selected(
                catalog,
                criterion,
            ).contains(#[trigger] catalog[i]),
        selected(catalog, criterion).len() <= catalog.len(),
{
    let pred = satisfying(criterion);
    let found = selected(catalog, criterion);
    catalog.lemma_filter_len(pred);
    assert forall|k: int| 0 <= k < found.len() implies satisfies(criterion, #[trigger] found[k])
        && catalog.contains(found[k]) by {
        catalog.lemma_filter_pred(pred, k);
        catalog.lemma_filter_contains_rev(pred, found[k]);
    }
    assert forall|i: int| 0 <= i < catalog.len() && satisfies(criterion, catalog[i]) implies found.contains(
        #[trigger] catalog[i],
    ) by {
        catalog.lemma_filter_contains(pred, i);
    }
}

/// A search keeps the order of the catalog: the result for two lists, one
/// put after the other, is the result for the first followed by the result
/// for the second.
pub proof fn lemma_selected_in_catalog_order(
    front: Seq<CountryView>,
    back: Seq<CountryView>,
    criterion: CriterionView,
)
    ensures
        selected(front + back, criterion) == selected(front, criterion) + selected(back, criterion),
{
    Seq::filter_distributes_over_add(front, back, satisfying(criterion));
}

/// No country without a root stands in the result of a calling-code search.
pub proof fn lemma_calling_code_results_have_root(catalog: Seq<CountryView>, digits: Seq<char>)
    ensures
        forall|k: int|
            0 <= k < selected(catalog, CriterionView::CallingCode(digits)).len() ==> (
            #[trigger] selected(catalog, CriterionView::CallingCode(digits))[k]).idd.root.len() > 0,
{
    lemma_selected_are_those_that_match(catalog, CriterionView::CallingCode(digits));
}

/// Looking a code up finds the first country that has it, letter for
/// letter, and finds none exactly when no country has it.
pub proof fn lemma_first_position_by_code(catalog: Seq<CountryView>, code: Seq<char>)
    ensures
        0 <= first_position(catalog, CriterionView::Code(code)) <= catalog.len(),
        first_position(catalog, CriterionView::Code(code)) < catalog.len() ==> catalog[first_position(
            catalog,
            CriterionView::Code(code),
        )].cca3 == code,
        forall|j: int|
            0 <= j < first_position(catalog, CriterionView::Code(code)) ==> (
            #[trigger] catalog[j]).cca3 != code,
{
    lemma_first_where_is_first(catalog, satisfying(CriterionView::Code(code)));
}

/// Whether no two countries of the catalog have the same three-letter code.
pub open spec fn distinct_codes(catalog: Seq<CountryView>) -> bool {
    forall|i: int, j: int|
        0 <= i < j < catalog.len() ==> (#[trigger] catalog[i]).cca3 != (#[trigger] catalog[j]).cca3
}

/// In a catalog whose codes are distinct, the country that a code finds is
/// the only one with that code.
pub proof fn lemma_code_finds_the_only_one(catalog: Seq<CountryView>, code: Seq<char>)
    requires
        distinct_codes(catalog),
    ensures
        forall|j: int|
            0 <= j < catalog.len() && j != first_position(catalog, CriterionView::Code(code)) ==> (
            #[trigger] catalog[j]).cca3 != code,
{
    lemma_first_position_by_code(catalog, code);
    let at = first_position(catalog, CriterionView::Code(code));
    assert forall|j: int| 0 <= j < catalog.len() && j != at implies (#[trigger] catalog[j]).cca3
        != code by {
        if j > at {
            assert(catalog[at].cca3 == code);
        }
    }
}

} // verus!
