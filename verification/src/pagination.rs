//! Cuts a list of countries into pages and builds the link to the next page.
//!
//! A page is a function of the list, the requested page number and the
//! request's path and parameters: nothing is kept between two requests.

use crate::data::{copy_countries, Country, CountryView};
use crate::query::{
    get, insert, join_pairs, lemma_query_reads_back, lemma_request_keys_distinct,
    lemma_request_params_are_plain, lemma_upsert_keeps_keys_distinct, lemma_upsert_keeps_plain,
    lemma_upsert_sets_one_parameter, lookup, parse_maybe_query, query_to_string, request_params,
    upsert,
};
use crate::text::{
    decimal_text, free_of, from_chars, is_digit, lemma_decimal_round_trip,
    lemma_decimal_text_is_digits, parse_decimal, parse_number, push_decimal, to_chars,
};
use vstd::prelude::*;

verus! {

/// The number of countries on a full page.
pub const ITEMS_PER_PAGE: usize = 20;

/// One page of a list of countries.
#[derive(Debug, PartialEq, Eq)]
pub struct Paginated {
    /// The number of pages that the whole list has.
    pub total_page_count: usize,
    /// The link to the page after this one; `None` on the last page and
    /// after it.
    pub next: Option<String>,
    /// The countries on this page, in the order of the list.
    pub items: Vec<Country>,
}

pub struct PaginatedView {
    pub total_page_count: usize,
    pub next: Option<Seq<char>>,
    pub items: Seq<CountryView>,
}

impl Clone for Paginated {
    fn clone(&self) -> (out: Self)
        ensures
            out.deep_view() == self.deep_view(),
    {
        let next = match &self.next {
            Some(link) => Some(link.clone()),
            None => None,
        };
        let listed = self.items.as_slice();
        let items = copy_countries(listed, 0, listed.len());
        assert(listed.deep_view().subrange(0, listed.len() as int) =~= self.items.deep_view());
        Paginated { total_page_count: self.total_page_count, next, items }
    }
}

impl DeepView for Paginated {
    type V = PaginatedView;

    open spec fn deep_view(&self) -> PaginatedView {
        PaginatedView {
            total_page_count: self.total_page_count,
            next: self.next.deep_view(),
            items: self.items.deep_view(),
        }
    }
}

/// The number of pages that a list of `n` items has: `n / ITEMS_PER_PAGE`,
/// rounded up.
pub open spec fn page_count(n: nat) -> nat {
    ((n + ITEMS_PER_PAGE - 1) / (ITEMS_PER_PAGE as int)) as nat
}

/// The page that a request asks for: the value of its parameter `page`
/// where that is the decimal notation of a number from 1 to `usize::MAX`,
/// and 1 otherwise.
pub open spec fn requested_page(params: Seq<(Seq<char>, Seq<char>)>) -> usize {
    match lookup(params, "page"@) {
        Some(value) => match parse_decimal(value) {
            Some(n) => if n >= 1 {
                n
            } else {
                1
            },
            None => 1,
        },
        None => 1,
    }
}

/// Where page `page` starts in a list of `len` items: after the items of the
/// pages before it, or at the end of the list where they are all there is.
pub open spec fn page_start(len: nat, page: nat) -> nat {
    if (page - 1) * ITEMS_PER_PAGE <= len {
        ((page - 1) * ITEMS_PER_PAGE) as nat
    } else {
        len
    }
}

/// Where page `page` ends in a list of `len` items.
pub open spec fn page_end(len: nat, page: nat) -> nat {
    if page * ITEMS_PER_PAGE <= len {
        (page * ITEMS_PER_PAGE) as nat
    } else {
        len
    }
}

/// The items on page `page`, counted from 1.
pub open spec fn page_items<T>(items: Seq<T>, page: nat) -> Seq<T> {
    items.subrange(page_start(items.len(), page) as int, page_end(items.len(), page) as int)
}

/// The query string of the link to the page after `page`: the parameters of
/// the request, with `page` set to the next page number.
pub open spec fn next_query(params: Seq<(Seq<char>, Seq<char>)>, page: nat) -> Seq<char> {
    join_pairs(upsert(params, "page"@, decimal_text(page + 1)))
}

/// The link to the page after `page`: the path, `?`, and the query string
/// that asks for the next page. There is none where `page` is the last page
/// or lies after it.
pub open spec fn next_link(
    path: Seq<char>,
    params: Seq<(Seq<char>, Seq<char>)>,
    page: nat,
    pages: nat,
) -> Option<Seq<char>> {
    if page >= pages {
        None
    } else {
        Some(path + seq!['?'] + next_query(params, page))
    }
}

/// The page of `items` that a request with the path `path` and the query
/// string `query` asks for.
pub open spec fn page_of(
    path: Seq<char>,
    query: Option<Seq<char>>,
    items: Seq<CountryView>,
) -> PaginatedView {
    let params = request_params(query);
    let page = requested_page(params);
    let pages = page_count(items.len());
    PaginatedView {
        total_page_count: pages as usize,
        next: next_link(path, params, page as nat, pages),
        items: page_items(items, page as nat),
    }
}

/// The number of pages that a list of `n` items has.
pub fn count_pages(n: usize) -> (pages: usize)
    ensures
        pages == page_count(n as nat),
{
    if n % ITEMS_PER_PAGE == 0 {
        n / ITEMS_PER_PAGE
    } else {
        n / ITEMS_PER_PAGE + 1
    }
}

/// The page that a request with the parameters `params` asks for.
pub fn page_number(params: &Vec<(String, String)>) -> (page: usize)
    ensures
        page == requested_page(params.deep_view()),
        page >= 1,
{
    let key = "page".to_owned();
    match get(params, &key) {
        Some(value) => {
            let chars = to_chars(value.as_str());
            match parse_number(&chars) {
                Some(n) => if n >= 1 {
                    n
                } else {
                    1
                },
                None => 1,
            }
        },
        None => 1,
    }
}

/// The page of `items` that a request with the path `path` and the query
/// string `query` asks for. Every request gets a page: one that asks for a
/// page after the last gets an empty one.
pub fn paginate(path: &str, query: Option<&str>, items: &[Country]) -> (out: Paginated)
    ensures
        out.deep_view() == page_of(path@, query.deep_view(), items.deep_view()),
        out.total_page_count == page_count(items.len() as nat),
        out.next is None <==> requested_page(request_params(query.deep_view()))
            >= out.total_page_count,
        out.items.len() <= ITEMS_PER_PAGE,
{
    let len = items.len();
    let pages = count_pages(len);
    let mut params = parse_maybe_query(query);
    let page = page_number(&params);
    let ghost asked = params.deep_view();
    let next = if page >= pages {
        None
    } else {
        let mut digits: Vec<char> = Vec::new();
        push_decimal(&mut digits, page + 1);
        insert(&mut params, "page".to_owned(), from_chars(&digits));
        let mut link = path.to_owned();
        link.push('?');
        link.append(query_to_string(&params).as_str());
        Some(link)
    };
    let start = if page - 1 > len / ITEMS_PER_PAGE {
        len
    } else {
        (page - 1) * ITEMS_PER_PAGE
    };
    let end = if len - start > ITEMS_PER_PAGE {
        start + ITEMS_PER_PAGE
    } else {
        len
    };
    let page_items = copy_countries(items, start, end);
    assert(next.deep_view() == next_link(path@, asked, page as nat, pages as nat));
    assert(page_items.deep_view().len() == end - start);
    Paginated { total_page_count: pages, next, items: page_items }
}

/// The number of pages is the number of items divided by the page size and
/// rounded up: the pages hold all the items, one page fewer would not, and a
/// list has no pages exactly when it has no items.
pub proof fn lemma_page_count_rounds_up(n: nat)
    ensures
        page_count(n) * ITEMS_PER_PAGE >= n,
        n > 0 ==> (page_count(n) - 1) * ITEMS_PER_PAGE < n,
        page_count(n) == 0 <==> n == 0,
{
}

/// A page has a link to the next page exactly when the requested page lies
/// before the last page. A list without pages has no such link.
pub proof fn lemma_next_absent_from_last_page(
    path: Seq<char>,
    query: Option<Seq<char>>,
    items: Seq<CountryView>,
)
    requires
        items.len() <= usize::MAX,
    ensures
        page_of(path, query, items).total_page_count == page_count(items.len()),
        page_of(path, query, items).next is None <==> requested_page(request_params(query))
            >= page_of(path, query, items).total_page_count,
        page_of(path, query, items).total_page_count == 0 ==> page_of(path, query, items).next
            is None,
{
}

/// Two requests for the same page number of the same list get the same
/// items, whatever else the requests hold.
pub proof fn lemma_same_page_same_items(
    path: Seq<char>,
    query: Option<Seq<char>>,
    other_path: Seq<char>,
    other_query: Option<Seq<char>>,
    items: Seq<CountryView>,
)
    requires
        requested_page(request_params(query)) == requested_page(request_params(other_query)),
    ensures
        page_of(path, query, items).items == page_of(other_path, other_query, items).items,
{
}

/// The parameters in the link to the next page ask for the page after the
/// requested one, and are otherwise those of the request.
pub proof fn lemma_next_link_asks_for_next_page(params: Seq<(Seq<char>, Seq<char>)>, page: nat)
    requires
        page < usize::MAX,
    ensures
        requested_page(upsert(params, "page"@, decimal_text(page + 1))) == page + 1,
        forall|other: Seq<char>|
            other != "page"@ ==> #[trigger] lookup(
                upsert(params, "page"@, decimal_text(page + 1)),
                other,
            ) == lookup(params, other),
{
    lemma_upsert_sets_one_parameter(params, "page"@, decimal_text(page + 1));
    lemma_decimal_round_trip(page + 1);
}

/// Following the link to the next page asks for the next page: the query
/// string of the link, read as that of a new request, holds the parameters
/// of this request with `page` set to the page after the requested one.
pub proof fn lemma_next_link_leads_to_next_page(query: Option<Seq<char>>)
    requires
        requested_page(request_params(query)) < usize::MAX,
    ensures
        ({
            let params = request_params(query);
            let page = requested_page(params);
            let followed = request_params(Some(next_query(params, page as nat)));
            &&& followed == upsert(params, "page"@, decimal_text((page + 1) as nat))
            &&& requested_page(followed) == page + 1
        }),
{
    let params = request_params(query);
    let page = requested_page(params);
    let number = decimal_text((page + 1) as nat);
    let after = upsert(params, "page"@, number);
    reveal_strlit("page");
    lemma_decimal_text_is_digits((page + 1) as nat);
    assert(free_of(number, '&') && free_of(number, '=')) by {
        assert forall|i: int| 0 <= i < number.len() implies number[i] != '&' && number[i]
            != '=' by {
            assert(is_digit(number[i]));
        }
    }
    lemma_request_params_are_plain(query);
    lemma_request_keys_distinct(query);
    lemma_upsert_keeps_plain(params, "page"@, number);
    lemma_upsert_keeps_keys_distinct(params, "page"@, number);
    lemma_upsert_sets_one_parameter(params, "page"@, number);
    lemma_query_reads_back(after);
    lemma_next_link_asks_for_next_page(params, page as nat);
}

/// A page holds at most `ITEMS_PER_PAGE` items, and they stand in the list
/// one after the other from where the page starts.
pub proof fn lemma_page_items_in_order<T>(items: Seq<T>, page: nat)
    requires
        page >= 1,
    ensures
        page_items(items, page).len() <= ITEMS_PER_PAGE,
        page_start(items.len(), page) + page_items(items, page).len() <= items.len(),
        forall|k: int|
            0 <= k < page_items(items, page).len() ==> #[trigger] page_items(items, page)[k]
                == items[page_start(items.len(), page) + k],
{
}

/// Every page up to the last holds an item; the pages before the last are
/// full; a page after the last is empty.
pub proof fn lemma_page_sizes<T>(items: Seq<T>, page: nat)
    requires
        page >= 1,
    ensures
        page < page_count(items.len()) ==> page_items(items, page).len() == ITEMS_PER_PAGE,
        page == page_count(items.len()) ==> page_items(items, page).len() == items.len() - (page
            - 1) * ITEMS_PER_PAGE > 0,
        page > page_count(items.len()) ==> page_items(items, page).len() == 0,
{
}

/// The pages of a list, one after the other, are the list.
pub open spec fn pages_joined<T>(items: Seq<T>, pages: nat) -> Seq<T>
    decreases pages,
{
    if pages == 0 {
        Seq::empty()
    } else {
        pages_joined(items, (pages - 1) as nat) + page_items(items, pages)
    }
}

/// The first `pages` pages together hold the items of the list up to the end
/// of the last of them.
pub proof fn lemma_pages_join_to_prefix<T>(items: Seq<T>, pages: nat)
    ensures
        pages_joined(items, pages) == items.take(page_end(items.len(), pages) as int),
    decreases pages,
{
    if pages > 0 {
        lemma_pages_join_to_prefix(items, (pages - 1) as nat);
    }
}

/// All the pages of a list together hold the whole list: every item stands
/// on one page, and on one only.
pub proof fn lemma_pages_cover_the_list<T>(items: Seq<T>)
    ensures
        pages_joined(items, page_count(items.len())) == items,
{
    lemma_pages_join_to_prefix(items, page_count(items.len()));
}

} // verus!
