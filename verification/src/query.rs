//! The parameters of a request's query string.
//!
//! A query string is a list of `key=value` pairs joined by `&`. The
//! parameters are kept as a list of entries with one entry for each key, in
//! the order in which the keys first came; a key that comes again replaces
//! the value of its entry.

use crate::search::{first_where, lemma_first_where_is_first, lemma_first_where_unique};
use crate::text::{
    free_of, from_chars, lemma_split_last_piece, lemma_split_pieces, lemma_split_whole, split,
    split_chars, to_chars,
};
use vstd::prelude::*;

verus! {

/// The position of the first entry of `params` with the key `key`, or the
/// length of `params` where no entry has it.
pub open spec fn key_index(params: Seq<(Seq<char>, Seq<char>)>, key: Seq<char>) -> int {
    first_where(params, has_key(key))
}

/// The property of being an entry with the key `key`.
pub open spec fn has_key(key: Seq<char>) -> spec_fn((Seq<char>, Seq<char>)) -> bool {
    |entry: (Seq<char>, Seq<char>)| entry.0 == key
}

/// The value of the parameter `key`, if there is one.
pub open spec fn lookup(params: Seq<(Seq<char>, Seq<char>)>, key: Seq<char>) -> Option<Seq<char>> {
    let i = key_index(params, key);
    if 0 <= i < params.len() {
        Some(params[i].1)
    } else {
        None
    }
}

/// `params` with the parameter `key` set to `value`: in the place of the
/// entry that had the key, or at the end where none had it.
pub open spec fn upsert(
    params: Seq<(Seq<char>, Seq<char>)>,
    key: Seq<char>,
    value: Seq<char>,
) -> Seq<(Seq<char>, Seq<char>)> {
    let i = key_index(params, key);
    if 0 <= i < params.len() {
        params.update(i, (key, value))
    } else {
        params.push((key, value))
    }
}

/// Whether no two entries of `params` have the same key.
pub open spec fn distinct_keys(params: Seq<(Seq<char>, Seq<char>)>) -> bool {
    forall|i: int, j: int|
        0 <= i < j < params.len() ==> (#[trigger] params[i]).0 != (#[trigger] params[j]).0
}

/// The key and the value that one piece of a query string holds: what
/// stands before its first `=`, and what stands between that and the next
/// `=` or the end. A piece without `=` holds none.
pub open spec fn parse_pair(piece: Seq<char>) -> Option<(Seq<char>, Seq<char>)> {
    let parts = split(piece, '=');
    if parts.len() >= 2 {
        Some((parts[0], parts[1]))
    } else {
        None
    }
}

/// The parameters that a list of pieces holds, if every piece holds a pair.
pub open spec fn collect_pairs(pieces: Seq<Seq<char>>) -> Option<Seq<(Seq<char>, Seq<char>)>>
    decreases pieces.len(),
{
    if pieces.len() == 0 {
        Some(Seq::empty())
    } else {
        match (collect_pairs(pieces.drop_last()), parse_pair(pieces.last())) {
            (Some(params), Some(pair)) => Some(upsert(params, pair.0, pair.1)),
            _ => None,
        }
    }
}

/// The parameters that the query string `query` holds, if every piece of it
/// between two `&` holds a pair.
pub open spec fn parse_pairs(query: Seq<char>) -> Option<Seq<(Seq<char>, Seq<char>)>> {
    collect_pairs(split(query, '&'))
}

/// The parameters of a request: those of its query string where it has one
/// that can be read, none otherwise.
pub open spec fn request_params(query: Option<Seq<char>>) -> Seq<(Seq<char>, Seq<char>)> {
    match query {
        Some(text) => match parse_pairs(text) {
            Some(params) => params,
            None => Seq::empty(),
        },
        None => Seq::empty(),
    }
}

/// One parameter as it stands in a query string.
pub open spec fn pair_text(pair: (Seq<char>, Seq<char>)) -> Seq<char> {
    pair.0 + seq!['='] + pair.1
}

/// The query string that holds `params`, in their order.
pub open spec fn join_pairs(params: Seq<(Seq<char>, Seq<char>)>) -> Seq<char>
    decreases params.len(),
{
    if params.len() == 0 {
        Seq::empty()
    } else if params.len() == 1 {
        pair_text(params[0])
    } else {
        join_pairs(params.drop_last()) + seq!['&'] + pair_text(params.last())
    }
}

/// The position of the entry with the key `key`, or the length of `params`.
pub fn find_key(params: &Vec<(String, String)>, key: &String) -> (at: usize)
    ensures
        at <= params.len(),
        at == key_index(params.deep_view(), key@),
{
    let mut at: usize = 0;
    while at < params.len() && params[at].0 != *key
        invariant
            at <= params.len(),
            forall|j: int| 0 <= j < at ==> params.deep_view()[j].0 != key@,
        decreases params.len() - at,
    {
        at += 1;
    }
    proof {
        lemma_first_where_unique(params.deep_view(), has_key(key@), at as int);
    }
    at
}

/// The value of the parameter `key`, if there is one.
pub fn get<'a>(params: &'a Vec<(String, String)>, key: &String) -> (out: Option<&'a String>)
    ensures
        out.deep_view() == lookup(params.deep_view(), key@),
{
    let at = find_key(params, key);
    if at < params.len() {
        Some(&params[at].1)
    } else {
        None
    }
}

/// Sets the parameter `key` to `value`.
pub fn insert(params: &mut Vec<(String, String)>, key: String, value: String)
    ensures
        final(params).deep_view() == upsert(old(params).deep_view(), key@, value@),
{
    let at = find_key(params, &key);
    if at < params.len() {
        params.set(at, (key, value));
    } else {
        params.push((key, value));
    }
}

/// Where one piece holds no pair, the list holds no parameters.
pub proof fn lemma_collect_pairs_fails(pieces: Seq<Seq<char>>, i: int)
    requires
        0 <= i < pieces.len(),
        parse_pair(pieces[i]) is None,
    ensures
        collect_pairs(pieces) is None,
    decreases pieces.len(),
{
    if i < pieces.len() - 1 {
        lemma_collect_pairs_fails(pieces.drop_last(), i);
    }
}

/// Reads a query string. Fails where a piece between two `&` has no `=`.
pub fn parse_query(query: &str) -> (out: Result<Vec<(String, String)>, ()>)
    ensures
        match parse_pairs(query@) {
            Some(params) => out matches Ok(found) && found.deep_view() == params,
            None => out is Err,
        },
{
    let chars = to_chars(query);
    let pieces = split_chars(&chars, '&');
    let mut params: Vec<(String, String)> = Vec::new();
    let mut i: usize = 0;
    while i < pieces.len()
        invariant
            i <= pieces.len(),
            pieces.deep_view() == split(query@, '&'),
            collect_pairs(pieces.deep_view().take(i as int)) == Some(params.deep_view()),
        decreases pieces.len() - i,
    {
        let ghost seen = pieces.deep_view().take(i + 1);
        assert(seen.drop_last() =~= pieces.deep_view().take(i as int));
        let parts = split_chars(&pieces[i], '=');
        assert(pieces@[i as int].deep_view() =~= pieces@[i as int]@);
        if parts.len() < 2 {
            proof {
                lemma_collect_pairs_fails(pieces.deep_view(), i as int);
            }
            return Err(());
        }
        let key = from_chars(&parts[0]);
        let value = from_chars(&parts[1]);
        assert(parts@[0]@ =~= parts.deep_view()[0]);
        assert(parts@[1]@ =~= parts.deep_view()[1]);
        insert(&mut params, key, value);
        i += 1;
    }
    assert(pieces.deep_view().take(i as int) =~= pieces.deep_view());
    Ok(params)
}

/// The parameters of a request. A query string that cannot be read counts
/// as none.
pub fn parse_maybe_query(query: Option<&str>) -> (out: Vec<(String, String)>)
    ensures
        out.deep_view() == request_params(query.deep_view()),
{
    match query {
        Some(text) => match parse_query(text) {
            Ok(params) => params,
            Err(_) => Vec::new(),
        },
        None => Vec::new(),
    }
}

/// Writes the parameters as a query string: each as `key=value`, with `&`
/// between them.
pub fn query_to_string(query: &Vec<(String, String)>) -> (out: String)
    ensures
        out@ == join_pairs(query.deep_view()),
{
    let mut out = String::new();
    let mut i: usize = 0;
    while i < query.len()
        invariant
            i <= query.len(),
            out@ == join_pairs(query.deep_view().take(i as int)),
        decreases query.len() - i,
    {
        let ghost seen = query.deep_view().take(i + 1);
        assert(seen.drop_last() =~= query.deep_view().take(i as int));
        if i > 0 {
            out.push('&');
        }
        out.append(query[i].0.as_str());
        out.push('=');
        out.append(query[i].1.as_str());
        i += 1;
    }
    assert(query.deep_view().take(i as int) =~= query.deep_view());
    out
}

/// Setting a parameter gives it the new value, leaves every other
/// parameter as it was, and adds at most one entry.
pub proof fn lemma_upsert_sets_one_parameter(
    params: Seq<(Seq<char>, Seq<char>)>,
    key: Seq<char>,
    value: Seq<char>,
)
    ensures
        lookup(upsert(params, key, value), key) == Some(value),
        forall|other: Seq<char>|
            other != key ==> #[trigger] lookup(upsert(params, key, value), other) == lookup(
                params,
                other,
            ),
        upsert(params, key, value).len() == if lookup(params, key) is Some {
            params.len()
        } else {
            params.len() + 1
        },
{
    let after = upsert(params, key, value);
    let at = key_index(params, key);
    lemma_first_where_is_first(params, has_key(key));
    lemma_first_where_unique(after, has_key(key), at);
    assert forall|other: Seq<char>| other != key implies #[trigger] lookup(after, other) == lookup(
        params,
        other,
    ) by {
        let there = key_index(params, other);
        lemma_first_where_is_first(params, has_key(other));
        let moved = if there < params.len() {
            there
        } else {
            after.len() as int
        };
        assert forall|j: int| 0 <= j < moved implies !has_key(other)(after[j]) by {
            if j < params.len() && j != at {
                assert(after[j] == params[j]);
            }
        }
        lemma_first_where_unique(after, has_key(other), moved);
    }
}

/// Setting a parameter keeps the keys distinct.
pub proof fn lemma_upsert_keeps_keys_distinct(
    params: Seq<(Seq<char>, Seq<char>)>,
    key: Seq<char>,
    value: Seq<char>,
)
    requires
        distinct_keys(params),
    ensures
        distinct_keys(upsert(params, key, value)),
{
    lemma_first_where_is_first(params, has_key(key));
}

/// The parameters read from a list of pieces have one entry for each key.
pub proof fn lemma_collected_keys_distinct(pieces: Seq<Seq<char>>)
    ensures
        collect_pairs(pieces) matches Some(params) ==> distinct_keys(params),
    decreases pieces.len(),
{
    if pieces.len() > 0 {
        lemma_collected_keys_distinct(pieces.drop_last());
        match (collect_pairs(pieces.drop_last()), parse_pair(pieces.last())) {
            (Some(params), Some(pair)) => {
                lemma_upsert_keeps_keys_distinct(params, pair.0, pair.1);
            },
            _ => {},
        }
    }
}

/// The parameters of a request have one entry for each key.
pub proof fn lemma_request_keys_distinct(query: Option<Seq<char>>)
    ensures
        distinct_keys(request_params(query)),
{
    if let Some(text) = query {
        lemma_collected_keys_distinct(split(text, '&'));
    }
}

/// Whether no key and no value of `params` holds a `&` or a `=`.
pub open spec fn plain(params: Seq<(Seq<char>, Seq<char>)>) -> bool {
    forall|i: int|
        0 <= i < params.len() ==> {
            &&& free_of((#[trigger] params[i]).0, '&')
            &&& free_of(params[i].0, '=')
            &&& free_of(params[i].1, '&')
            &&& free_of(params[i].1, '=')
        }
}

/// The parameters of `params` as they stand in a query string, one text
/// for each.
pub open spec fn pair_texts(params: Seq<(Seq<char>, Seq<char>)>) -> Seq<Seq<char>> {
    Seq::new(params.len(), |i: int| pair_text(params[i]))
}

/// A pair without `=` in its key and its value is read back from its text.
pub proof fn lemma_pair_reads_back(pair: (Seq<char>, Seq<char>))
    requires
        free_of(pair.0, '='),
        free_of(pair.1, '='),
    ensures
        parse_pair(pair_text(pair)) == Some(pair),
{
    lemma_split_last_piece(pair.0, pair.1, '=');
    lemma_split_whole(pair.0, '=');
}

/// The pieces of a query string written from plain parameters are the texts
/// of the parameters.
pub proof fn lemma_split_joined(params: Seq<(Seq<char>, Seq<char>)>)
    requires
        params.len() > 0,
        plain(params),
    ensures
        split(join_pairs(params), '&') == pair_texts(params),
    decreases params.len(),
{
    let last = params.last();
    if params.len() == 1 {
        lemma_split_whole(pair_text(last), '&');
    } else {
        let front = params.drop_last();
        lemma_split_joined(front);
        lemma_split_last_piece(join_pairs(front), pair_text(last), '&');
    }
}

/// Plain parameters with distinct keys are read back from their texts.
pub proof fn lemma_collect_reads_back(params: Seq<(Seq<char>, Seq<char>)>)
    requires
        distinct_keys(params),
        plain(params),
    ensures
        collect_pairs(pair_texts(params)) == Some(params),
    decreases params.len(),
{
    if params.len() > 0 {
        let front = params.drop_last();
        let last = params.last();
        lemma_collect_reads_back(front);
        assert(pair_texts(params).drop_last() =~= pair_texts(front));
        lemma_pair_reads_back(last);
        lemma_first_where_unique(front, has_key(last.0), front.len() as int);
    }
}

/// Writing parameters as a query string and reading the string gives the
/// parameters back, where there is at least one, their keys are distinct and
/// none of their keys and values holds a `&` or a `=`.
pub proof fn lemma_query_reads_back(params: Seq<(Seq<char>, Seq<char>)>)
    requires
        params.len() > 0,
        distinct_keys(params),
        plain(params),
    ensures
        parse_pairs(join_pairs(params)) == Some(params),
{
    lemma_split_joined(params);
    lemma_collect_reads_back(params);
}

/// Setting a parameter to a key and a value without `&` and `=` keeps the
/// parameters plain.
pub proof fn lemma_upsert_keeps_plain(
    params: Seq<(Seq<char>, Seq<char>)>,
    key: Seq<char>,
    value: Seq<char>,
)
    requires
        plain(params),
        free_of(key, '&'),
        free_of(key, '='),
        free_of(value, '&'),
        free_of(value, '='),
    ensures
        plain(upsert(params, key, value)),
{
    lemma_first_where_is_first(params, has_key(key));
}

/// The parameters read from pieces without `&` are plain.
pub proof fn lemma_collected_are_plain(pieces: Seq<Seq<char>>)
    requires
        forall|k: int| 0 <= k < pieces.len() ==> free_of(#[trigger] pieces[k], '&'),
    ensures
        collect_pairs(pieces) matches Some(params) ==> plain(params),
    decreases pieces.len(),
{
    if pieces.len() > 0 {
        lemma_collected_are_plain(pieces.drop_last());
        match (collect_pairs(pieces.drop_last()), parse_pair(pieces.last())) {
            (Some(params), Some(pair)) => {
                let parts = split(pieces.last(), '=');
                lemma_split_pieces(pieces.last(), '=', '&');
                lemma_upsert_keeps_plain(params, pair.0, pair.1);
            },
            _ => {},
        }
    }
}

/// The parameters of a request are plain: none of their keys and values
/// holds a `&` or a `=`.
pub proof fn lemma_request_params_are_plain(query: Option<Seq<char>>)
    ensures
        plain(request_params(query)),
{
    if let Some(text) = query {
        lemma_split_pieces(text, '&', '&');
        lemma_collected_are_plain(split(text, '&'));
    }
}

} // verus!
