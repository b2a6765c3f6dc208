//! The model catalog: reading model names out of a discovery listing.
use vstd::prelude::*;
use crate::text::{
    chars_of, is_space, is_space_char, lines, skip_lead, slice, split_lines, string_of,
    string_views, views,
};

verus! {

broadcast use vstd::string::group_string_axioms;

/// End of the run of non-space characters that starts at `i`.
pub open spec fn token_end(l: Seq<char>, i: int) -> int
    decreases l.len() - i,
{
    if 0 <= i < l.len() && !is_space(l[i]) {
        token_end(l, i + 1)
    } else {
        i
    }
}

/// The first whitespace-delimited token of a line, if it has one.
pub open spec fn first_token(l: Seq<char>) -> Option<Seq<char>> {
    let a = skip_lead(l, 0);
    if a < l.len() {
        Some(l.subrange(a, token_end(l, a)))
    } else {
        None
    }
}

/// The first tokens of the lines that have one.
pub open spec fn first_tokens(ls: Seq<Seq<char>>) -> Seq<Seq<char>>
    decreases ls.len(),
{
    if ls.len() == 0 {
        seq![]
    } else {
        match first_token(ls.last()) {
            Some(t) => first_tokens(ls.drop_last()).push(t),
            None => first_tokens(ls.drop_last()),
        }
    }
}

/// The model names in a discovery listing: the first token of every line
/// after the header line.
pub open spec fn model_names(listing: Seq<char>) -> Seq<Seq<char>> {
    let ls = lines(listing);
    if ls.len() == 0 {
        seq![]
    } else {
        first_tokens(ls.subrange(1, ls.len() as int))
    }
}

fn first_token_exec(l: &Vec<char>) -> (r: Option<Vec<char>>)
    ensures
        match r {
            Some(t) => first_token(l@) == Some(t@),
            None => first_token(l@) is None,
        },
{
    let n = l.len();
    let mut a: usize = 0;
    while a < n && is_space_char(l[a])
        invariant
            a <= n == l.len(),
            skip_lead(l@, a as int) == skip_lead(l@, 0),
        decreases n - a,
    {
        a = a + 1;
    }
    if a >= n {
        return None;
    }
    let mut e: usize = a;
    while e < n && !is_space_char(l[e])
        invariant
            a <= e <= n == l.len(),
            token_end(l@, e as int) == token_end(l@, a as int),
        decreases n - e,
    {
        e = e + 1;
    }
    Some(slice(l, a, e))
}

/// The model names that a discovery listing advertises.
pub fn parse_model_list(listing: &str) -> (r: Vec<String>)
    ensures
        string_views(r@) == model_names(listing@),
{
    let v = chars_of(listing);
    let ls = split_lines(&v);
    let ghost all = views(ls@);
    let mut r: Vec<String> = Vec::new();
    if ls.len() == 0 {
        return r;
    }
    let ghost rest = all.subrange(1, all.len() as int);
    let mut k: usize = 1;
    while k < ls.len()
        invariant
            1 <= k <= ls.len(),
            all == views(ls@),
            rest == all.subrange(1, all.len() as int),
            string_views(r@) == first_tokens(rest.take(k - 1)),
        decreases ls.len() - k,
    {
        assert(rest.take(k as int).drop_last() =~= rest.take(k - 1));
        assert(rest.take(k as int).last() == ls@[k as int]@);
        match first_token_exec(&ls[k]) {
            Some(t) => {
                let ghost before = string_views(r@);
                r.push(string_of(&t));
                assert(string_views(r@) =~= before.push(t@));
            },
            None => {},
        }
        k = k + 1;
    }
    assert(rest.take(k - 1) =~= rest);
    r
}

} // verus!
