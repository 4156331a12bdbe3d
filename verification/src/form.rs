//! URL-encoded form data: the decoded (name, value) pairs of a body, and the
//! values that belong to one parameter name.
//!
//! Decoding itself — splitting on `&` and `=`, percent-decoding, `+` to
//! space — is the `url` crate's work, reached through one trusted wrapper;
//! everything after the pairs are in hand is verified.

use vstd::prelude::*;

verus! {

use crate::text::str_eq;

/// What the `url` crate's form parsing yields on a given text: the decoded
/// (name, value) pairs, in the order they stand in the text. The text alone
/// decides them.
pub uninterp spec fn form_pairs_of(s: Seq<char>) -> Seq<(Seq<char>, Seq<char>)>;

/// Relies on `url::form_urlencoded::parse`: it turns a body in the
/// `application/x-www-form-urlencoded` syntax into the decoded (name, value)
/// pairs, a function of the bytes alone.
#[verifier::external_body]
pub(crate) fn parse_form(body: &str) -> (r: Vec<(String, String)>)
    ensures
        r.deep_view() == form_pairs_of(body@),
{
    url::form_urlencoded::parse(body.as_bytes()).into_owned().collect()
}

/// What std's `Debug` formatting yields for a string slice: the text quoted
/// and escaped, a function of the characters alone.
pub uninterp spec fn str_debug_of(s: Seq<char>) -> Seq<char>;

/// Relies on std's `Debug` formatting for `str`, reached through `format!`:
/// the quoted, escaped text of `s`.
#[verifier::external_body]
pub(crate) fn debug_quote(s: &str) -> (r: String)
    ensures
        r@ == str_debug_of(s@),
{
    format!("{:?}", s)
}

/// The values among `ps` whose name is `key`, in order.
pub open spec fn spec_values_for(ps: Seq<(Seq<char>, Seq<char>)>, key: Seq<char>) -> Seq<Seq<char>>
    decreases ps.len(),
{
    if ps.len() == 0 {
        Seq::empty()
    } else {
        let rest = spec_values_for(ps.drop_first(), key);
        if ps[0].0 == key {
            seq![ps[0].1] + rest
        } else {
            rest
        }
    }
}

/// Collects the values among `pairs` whose name is `key`, in order.
pub fn values_for(pairs: &Vec<(String, String)>, key: &str) -> (r: Vec<String>)
    ensures
        r.deep_view() == spec_values_for(pairs.deep_view(), key@),
{
    let ghost ps: Seq<(Seq<char>, Seq<char>)> = pairs.deep_view();
    let mut out: Vec<String> = Vec::new();
    let mut i: usize = 0;
    proof {
        assert(ps.skip(0) =~= ps);
        assert(out.deep_view() + spec_values_for(ps, key@) =~= spec_values_for(ps, key@));
    }
    while i < pairs.len()
        invariant
            0 <= i <= pairs@.len(),
            ps == pairs.deep_view(),
            ps.len() == pairs@.len(),
            spec_values_for(ps, key@) == out.deep_view() + spec_values_for(ps.skip(i as int), key@),
        decreases pairs@.len() - i,
    {
        proof {
            assert(ps.skip(i as int).drop_first() =~= ps.skip(i + 1));
            assert(ps.skip(i as int)[0] == ps[i as int]);
            assert(ps[i as int] == (pairs@[i as int].0@, pairs@[i as int].1@));
        }
        if str_eq(pairs[i].0.as_str(), key) {
            let ghost prev: Seq<Seq<char>> = out.deep_view();
            let v: String = pairs[i].1.clone();
            out.push(v);
            proof {
                assert(out.deep_view() =~= prev + seq![ps[i as int].1]);
                assert((prev + seq![ps[i as int].1]) + spec_values_for(ps.skip(i + 1), key@)
                    =~= prev + (seq![ps[i as int].1] + spec_values_for(ps.skip(i + 1), key@)));
            }
        }
        i = i + 1;
    }
    proof {
        assert(ps.skip(ps.len() as int) =~= Seq::<(Seq<char>, Seq<char>)>::empty());
        assert(out.deep_view() + Seq::<Seq<char>>::empty() =~= out.deep_view());
    }
    out
}

} // verus!
