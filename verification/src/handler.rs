//! The computation handler: parse the form body, validate the `n` values,
//! reduce them by the greatest common divisor, and render the answer.
//!
//! `spec_post_gcd` pins the whole response — status, content kind and body
//! text — as a function of the request body; `post_gcd` is proved to return
//! exactly that. The one body it answers with nothing for is the one the
//! arithmetic admits no answer to: two or more numbers among which a zero
//! stands; the caller decides what failing loudly looks like there.

use vstd::prelude::*;

verus! {

use crate::decimal::parse_u64;
use crate::decimal::spec_dec_str;
use crate::decimal::spec_parse_u64;
use crate::decimal::u64_to_string;
use crate::form::debug_quote;
use crate::form::form_pairs_of;
use crate::form::parse_form;
use crate::form::spec_values_for;
use crate::form::str_debug_of;
use crate::form::values_for;
use crate::gcd::gcd_of_list;
use crate::gcd::spec_gcd_fold;
use crate::http::HttpResponse;
use crate::http::RespModel;
use vstd::string::StringExecFns;

/// The first value among `vs` that does not parse as a `u64`, if any.
pub open spec fn spec_first_bad(vs: Seq<Seq<char>>) -> Option<Seq<char>>
    decreases vs.len(),
{
    if vs.len() == 0 {
        None
    } else if spec_parse_u64(vs[0]) is None {
        Some(vs[0])
    } else {
        spec_first_bad(vs.drop_first())
    }
}

/// The values of `vs` parsed as `u64`s, in order; meaningful when none is bad.
pub open spec fn spec_parsed_all(vs: Seq<Seq<char>>) -> Seq<u64>
    recommends
        spec_first_bad(vs) is None,
    decreases vs.len(),
{
    if vs.len() == 0 {
        Seq::empty()
    } else {
        seq![spec_parse_u64(vs[0]).unwrap()] + spec_parsed_all(vs.drop_first())
    }
}

/// The comma-separated decimal texts of the numbers of `ns`.
pub open spec fn spec_list_items(ns: Seq<u64>) -> Seq<char>
    decreases ns.len(),
{
    if ns.len() == 0 {
        Seq::empty()
    } else if ns.len() == 1 {
        spec_dec_str(ns[0] as nat)
    } else {
        spec_list_items(ns.drop_last()) + ", "@ + spec_dec_str(ns.last() as nat)
    }
}

/// The numbers of `ns` between brackets, comma-separated: `[12, 18]`.
pub open spec fn spec_list_str(ns: Seq<u64>) -> Seq<char> {
    "["@ + spec_list_items(ns) + "]"@
}

/// Renders a list of numbers as `spec_list_str` describes.
pub fn render_list(ns: &Vec<u64>) -> (r: String)
    ensures
        r@ == spec_list_str(ns@),
{
    let mut s = String::from_str("[");
    proof {
        assert(ns@.take(0) =~= Seq::<u64>::empty());
        assert(s@ =~= "["@ + spec_list_items(ns@.take(0)));
    }
    let mut i: usize = 0;
    while i < ns.len()
        invariant
            0 <= i <= ns@.len(),
            s@ == "["@ + spec_list_items(ns@.take(i as int)),
        decreases ns@.len() - i,
    {
        if i > 0 {
            s.append(", ");
        }
        let d = u64_to_string(ns[i]);
        s.append(d.as_str());
        proof {
            assert(ns@.take(i + 1).drop_last() =~= ns@.take(i as int));
            assert(ns@.take(i + 1).last() == ns@[i as int]);
            if i == 0 {
                assert(s@ =~= "["@ + spec_list_items(ns@.take(1)));
            } else {
                assert(s@ =~= "["@ + (spec_list_items(ns@.take(i as int)) + ", "@ + spec_dec_str(
                    ns@[i as int] as nat,
                )));
            }
        }
        i = i + 1;
    }
    proof {
        assert(ns@.take(ns@.len() as int) =~= ns@);
    }
    let r = s.concat("]");
    proof {
        assert(r@ =~= "["@ + spec_list_items(ns@) + "]"@);
    }
    r
}

/// What the computation handler answers on a given request body.
///
/// An empty body is a decoding error, as form decoding treats an empty
/// query; a body without an `n` field, or with one that is not a number,
/// earns a 400 with the matching diagnostic; otherwise the answer reports
/// the numbers and their greatest common divisor. Nothing is answered only
/// when two or more numbers arrive and a zero stands among them: the
/// arithmetic's precondition excludes that list.
pub open spec fn spec_post_gcd(body: Seq<char>) -> Option<RespModel> {
    if body.len() == 0 {
        Some(
            RespModel {
                status: 400,
                html: false,
                body: "Error parsing form data: EmptyQuery\n"@,
            },
        )
    } else {
        let vs = spec_values_for(form_pairs_of(body), "n"@);
        if vs.len() == 0 {
            Some(RespModel { status: 400, html: false, body: "Form data has no 'n' parameter\n"@ })
        } else if spec_first_bad(vs) is Some {
            Some(
                RespModel {
                    status: 400,
                    html: false,
                    body: "Value for 'n' parameter not a number: "@ + str_debug_of(
                        spec_first_bad(vs).unwrap(),
                    ) + "\n"@,
                },
            )
        } else {
            let ns = spec_parsed_all(vs);
            if ns.len() >= 2 && (exists|k: int| 0 <= k < ns.len() && ns[k] == 0) {
                None
            } else {
                Some(
                    RespModel {
                        status: 200,
                        html: true,
                        body: "The greatest common divisor of the numbers "@ + spec_list_str(ns)
                            + " is <b>"@ + spec_dec_str(spec_gcd_fold(ns)) + "</b>\n"@,
                    },
                )
            }
        }
    }
}

/// The computation handler. Returns exactly the response `spec_post_gcd`
/// describes, and nothing in the one case that specification leaves
/// unanswered.
pub fn post_gcd(body: &str) -> (r: Option<HttpResponse>)
    ensures
        match r {
            Some(resp) => spec_post_gcd(body@) == Some(resp@),
            None => spec_post_gcd(body@) is None,
        },
{
    if body.is_empty() {
        return Some(
            HttpResponse {
                status: 400,
                html: false,
                body: String::from_str("Error parsing form data: EmptyQuery\n"),
            },
        );
    }
    let pairs = parse_form(body);
    let vals = values_for(&pairs, "n");
    let ghost vs: Seq<Seq<char>> = spec_values_for(form_pairs_of(body@), "n"@);
    proof {
        assert(vals.deep_view() == vs);
        assert(vals@.len() == vs.len());
    }
    if vals.len() == 0 {
        return Some(
            HttpResponse {
                status: 400,
                html: false,
                body: String::from_str("Form data has no 'n' parameter\n"),
            },
        );
    }
    let mut numbers: Vec<u64> = Vec::new();
    let mut i: usize = 0;
    proof {
        assert(vs.skip(0) =~= vs);
        assert(numbers@ + spec_parsed_all(vs) =~= spec_parsed_all(vs));
    }
    while i < vals.len()
        invariant
            0 <= i <= vals@.len(),
            body@.len() != 0,
            vs == spec_values_for(form_pairs_of(body@), "n"@),
            vs.len() >= 1,
            vals.deep_view() == vs,
            vals@.len() == vs.len(),
            forall|j: int| 0 <= j < i ==> spec_parse_u64(vs[j]) is Some,
            spec_first_bad(vs) == spec_first_bad(vs.skip(i as int)),
            numbers@.len() == i,
            spec_parsed_all(vs) == numbers@ + spec_parsed_all(vs.skip(i as int)),
        decreases vals@.len() - i,
    {
        proof {
            assert(vals.deep_view()[i as int] == vals@[i as int]@);
            assert(vs.skip(i as int)[0] == vs[i as int]);
            assert(vs.skip(i as int).drop_first() =~= vs.skip(i + 1));
        }
        match parse_u64(vals[i].as_str()) {
            None => {
                let q = debug_quote(vals[i].as_str());
                let mut msg = String::from_str("Value for 'n' parameter not a number: ");
                msg.append(q.as_str());
                msg.append("\n");
                proof {
                    assert(spec_first_bad(vs) == Some(vs[i as int]));
                    assert(msg@ =~= "Value for 'n' parameter not a number: "@ + str_debug_of(
                        vs[i as int],
                    ) + "\n"@);
                }
                return Some(HttpResponse { status: 400, html: false, body: msg });
            },
            Some(n) => {
                let ghost prev: Seq<u64> = numbers@;
                numbers.push(n);
                proof {
                    assert(numbers@ =~= prev + seq![n]);
                    assert(spec_parsed_all(vs.skip(i as int)) == seq![n] + spec_parsed_all(
                        vs.skip(i + 1),
                    ));
                    assert((prev + seq![n]) + spec_parsed_all(vs.skip(i + 1)) =~= prev + (seq![n]
                        + spec_parsed_all(vs.skip(i + 1))));
                }
            },
        }
        i = i + 1;
    }
    proof {
        assert(vs.skip(vs.len() as int) =~= Seq::<Seq<char>>::empty());
        assert(spec_first_bad(vs) is None);
        assert(numbers@ + spec_parsed_all(vs.skip(vs.len() as int)) =~= numbers@);
        assert(numbers@ == spec_parsed_all(vs));
    }
    let mut has_zero = false;
    let mut j: usize = 0;
    while j < numbers.len()
        invariant
            0 <= j <= numbers@.len(),
            has_zero == (exists|k: int| 0 <= k < j && numbers@[k] == 0),
        decreases numbers@.len() - j,
    {
        if numbers[j] == 0 {
            has_zero = true;
            proof {
                assert(numbers@[j as int] == 0);
            }
        }
        j = j + 1;
    }
    if numbers.len() >= 2 && has_zero {
        return None;
    }
    let d = gcd_of_list(&numbers);
    let list_text = render_list(&numbers);
    let dec = u64_to_string(d);
    let mut msg = String::from_str("The greatest common divisor of the numbers ");
    msg.append(list_text.as_str());
    msg.append(" is <b>");
    msg.append(dec.as_str());
    msg.append("</b>\n");
    proof {
        assert(msg@ =~= "The greatest common divisor of the numbers "@ + spec_list_str(numbers@)
            + " is <b>"@ + spec_dec_str(spec_gcd_fold(numbers@)) + "</b>\n"@);
    }
    Some(HttpResponse { status: 200, html: true, body: msg })
}

} // verus!
