//! The greatest common divisor: the Euclidean recurrence as a specification,
//! an iterative implementation, and the proof that the recurrence really
//! yields the greatest of the common divisors.

use vstd::prelude::*;

verus! {

use vstd::arithmetic::div_mod::lemma_fundamental_div_mod;
use vstd::arithmetic::div_mod::lemma_mod_multiples_vanish;
use vstd::arithmetic::div_mod::lemma_mod_self_0;
use vstd::arithmetic::div_mod::lemma_small_mod;

/// `d` divides `x`: `x` is a whole number of `d`s.
pub open spec fn divides(d: nat, x: nat) -> bool
    recommends
        d > 0,
{
    x % d == 0
}

/// The Euclidean recurrence: `gcd(a, 0) == a` and `gcd(a, b) == gcd(b, a % b)`.
pub open spec fn spec_gcd(a: nat, b: nat) -> nat
    decreases b,
{
    if b == 0 {
        a
    } else {
        spec_gcd(b, a % b)
    }
}

/// The recurrence does not care about the order of its arguments.
pub proof fn lemma_gcd_comm(a: nat, b: nat)
    ensures
        spec_gcd(a, b) == spec_gcd(b, a),
{
    if a == 0 && b == 0 {
    } else if b == 0 {
        lemma_small_mod(0, a);
    } else if a == 0 {
        lemma_small_mod(0, b);
    } else if a == b {
        lemma_mod_self_0(a as int);
    } else if a < b {
        lemma_small_mod(a, b);
    } else {
        lemma_small_mod(b, a);
    }
}

/// A pair with one positive member has a positive greatest common divisor.
pub proof fn lemma_gcd_pos(a: nat, b: nat)
    requires
        a > 0,
    ensures
        spec_gcd(a, b) > 0,
    decreases b,
{
    if b != 0 {
        lemma_gcd_pos(b, a % b);
    }
}

/// A positive divisor of a positive number is no larger than it.
proof fn lemma_divisor_le(d: nat, x: nat)
    requires
        d > 0,
        x > 0,
        divides(d, x),
    ensures
        d <= x,
{
    if d > x {
        lemma_small_mod(x, d);
    }
}

/// A common divisor of `b` and `a % b` also divides `a`.
proof fn lemma_divides_recombine(d: nat, a: nat, b: nat)
    requires
        d > 0,
        b > 0,
        divides(d, b),
        divides(d, a % b),
    ensures
        divides(d, a),
{
    lemma_fundamental_div_mod(a as int, b as int);
    lemma_fundamental_div_mod(b as int, d as int);
    lemma_fundamental_div_mod((a % b) as int, d as int);
    let q = a as int / b as int;
    let k1 = b as int / d as int;
    let k2 = (a % b) as int / d as int;
    assert(a as int == d as int * (k1 * q + k2)) by (nonlinear_arith)
        requires
            a as int == b as int * q + (a % b) as int,
            b as int == d as int * k1,
            (a % b) as int == d as int * k2,
    ;
    lemma_mod_multiples_vanish(k1 * q + k2, 0, d as int);
    lemma_small_mod(0, d);
}

/// A common divisor of `a` and `b` also divides `a % b`.
proof fn lemma_divides_mod(d: nat, a: nat, b: nat)
    requires
        d > 0,
        b > 0,
        divides(d, a),
        divides(d, b),
    ensures
        divides(d, a % b),
{
    lemma_fundamental_div_mod(a as int, b as int);
    lemma_fundamental_div_mod(a as int, d as int);
    lemma_fundamental_div_mod(b as int, d as int);
    let q = a as int / b as int;
    let k1 = a as int / d as int;
    let k2 = b as int / d as int;
    assert((a % b) as int == d as int * (k1 - k2 * q)) by (nonlinear_arith)
        requires
            a as int == b as int * q + (a % b) as int,
            a as int == d as int * k1,
            b as int == d as int * k2,
    ;
    lemma_mod_multiples_vanish(k1 - k2 * q, 0, d as int);
    lemma_small_mod(0, d);
}

/// `spec_gcd(a, b)` is a common divisor of `a` and `b`, and every common
/// divisor is no larger: it is the greatest common divisor.
pub proof fn lemma_gcd_is_greatest_common_divisor(a: nat, b: nat)
    requires
        a > 0,
    ensures
        spec_gcd(a, b) > 0,
        divides(spec_gcd(a, b), a),
        divides(spec_gcd(a, b), b),
        forall|d: nat| d > 0 && divides(d, a) && divides(d, b) ==> d <= spec_gcd(a, b),
    decreases b,
{
    let g = spec_gcd(a, b);
    lemma_gcd_pos(a, b);
    if b == 0 {
        lemma_mod_self_0(a as int);
        lemma_small_mod(0, a);
        assert forall|d: nat| d > 0 && divides(d, a) && divides(d, b) implies d <= g by {
            lemma_divisor_le(d, a);
        }
    } else {
        lemma_gcd_is_greatest_common_divisor(b, a % b);
        lemma_divides_recombine(g, a, b);
        assert forall|d: nat| d > 0 && divides(d, a) && divides(d, b) implies d <= g by {
            lemma_divides_mod(d, a, b);
        }
    }
}

/// Divisibility runs through a middle term.
proof fn lemma_divides_trans(a: nat, b: nat, c: nat)
    requires
        a > 0,
        b > 0,
        divides(a, b),
        divides(b, c),
    ensures
        divides(a, c),
{
    lemma_fundamental_div_mod(b as int, a as int);
    lemma_fundamental_div_mod(c as int, b as int);
    let k1 = b as int / a as int;
    let k2 = c as int / b as int;
    assert(c as int == a as int * (k1 * k2)) by (nonlinear_arith)
        requires
            b as int == a as int * k1,
            c as int == b as int * k2,
    ;
    lemma_mod_multiples_vanish(k1 * k2, 0, a as int);
    lemma_small_mod(0, a);
}

/// A common divisor of `a` and `b` divides their greatest common divisor.
pub proof fn lemma_common_divisor_divides_gcd(d: nat, a: nat, b: nat)
    requires
        d > 0,
        divides(d, a),
        divides(d, b),
    ensures
        divides(d, spec_gcd(a, b)),
    decreases b,
{
    if b == 0 {
    } else {
        lemma_divides_mod(d, a, b);
        lemma_common_divisor_divides_gcd(d, b, a % b);
    }
}

/// The greatest common divisor of a number and itself is that number.
pub proof fn lemma_gcd_self(a: u64)
    ensures
        spec_gcd(a as nat, a as nat) == a,
{
    if a > 0 {
        lemma_mod_self_0(a as int);
        assert(spec_gcd(a as nat, 0) == a);
        assert(spec_gcd(a as nat, a as nat) == spec_gcd(a as nat, (a as nat) % (a as nat)));
    }
}

/// Iterative Euclidean algorithm: repeatedly swap so the larger operand is
/// reduced modulo the smaller, until the remainder is zero.
pub fn gcd(n: u64, m: u64) -> (r: u64)
    requires
        n != 0,
        m != 0,
    ensures
        r == spec_gcd(n as nat, m as nat),
        r != 0,
{
    let mut n = n;
    let mut m = m;
    let ghost g: nat = spec_gcd(n as nat, m as nat);
    while m != 0
        invariant
            n > 0,
            spec_gcd(n as nat, m as nat) == g,
        decreases m,
    {
        if m < n {
            let t = m;
            m = n;
            n = t;
            proof {
                lemma_gcd_comm(t as nat, m as nat);
            }
        }
        proof {
            lemma_gcd_comm(n as nat, m as nat);
            assert(spec_gcd(m as nat, n as nat) == spec_gcd(n as nat, (m % n) as nat));
        }
        m = m % n;
    }
    n
}

/// The left-to-right reduction of a list by `spec_gcd`, seeded with its
/// first element. Empty lists are given the value 0; callers rule them out.
pub open spec fn spec_gcd_fold(ns: Seq<u64>) -> nat
    recommends
        ns.len() >= 1,
    decreases ns.len(),
{
    if ns.len() == 0 {
        0
    } else if ns.len() == 1 {
        ns[0] as nat
    } else {
        spec_gcd(spec_gcd_fold(ns.drop_last()), ns.last() as nat)
    }
}

/// Reduces a non-empty list with pairwise `gcd`, left to right, seeding with
/// the first element. A list of two or more may hold no zero, since `gcd`
/// admits none; a single element is returned as it is.
pub fn gcd_of_list(ns: &Vec<u64>) -> (r: u64)
    requires
        ns@.len() >= 1,
        ns@.len() >= 2 ==> forall|i: int| 0 <= i < ns@.len() ==> ns@[i] != 0,
    ensures
        r == spec_gcd_fold(ns@),
{
    let mut d = ns[0];
    let mut i: usize = 1;
    while i < ns.len()
        invariant
            1 <= i <= ns@.len(),
            d == spec_gcd_fold(ns@.take(i as int)),
            ns@.len() >= 2 ==> forall|j: int| 0 <= j < ns@.len() ==> ns@[j] != 0,
            i < ns@.len() ==> d != 0,
        decreases ns@.len() - i,
    {
        d = gcd(d, ns[i]);
        proof {
            assert(ns@.take(i + 1).drop_last() =~= ns@.take(i as int));
            assert(ns@.take(i + 1).last() == ns@[i as int]);
        }
        i = i + 1;
    }
    proof {
        assert(ns@.take(ns@.len() as int) =~= ns@);
    }
    d
}

/// The reduction of a list of positive numbers is the greatest common
/// divisor of them all: it divides every member, and every common divisor
/// of the members divides it, so none is larger.
pub proof fn lemma_gcd_fold_is_gcd_of_all(ns: Seq<u64>)
    requires
        ns.len() >= 1,
        forall|i: int| 0 <= i < ns.len() ==> ns[i] != 0,
    ensures
        spec_gcd_fold(ns) > 0,
        forall|i: int| 0 <= i < ns.len() ==> divides(spec_gcd_fold(ns), ns[i] as nat),
        forall|d: nat|
            d > 0 && (forall|i: int| 0 <= i < ns.len() ==> divides(d, ns[i] as nat)) ==> divides(
                d,
                spec_gcd_fold(ns),
            ) && d <= spec_gcd_fold(ns),
    decreases ns.len(),
{
    let g = spec_gcd_fold(ns);
    if ns.len() == 1 {
        lemma_mod_self_0(ns[0] as int);
        assert forall|d: nat|
            d > 0 && (forall|i: int| 0 <= i < ns.len() ==> divides(d, ns[i] as nat)) implies divides(
            d,
            g,
        ) && d <= g by {
            assert(divides(d, ns[0] as nat));
            lemma_divisor_le(d, ns[0] as nat);
        }
    } else {
        let rest = ns.drop_last();
        let p = spec_gcd_fold(rest);
        lemma_gcd_fold_is_gcd_of_all(rest);
        lemma_gcd_is_greatest_common_divisor(p, ns.last() as nat);
        assert forall|i: int| 0 <= i < ns.len() implies divides(g, ns[i] as nat) by {
            if i < ns.len() - 1 {
                assert(divides(p, rest[i] as nat));
                lemma_divides_trans(g, p, ns[i] as nat);
            }
        }
        assert forall|d: nat|
            d > 0 && (forall|i: int| 0 <= i < ns.len() ==> divides(d, ns[i] as nat)) implies divides(
            d,
            g,
        ) && d <= g by {
            assert(forall|i: int| 0 <= i < rest.len() ==> divides(d, rest[i] as nat));
            assert(divides(d, p));
            assert(divides(d, ns.last() as nat));
            lemma_common_divisor_divides_gcd(d, p, ns.last() as nat);
            lemma_divisor_le(d, g);
        }
    }
}

} // verus!
