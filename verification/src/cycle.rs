use vstd::prelude::*;
use vstd::arithmetic::div_mod::{
    lemma_add_mod_noop, lemma_fundamental_div_mod, lemma_fundamental_div_mod_converse,
    lemma_mod_bound, lemma_mod_self_0, lemma_small_mod,
};

verus! {

/// Counting on by one moves the remainder on by one, or wraps it to 0.
pub proof fn lemma_succ_mod(count: nat, length: nat)
    requires
        length >= 1,
    ensures
        (count + 1) as int % (length as int) == if count % length + 1 == length {
            0
        } else {
            count % length + 1
        },
        count % length < length,
{
    let m = length as int;
    lemma_mod_bound(count as int, m);
    lemma_mod_bound((count + 1) as int, m);
    if length > 1 {
        let r = count % length;
        lemma_add_mod_noop(count as int, 1, m);
        lemma_small_mod(1, length);
        if r + 1 == length {
            lemma_mod_self_0(m);
        } else {
            lemma_small_mod((r + 1) as nat, length);
        }
    }
}

/// The position that follows `position` on a ring of `length` positions:
/// the next one, and after the last one the first.
pub open spec fn step_round(position: nat, length: nat) -> nat {
    if position + 1 >= length {
        0
    } else {
        position + 1
    }
}

/// Stepping round a ring is adding one modulo its length.
pub proof fn lemma_step_wraps(position: nat, length: nat)
    requires
        position < length,
    ensures
        step_round(position, length) == (position + 1) as int % (length as int),
        step_round(position, length) < length,
{
    lemma_small_mod(position, length);
    lemma_succ_mod(position, length);
}

/// A count with a non-zero remainder is at least that remainder, and a
/// positive count with remainder 0 is at least the length.
pub proof fn lemma_count_reaches_remainder(count: nat, length: nat)
    requires
        length >= 1,
        count >= 1,
    ensures
        count % length != 0 ==> count >= count % length,
        count % length == 0 ==> count >= length,
        count < length ==> count % length == count,
        count == length ==> count % length == 0,
{
    let m = length as int;
    lemma_mod_bound(count as int, m);
    if count < length {
        lemma_small_mod(count, length);
    } else if count == length {
        lemma_mod_self_0(m);
    }
    vstd::arithmetic::div_mod::lemma_mod_decreases(count, length);
}

/// How many of the first `upto` entries of a trigger stream are firings.
pub open spec fn firings(inputs: Seq<bool>, upto: nat) -> nat
    decreases upto,
{
    if upto == 0 {
        0
    } else {
        firings(inputs, (upto - 1) as nat) + if inputs[upto - 1] {
            1nat
        } else {
            0nat
        }
    }
}

/// Counting on by one raises the quotient by one exactly when the new count
/// is a multiple of the length.
pub proof fn lemma_succ_div(count: nat, length: nat)
    requires
        length >= 1,
    ensures
        (count + 1) as int / (length as int) == count as int / (length as int) + if (count + 1)
            as int % (length as int) == 0 {
            1int
        } else {
            0int
        },
{
    let m = length as int;
    let q = count as int / m;
    let r = count as int % m;
    lemma_fundamental_div_mod(count as int, m);
    lemma_mod_bound(count as int, m);
    lemma_succ_mod(count, length);
    assert(m * (q + 1) == m * q + m) by (nonlinear_arith);
    assert(m * q == q * m) by (nonlinear_arith);
    assert(m * (q + 1) == (q + 1) * m) by (nonlinear_arith);
    if r + 1 == m {
        lemma_fundamental_div_mod_converse((count + 1) as int, m, q + 1, 0);
    } else {
        lemma_fundamental_div_mod_converse((count + 1) as int, m, q, r + 1);
    }
}

} // verus!
