//! Digit strings: removing separators and computing their value.

use vstd::prelude::*;
use crate::chars::{digit_value, digit_value_of};
use crate::lexspec::{digits_value, strip_underscores};

verus! {

/// The characters `cs[from..to]` without `_` separators.
pub fn strip_separators(cs: &Vec<char>, from: usize, to: usize) -> (r: Vec<char>)
    requires
        from <= to <= cs.len(),
    ensures
        r@ == strip_underscores(cs@.subrange(from as int, to as int)),
{
    let mut out: Vec<char> = Vec::new();
    let mut i = from;
    assert(cs@.subrange(from as int, from as int).len() == 0);
    while i < to
        invariant
            from <= i <= to <= cs.len(),
            out@ == strip_underscores(cs@.subrange(from as int, i as int)),
        decreases to - i,
    {
        let ghost t = cs@.subrange(from as int, i + 1);
        assert(t.drop_last() =~= cs@.subrange(from as int, i as int));
        assert(t.last() == cs@[i as int]);
        if cs[i] != '_' {
            out.push(cs[i]);
        }
        i = i + 1;
    }
    out
}

proof fn lemma_digits_value_grows(t: Seq<char>, i: int, j: int, radix: nat)
    requires
        0 <= i <= j <= t.len(),
        radix >= 1,
    ensures
        digits_value(t.take(i), radix) <= digits_value(t.take(j), radix),
    decreases j - i,
{
    if i < j {
        lemma_digits_value_grows(t, i, j - 1, radix);
        let v = digits_value(t.take(j - 1), radix);
        assert(t.take(j).drop_last() =~= t.take(j - 1));
        assert(v * radix >= v) by (nonlinear_arith)
            requires
                radix >= 1,
        ;
    }
}

/// The value of the digit string `ds` in base `radix`, or `None` when it
/// exceeds `i64::MAX`.
pub fn digits_to_i64(ds: &Vec<char>, radix: u32) -> (r: Option<i64>)
    requires
        2 <= radix <= 36,
    ensures
        r is None <==> digits_value(ds@, radix as nat) > i64::MAX,
        r matches Some(v) ==> v == digits_value(ds@, radix as nat),
{
    let mut acc: u64 = 0;
    let mut i: usize = 0;
    assert(ds@.take(0).len() == 0);
    while i < ds.len()
        invariant
            2 <= radix <= 36,
            i <= ds.len(),
            acc == digits_value(ds@.take(i as int), radix as nat),
            acc <= i64::MAX,
        decreases ds.len() - i,
    {
        let d = digit_value_of(ds[i]);
        let ghost t = ds@.take(i + 1);
        assert(t.drop_last() =~= ds@.take(i as int));
        assert(t.last() == ds@[i as int]);
        let a = acc as u128;
        assert(a * (radix as u128) <= 36 * 9223372036854775807) by (nonlinear_arith)
            requires
                a <= 9223372036854775807,
                radix <= 36,
        ;
        let next: u128 = a * (radix as u128) + (d as u128);
        if next > 9223372036854775807u128 {
            proof {
                lemma_digits_value_grows(ds@, i + 1, ds@.len() as int, radix as nat);
                assert(ds@.take(ds@.len() as int) =~= ds@);
            }
            return None;
        }
        acc = next as u64;
        i = i + 1;
    }
    assert(ds@.take(ds@.len() as int) =~= ds@);
    Some(acc as i64)
}

} // verus!
