//! The scalar field of the Ristretto group, modelled over mathematical
//! integers: byte strings read as little-endian values, reduction modulo the
//! group order, and the arithmetic lemmas the protocol proofs need.

use vstd::arithmetic::div_mod::{
    lemma_add_mod_noop_right, lemma_mod_multiples_vanish, lemma_small_mod, lemma_sub_mod_noop,
};
use vstd::prelude::*;

verus! {

/// The order of the Ristretto group: the prime
/// 2^252 + 27742317777372353535851937790883648493.
pub open spec fn group_order() -> nat {
    7237005577332262213973186563042994240857116359379907606001950938285454250989nat
}

/// The value of a byte string read as a little-endian integer.
pub open spec fn le_value(s: Seq<u8>) -> nat
    decreases s.len(),
{
    if s.len() == 0 {
        0
    } else {
        s[0] as nat + 256 * le_value(s.drop_first())
    }
}

/// A canonical scalar encoding: 32 bytes whose value is already reduced.
pub open spec fn canonical_scalar(s: Seq<u8>) -> bool {
    s.len() == 32 && le_value(s) < group_order()
}

/// The scalar a 32-byte challenge is interpreted as: its little-endian value
/// reduced modulo the group order.
pub open spec fn challenge_scalar(c: Seq<u8>) -> nat {
    le_value(c) % group_order()
}

/// The scalar field of a prime-order group has no zero divisors. This is
/// exactly Euclid's lemma for the group order; primality of the 253-bit
/// order is taken as a hypothesis by the soundness lemmas that need it
/// rather than established here.
pub open spec fn order_has_no_zero_divisors() -> bool {
    forall|a: nat, b: nat|
        #[trigger] ((a * b) % group_order()) == 0 ==> a % group_order() == 0 || b % group_order()
            == 0
}

/// A byte string is determined by its length and little-endian value.
pub proof fn lemma_le_value_injective(a: Seq<u8>, b: Seq<u8>)
    requires
        a.len() == b.len(),
        le_value(a) == le_value(b),
    ensures
        a == b,
    decreases a.len(),
{
    if a.len() == 0 {
        assert(a =~= b);
    } else {
        let ra = le_value(a.drop_first());
        let rb = le_value(b.drop_first());
        assert((a[0] as nat + 256 * ra) % 256 == a[0] as nat) by {
            lemma_mod_multiples_vanish(ra as int, a[0] as int, 256);
            lemma_small_mod(a[0] as nat, 256);
        }
        assert((b[0] as nat + 256 * rb) % 256 == b[0] as nat) by {
            lemma_mod_multiples_vanish(rb as int, b[0] as int, 256);
            lemma_small_mod(b[0] as nat, 256);
        }
        assert(a[0] == b[0]);
        assert(256 * ra == 256 * rb);
        assert(ra == rb) by (nonlinear_arith)
            requires
                256 * ra == 256 * rb,
        ;
        lemma_le_value_injective(a.drop_first(), b.drop_first());
        assert forall|i: int| 0 <= i < a.len() implies a[i] == b[i] by {
            if i > 0 {
                assert(a[i] == a.drop_first()[i - 1]);
                assert(b[i] == b.drop_first()[i - 1]);
            }
        }
        assert(a =~= b);
    }
}

/// Reducing the right summand first does not change a sum's remainder.
pub proof fn lemma_add_mod_right(a: nat, b: nat, m: nat)
    requires
        0 < m,
    ensures
        (a + b % m) % m == (a + b) % m,
{
    lemma_add_mod_noop_right(a as int, b as int, m as int);
}

/// Two sums with a common left summand agree modulo `m` only if the right
/// summands agree modulo `m`.
pub proof fn lemma_mod_add_cancel_left(r: nat, x: nat, y: nat, m: nat)
    requires
        0 < m,
        (r + x) % m == (r + y) % m,
    ensures
        x % m == y % m,
{
    let mi = m as int;
    let a = (x % m) as int;
    let b = (y % m) as int;
    lemma_small_mod(0, m);
    lemma_sub_mod_noop((r + x) as int, (r + y) as int, mi);
    assert(((r + x) as int - (r + y) as int) % mi == 0);
    assert((x as int - y as int) % mi == 0);
    lemma_sub_mod_noop(x as int, y as int, mi);
    assert((a - b) % mi == 0);
    lemma_sub_mod_noop((r + y) as int, (r + x) as int, mi);
    assert((y as int - x as int) % mi == 0);
    lemma_sub_mod_noop(y as int, x as int, mi);
    assert((b - a) % mi == 0);
    if a >= b {
        lemma_small_mod((a - b) as nat, m);
    } else {
        lemma_small_mod((b - a) as nat, m);
    }
}

/// Two products with a common factor not divisible by the (zero-divisor-free)
/// group order, whose other factors are reduced and distinct, have distinct
/// remainders.
pub proof fn lemma_mul_mod_injective(k: nat, x: nat, y: nat)
    requires
        order_has_no_zero_divisors(),
        k % group_order() != 0,
        x < group_order(),
        y < group_order(),
        x != y,
    ensures
        (x * k) % group_order() != (y * k) % group_order(),
{
    let m = group_order();
    let (lo, hi) = if x < y {
        (x, y)
    } else {
        (y, x)
    };
    if (x * k) % m == (y * k) % m {
        let d = (hi - lo) as nat;
        assert(hi * k == lo * k + d * k) by (nonlinear_arith)
            requires
                hi == lo + d,
        ;
        assert((lo * k + 0) % m == (lo * k + d * k) % m);
        lemma_mod_add_cancel_left(lo * k, 0, d * k, m);
        lemma_small_mod(0, m);
        assert(((d * k) % group_order()) == 0);
        assert(d % group_order() == 0 || k % group_order() == 0);
        lemma_small_mod(d, m);
    }
}

} // verus!
