//! PUSH encodings of literals and jump destinations.
use vstd::prelude::*;
use crate::ast::Literal;
use crate::opcodes::PUSH2;

verus! {

/// The bytes left after leading zero bytes are dropped, keeping at least one.
pub open spec fn strip_leading_zeros(s: Seq<u8>) -> Seq<u8>
    decreases s.len(),
{
    if s.len() > 1 && s[0] == 0 {
        strip_leading_zeros(s.drop_first())
    } else {
        s
    }
}

/// The narrowest `PUSH` of a literal: `PUSHn` followed by the `n` significant bytes.
pub open spec fn literal_push(lit: Seq<u8>) -> Seq<u8> {
    let h = strip_leading_zeros(lit);
    seq![(0x5f + h.len()) as u8] + h
}

/// The number that a big-endian byte string stands for.
pub open spec fn be_value(s: Seq<u8>) -> nat
    decreases s.len(),
{
    if s.len() == 0 {
        0
    } else {
        be_value(s.drop_last()) * 256 + s.last() as nat
    }
}

/// `256` to the power `n`.
pub open spec fn pow256(n: nat) -> nat
    decreases n,
{
    if n == 0 {
        1
    } else {
        256 * pow256((n - 1) as nat)
    }
}

/// The `PUSH2` with a destination still to be filled in.
pub open spec fn push2_placeholder() -> Seq<u8> {
    seq![PUSH2, 0u8, 0u8]
}

proof fn lemma_strip_len(s: Seq<u8>)
    requires
        s.len() >= 1,
    ensures
        1 <= strip_leading_zeros(s).len() <= s.len(),
        strip_leading_zeros(s) == s.subrange(s.len() - strip_leading_zeros(s).len(), s.len() as int),
    decreases s.len(),
{
    if s.len() > 1 && s[0] == 0 {
        lemma_strip_len(s.drop_first());
        let t = strip_leading_zeros(s.drop_first());
        assert(s.drop_first().subrange(s.len() - 1 - t.len(), s.len() - 1) =~= s.subrange(
            s.len() - t.len(),
            s.len() as int,
        ));
    } else {
        assert(s.subrange(0, s.len() as int) =~= s);
    }
}

/// The narrowest `PUSH` of a 32-byte literal.
pub fn push_literal(lit: &Literal) -> (r: Vec<u8>)
    ensures
        r@ == literal_push(lit@),
        2 <= r@.len() <= 33,
{
    let mut i: usize = 0;
    assert(lit@.subrange(0, 32) =~= lit@);
    while i < 31 && lit[i] == 0
        invariant
            0 <= i <= 31,
            lit@.len() == 32,
            strip_leading_zeros(lit@) == strip_leading_zeros(lit@.subrange(i as int, 32)),
        decreases 31 - i,
    {
        assert(lit@.subrange(i as int, 32).drop_first() =~= lit@.subrange(i + 1, 32));
        i = i + 1;
    }
    let ghost h = lit@.subrange(i as int, 32);
    assert(strip_leading_zeros(h) == h);
    let mut r: Vec<u8> = Vec::new();
    r.push((0x5f + (32 - i)) as u8);
    let mut j: usize = i;
    while j < 32
        invariant
            i <= j <= 32,
            lit@.len() == 32,
            r@ == seq![(0x5f + (32 - i)) as u8] + lit@.subrange(i as int, j as int),
        decreases 32 - j,
    {
        r.push(lit[j]);
        assert(lit@.subrange(i as int, j + 1) =~= lit@.subrange(i as int, j as int).push(lit@[j as int]));
        assert(r@ =~= seq![(0x5f + (32 - i)) as u8] + lit@.subrange(i as int, j + 1));
        j = j + 1;
    }
    r
}

proof fn lemma_be_value_bound(s: Seq<u8>)
    ensures
        be_value(s) < pow256(s.len()),
    decreases s.len(),
{
    if s.len() > 0 {
        lemma_be_value_bound(s.drop_last());
        let v = be_value(s.drop_last());
        let p = pow256((s.len() - 1) as nat);
        assert(v + 1 <= p);
        assert(v * 256 + 256 <= p * 256) by (nonlinear_arith)
            requires
                v + 1 <= p,
        ;
    }
}

proof fn lemma_be_value_suffix(s: Seq<u8>, k: int)
    requires
        0 <= k <= s.len(),
        forall|i: int| 0 <= i < k ==> s[i] == 0,
    ensures
        be_value(s) == be_value(s.subrange(k, s.len() as int)),
    decreases s.len(),
{
    if s.len() > k {
        let t = s.drop_last();
        lemma_be_value_suffix(t, k);
        assert(s.subrange(k, s.len() as int).drop_last() =~= t.subrange(k, t.len() as int));
    } else {
        assert(s.subrange(k, s.len() as int) =~= Seq::<u8>::empty());
        lemma_be_value_zeros(s);
    }
}

proof fn lemma_be_value_zeros(s: Seq<u8>)
    requires
        forall|i: int| 0 <= i < s.len() ==> s[i] == 0,
    ensures
        be_value(s) == 0,
    decreases s.len(),
{
    if s.len() > 0 {
        lemma_be_value_zeros(s.drop_last());
    }
}

proof fn lemma_be_value_lead(s: Seq<u8>)
    requires
        s.len() >= 1,
        s[0] != 0,
    ensures
        pow256((s.len() - 1) as nat) <= be_value(s),
    decreases s.len(),
{
    if s.len() == 1 {
        assert(s.drop_last() =~= Seq::<u8>::empty());
    } else {
        let t = s.drop_last();
        lemma_be_value_lead(t);
        let p = pow256((t.len() - 1) as nat);
        let v = be_value(t);
        assert(p * 256 <= v * 256 + s.last() as nat) by (nonlinear_arith)
            requires
                p <= v,
        ;
    }
}

proof fn lemma_strip_skips_zeros(s: Seq<u8>)
    requires
        s.len() >= 1,
    ensures
        forall|i: int| 0 <= i < s.len() - strip_leading_zeros(s).len() ==> s[i] == 0,
        strip_leading_zeros(s).len() == 1 || strip_leading_zeros(s)[0] != 0,
    decreases s.len(),
{
    lemma_strip_len(s);
    if s.len() > 1 && s[0] == 0 {
        lemma_strip_skips_zeros(s.drop_first());
        lemma_strip_len(s.drop_first());
        assert forall|i: int| 0 <= i < s.len() - strip_leading_zeros(s).len() implies s[i] == 0 by {
            if i > 0 {
                assert(s[i] == s.drop_first()[i - 1]);
            }
        }
    }
}

/// The `PUSH` that a literal gets is the narrowest that holds it: for a literal
/// `L > 0`, it is `PUSHn` with `n` bytes of operand, where `n` is the least
/// number of bytes whose range holds `L`; the operand stands for `L`.
pub proof fn lemma_literal_push_minimal(lit: Seq<u8>)
    requires
        lit.len() == 32,
        be_value(lit) > 0,
    ensures
        ({
            let r = literal_push(lit);
            let n = (r.len() - 1) as nat;
            &&& 1 <= n <= 32
            &&& r[0] == 0x5f + n
            &&& be_value(r.drop_first()) == be_value(lit)
            &&& pow256((n - 1) as nat) <= be_value(lit) < pow256(n)
        }),
{
    let h = strip_leading_zeros(lit);
    lemma_strip_len(lit);
    lemma_strip_skips_zeros(lit);
    let k = lit.len() - h.len();
    lemma_be_value_suffix(lit, k);
    assert(literal_push(lit).drop_first() =~= h);
    lemma_be_value_bound(h);
    if h[0] != 0 {
        lemma_be_value_lead(h);
    } else {
        assert(h.drop_last() =~= Seq::<u8>::empty());
        assert(be_value(h.drop_last()) == 0);
        assert(be_value(h) == 0);
    }
}

} // verus!
