use vstd::prelude::*;
use crate::field::{
    FeVar, ByteVar, fe_val, byte_val, le_val, pack_bytes, u64_le_bytes, fe_seq_vals,
    byte_seq_vals,
};
use crate::absorbable::AbsorbableGadget;
use crate::sponge::{
    ParamsView, params_wf, width, permute_spec, sub_rounds, vec_add_v, add_chunk,
    absorb_steps, absorb_full, squeeze_steps, squeeze_full, squeeze_start_state,
};
use crate::DuplexSpongeMode;

verus! {

// Laws of the sponge, stated and proved over the same spec functions the
// engine's contracts use.

/// A field element canonicalizes to the same sequence alone and as a
/// batch of one: field-element batches carry no framing.
pub proof fn lemma_single_field_element_batch(x: FeVar)
    ensures
        <FeVar as AbsorbableGadget>::batch_canonical(seq![x]) == x.canonical(),
{
    assert(fe_seq_vals(seq![x]) =~= seq![fe_val(x)]);
}

/// A batch of one byte is framed: it packs the eight-byte length prefix
/// for exactly one element, followed by that one byte.
pub proof fn lemma_single_byte_batch(b: ByteVar)
    ensures
        <ByteVar as AbsorbableGadget>::batch_canonical(seq![b]) == pack_bytes(
            u64_le_bytes(1u64) + seq![byte_val(b)],
        ),
{
    assert(byte_seq_vals(seq![b]) =~= seq![byte_val(b)]);
}

/// Every entry of the sequence is a byte value.
pub open spec fn all_bytes(s: Seq<int>) -> bool {
    forall|i: int| 0 <= i < s.len() ==> 0 <= #[trigger] s[i] < 256
}

/// The integer a byte sequence stands for is non-negative.
pub proof fn lemma_le_val_nonneg(s: Seq<int>)
    requires
        all_bytes(s),
    ensures
        le_val(s) >= 0,
    decreases s.len(),
{
    if s.len() > 0 {
        assert(all_bytes(s.skip(1)));
        lemma_le_val_nonneg(s.skip(1));
    }
}

/// The head and tail of a byte sequence are recovered from its value:
/// base-256 digits are unique.
pub proof fn lemma_le_val_head_tail(s: Seq<int>)
    requires
        s.len() >= 1,
        all_bytes(s),
    ensures
        s[0] == le_val(s) % 256,
        le_val(s.skip(1)) == le_val(s) / 256,
{
    assert(all_bytes(s.skip(1)));
    lemma_le_val_nonneg(s.skip(1));
    let t = le_val(s.skip(1));
    let h = s[0];
    assert(le_val(s) == h + 256 * t);
    assert((h + 256 * t) % 256 == h) by (nonlinear_arith)
        requires
            0 <= h < 256,
            t >= 0,
    ;
    assert((h + 256 * t) / 256 == t) by (nonlinear_arith)
        requires
            0 <= h < 256,
            t >= 0,
    ;
}

/// Two byte sequences with the same value agree on their common prefix:
/// the shorter is the longer cut short.
pub proof fn lemma_le_val_prefix(x: Seq<int>, y: Seq<int>)
    requires
        all_bytes(x),
        all_bytes(y),
        x.len() <= y.len(),
        le_val(x) == le_val(y),
    ensures
        x == y.take(x.len() as int),
    decreases x.len(),
{
    if x.len() == 0 {
        assert(x =~= y.take(0));
    } else {
        lemma_le_val_head_tail(x);
        lemma_le_val_head_tail(y);
        assert(all_bytes(x.skip(1)));
        assert(all_bytes(y.skip(1)));
        lemma_le_val_prefix(x.skip(1), y.skip(1));
        assert(x.skip(1) == y.skip(1).take(x.len() - 1));
        assert forall|i: int| 0 <= i < x.len() implies x[i] == y.take(x.len() as int)[i] by {
            if i > 0 {
                assert(x[i] == x.skip(1)[i - 1]);
                assert(y.skip(1).take(x.len() - 1)[i - 1] == y[i]);
            }
        }
        assert(x =~= y.take(x.len() as int));
    }
}

/// Packed equality forces the shorter framed byte sequence to be the
/// longer one cut short.
pub proof fn lemma_pack_bytes_prefix(f1: Seq<int>, f2: Seq<int>)
    requires
        all_bytes(f1),
        all_bytes(f2),
        f1.len() <= f2.len(),
        pack_bytes(f1) == pack_bytes(f2),
    ensures
        f1 == f2.take(f1.len() as int),
    decreases f1.len(),
{
    if f1.len() == 0 {
        assert(f1 =~= f2.take(0));
    } else if f1.len() <= 31 {
        if f2.len() > 31 {
            assert(f2.skip(31).len() >= 1);
            assert(pack_bytes(f2.skip(31)).len() >= 1);
            assert(pack_bytes(f2).len() >= 2);
            assert(pack_bytes(f1).len() == 1);
            assert(false);
        }
        assert(pack_bytes(f1)[0] == le_val(f1));
        assert(pack_bytes(f2)[0] == le_val(f2));
        lemma_le_val_prefix(f1, f2);
    } else {
        assert(f2.len() > 31);
        assert(pack_bytes(f1)[0] == le_val(f1.take(31)));
        assert(pack_bytes(f2)[0] == le_val(f2.take(31)));
        assert(all_bytes(f1.take(31)));
        assert(all_bytes(f2.take(31)));
        lemma_le_val_prefix(f1.take(31), f2.take(31));
        assert(f2.take(31).take(31) =~= f2.take(31));
        assert(f1.take(31) == f2.take(31));
        assert(pack_bytes(f1).skip(1) =~= pack_bytes(f1.skip(31)));
        assert(pack_bytes(f2).skip(1) =~= pack_bytes(f2.skip(31)));
        assert(all_bytes(f1.skip(31)));
        assert(all_bytes(f2.skip(31)));
        lemma_pack_bytes_prefix(f1.skip(31), f2.skip(31));
        assert(f1.skip(31) == f2.skip(31).take(f1.len() - 31));
        assert forall|i: int| 0 <= i < f1.len() implies f1[i] == f2.take(f1.len() as int)[i] by {
            if i < 31 {
                assert(f1[i] == f1.take(31)[i]);
                assert(f2.take(31)[i] == f2[i]);
            } else {
                assert(f1[i] == f1.skip(31)[i - 31]);
                assert(f2.skip(31).take(f1.len() - 31)[i - 31] == f2[i]);
            }
        }
        assert(f1 =~= f2.take(f1.len() as int));
    }
}

/// A 64-bit length is recovered from its eight little-endian bytes.
pub proof fn lemma_u64_le_bytes_injective(a: u64, b: u64)
    requires
        u64_le_bytes(a) == u64_le_bytes(b),
    ensures
        a == b,
{
    assert(u64_le_bytes(a)[0] == u64_le_bytes(b)[0]);
    assert(u64_le_bytes(a)[1] == u64_le_bytes(b)[1]);
    assert(u64_le_bytes(a)[2] == u64_le_bytes(b)[2]);
    assert(u64_le_bytes(a)[3] == u64_le_bytes(b)[3]);
    assert(u64_le_bytes(a)[4] == u64_le_bytes(b)[4]);
    assert(u64_le_bytes(a)[5] == u64_le_bytes(b)[5]);
    assert(u64_le_bytes(a)[6] == u64_le_bytes(b)[6]);
    assert(u64_le_bytes(a)[7] == u64_le_bytes(b)[7]);
    assert(a == b) by (bit_vector)
        requires
            a % 256 == b % 256,
            (a / 256) % 256 == (b / 256) % 256,
            (a / 65536) % 256 == (b / 65536) % 256,
            (a / 16777216) % 256 == (b / 16777216) % 256,
            (a / 4294967296) % 256 == (b / 4294967296) % 256,
            (a / 1099511627776) % 256 == (b / 1099511627776) % 256,
            (a / 281474976710656) % 256 == (b / 281474976710656) % 256,
            (a / 72057594037927936) % 256 == (b / 72057594037927936) % 256,
    ;
}

/// Injectivity of the framed byte-batch encoding — what the length
/// prefix is for: two byte sequences whose framed forms pack to the same
/// field elements are the same sequence, lengths included.
pub proof fn lemma_framed_bytes_injective(b1: Seq<int>, b2: Seq<int>)
    requires
        all_bytes(b1),
        all_bytes(b2),
        b1.len() < 0x10000000000000000,
        b2.len() < 0x10000000000000000,
        pack_bytes(u64_le_bytes(b1.len() as u64) + b1) == pack_bytes(
            u64_le_bytes(b2.len() as u64) + b2,
        ),
    ensures
        b1 == b2,
{
    let n1 = b1.len() as u64;
    let n2 = b2.len() as u64;
    let f1 = u64_le_bytes(n1) + b1;
    let f2 = u64_le_bytes(n2) + b2;
    assert(u64_le_bytes(n1).len() == 8);
    assert(u64_le_bytes(n2).len() == 8);
    assert(all_bytes(f1));
    assert(all_bytes(f2));
    if f1.len() <= f2.len() {
        lemma_pack_bytes_prefix(f1, f2);
        assert(u64_le_bytes(n1) =~= u64_le_bytes(n2)) by {
            assert(forall|i: int|
                0 <= i < 8 ==> #[trigger] u64_le_bytes(n1)[i] == f1[i] && f1[i] == f2.take(
                    f1.len() as int,
                )[i] && f2[i] == u64_le_bytes(n2)[i]);
        }
    } else {
        lemma_pack_bytes_prefix(f2, f1);
        assert(u64_le_bytes(n1) =~= u64_le_bytes(n2)) by {
            assert(forall|i: int|
                0 <= i < 8 ==> #[trigger] u64_le_bytes(n2)[i] == f2[i] && f2[i] == f1.take(
                    f2.len() as int,
                )[i] && f1[i] == u64_le_bytes(n1)[i]);
        }
    }
    lemma_u64_le_bytes_injective(n1, n2);
    assert(b1.len() == b2.len());
    assert(f1.len() == f2.len());
    assert(f1 == f2) by {
        if f1.len() <= f2.len() {
            assert(f2.take(f1.len() as int) =~= f2);
        } else {
            assert(f1.take(f2.len() as int) =~= f1);
        }
    }
    assert forall|i: int| 0 <= i < b1.len() implies b1[i] == b2[i] by {
        assert(f1[8 + i] == b1[i]);
        assert(f2[8 + i] == b2[i]);
    }
    assert(b1 =~= b2);
}

/// The batch canonicalization of bytes is injective on the values the
/// circuit bytes stand for: distinct batches — distinct even only in
/// length — never canonicalize to the same field-element sequence.
pub proof fn lemma_byte_batch_injective(x: Seq<ByteVar>, y: Seq<ByteVar>)
    requires
        all_bytes(byte_seq_vals(x)),
        all_bytes(byte_seq_vals(y)),
        x.len() < 0x10000000000000000,
        y.len() < 0x10000000000000000,
        <ByteVar as AbsorbableGadget>::batch_canonical(x)
            == <ByteVar as AbsorbableGadget>::batch_canonical(y),
    ensures
        x.len() == y.len(),
        byte_seq_vals(x) == byte_seq_vals(y),
{
    lemma_framed_bytes_injective(byte_seq_vals(x), byte_seq_vals(y));
}

/// Determinism: the effect of absorbing and the output of squeezing are
/// functions of the parameter values, the state values, the mode and the
/// input alone. Two sponges that agree on those agree on every
/// subsequent absorb result and squeeze output; no hidden randomness
/// enters.
pub proof fn lemma_absorb_squeeze_deterministic(
    p: ParamsView,
    st1: Seq<int>,
    st2: Seq<int>,
    mode1: DuplexSpongeMode,
    mode2: DuplexSpongeMode,
    elems: Seq<int>,
    n: int,
)
    requires
        st1 == st2,
        mode1 == mode2,
    ensures
        absorb_full(p, st1, mode1, elems) == absorb_full(p, st2, mode2, elems),
        squeeze_full(p, st1, mode1, n) == squeeze_full(p, st2, mode2, n),
{
}

/// Mode-switch cost: absorbing from a squeezing sponge folds the input
/// into the state permuted exactly once, at cursor zero, whatever the
/// squeeze cursor stood at.
pub proof fn lemma_absorb_after_squeeze_one_permutation(
    p: ParamsView,
    st: Seq<int>,
    i: usize,
    elems: Seq<int>,
)
    ensures
        absorb_full(p, st, DuplexSpongeMode::Squeezing { next_squeeze_index: i }, elems)
            == absorb_steps(p, permute_spec(p, st), 0, elems),
{
}

/// Overflow cost: absorbing `2 * rate + 1` elements from cursor zero
/// permutes exactly twice — once at each rate boundary — and leaves the
/// cursor at one.
pub proof fn lemma_absorb_overflow_two_permutations(p: ParamsView, st: Seq<int>, elems: Seq<int>)
    requires
        params_wf(p),
        elems.len() == 2 * p.rate + 1,
    ensures
        ({
            let r = p.rate as int;
            let s1 = permute_spec(p, add_chunk(st, 0, elems.take(r)));
            let s2 = permute_spec(p, add_chunk(s1, 0, elems.skip(r).take(r)));
            &&& absorb_steps(p, st, 0, elems).0 == add_chunk(s2, 0, elems.skip(r).skip(r))
            &&& absorb_steps(p, st, 0, elems).1 == 1
        }),
{
    let r = p.rate as int;
    reveal_with_fuel(absorb_steps, 4);
    assert(elems.skip(r).len() == r + 1);
    assert(elems.skip(r).skip(r).len() == 1);
}

/// Each sub-round keeps the length of the state component.
pub proof fn lemma_sub_rounds_state_len(
    p: ParamsView,
    ki: Seq<int>,
    ks: Seq<int>,
    st: Seq<int>,
    n: int,
)
    ensures
        sub_rounds(p, ki, ks, st, n).2.len() == st.len(),
    decreases n,
{
    if n > 0 {
        lemma_sub_rounds_state_len(p, ki, ks, st, n - 1);
    }
}

/// The permutation keeps the length of the state.
pub proof fn lemma_permute_spec_len(p: ParamsView, st: Seq<int>)
    ensures
        permute_spec(p, st).len() == st.len(),
{
    lemma_sub_rounds_state_len(
        p,
        p.initial_constant,
        p.initial_constant,
        vec_add_v(st, p.initial_constant),
        2 * (p.rounds as int),
    );
}

/// The final squeeze cursor always lands in `[0, rate]`.
pub proof fn lemma_squeeze_index_range(p: ParamsView, st: Seq<int>, start: int, n: int)
    requires
        params_wf(p),
        0 <= start < p.rate,
        n >= 0,
    ensures
        0 <= squeeze_steps(p, st, start, n).2 <= p.rate,
    decreases n,
{
    let r = p.rate as int;
    if start + n <= r {
    } else {
        let k = r - start;
        let st2 = if n == r {
            st
        } else {
            permute_spec(p, st)
        };
        lemma_squeeze_index_range(p, st2, 0, n - k);
    }
}

/// A squeeze of `n` elements yields exactly `n` values.
pub proof fn lemma_squeeze_out_len(p: ParamsView, st: Seq<int>, start: int, n: int)
    requires
        params_wf(p),
        st.len() == width(p),
        0 <= start < p.rate,
        n >= 0,
    ensures
        squeeze_steps(p, st, start, n).0.len() == n,
        squeeze_steps(p, st, start, n).1.len() == width(p),
    decreases n,
{
    let r = p.rate as int;
    lemma_permute_spec_len(p, st);
    if start + n <= r {
    } else {
        let k = r - start;
        let st2 = if n == r {
            st
        } else {
            permute_spec(p, st)
        };
        lemma_squeeze_out_len(p, st2, 0, n - k);
    }
}

/// Squeeze continuity at the cursor level: squeezing `a` elements from
/// cursor zero and then `b` more, resuming where the first squeeze ended,
/// yields the same output stream and the same final state as squeezing
/// `a + b` at once — provided the second request is not for exactly
/// `rate` elements, the one case where the engine skips a permutation
/// and re-reads the rate prefix.
pub proof fn lemma_squeeze_steps_split(p: ParamsView, st: Seq<int>, a: int, b: int)
    requires
        params_wf(p),
        st.len() == width(p),
        a >= 1,
        b >= 1,
        b != p.rate,
    ensures
        ({
            let whole = squeeze_steps(p, st, 0, a + b);
            let first = squeeze_steps(p, st, 0, a);
            let cont = if first.2 == p.rate {
                (permute_spec(p, first.1), 0int)
            } else {
                (first.1, first.2)
            };
            let second = squeeze_steps(p, cont.0, cont.1, b);
            &&& whole.0 == first.0 + second.0
            &&& whole.1 == second.1
            &&& whole.2 == second.2
        }),
    decreases a,
{
    let r = p.rate as int;
    let whole = squeeze_steps(p, st, 0, a + b);
    let first = squeeze_steps(p, st, 0, a);
    lemma_permute_spec_len(p, st);
    if a + b <= r {
        assert(st.subrange(0, a) + st.subrange(a, a + b) =~= st.subrange(0, a + b));
    } else if a < r {
        let pmt = permute_spec(p, st);
        let t = squeeze_steps(p, pmt, 0, a + b - r);
        assert(a + b - r == b - (r - a));
        assert(st.subrange(0, a) + st.subrange(a, r) =~= st.subrange(0, r));
        assert(st.subrange(0, a) + (st.subrange(a, r) + t.0) =~= (st.subrange(0, a)
            + st.subrange(a, r)) + t.0);
    } else if a == r {
        let pmt = permute_spec(p, st);
        assert(whole.0 == st.subrange(0, r) + squeeze_steps(p, pmt, 0, b).0);
    } else {
        let pmt = permute_spec(p, st);
        lemma_squeeze_steps_split(p, pmt, a - r, b);
        let fr = squeeze_steps(p, pmt, 0, a - r);
        let cont = if fr.2 == p.rate {
            (permute_spec(p, fr.1), 0int)
        } else {
            (fr.1, fr.2)
        };
        let second = squeeze_steps(p, cont.0, cont.1, b);
        assert(st.subrange(0, r) + (fr.0 + second.0) =~= (st.subrange(0, r) + fr.0) + second.0);
    }
}

/// Squeeze continuity for whole calls: on a sponge still in absorbing
/// mode, squeezing `a` elements and then `b` elements, the second call
/// starting from the state and cursor the first one left, produces
/// exactly the first `a` and the next `b` elements of one squeeze of
/// `a + b` — except when `b` is exactly `rate` and the cursor stands
/// strictly inside the rate prefix, where the engine re-reads instead of
/// permuting.
pub proof fn lemma_squeeze_split(p: ParamsView, st: Seq<int>, mode: DuplexSpongeMode, a: int, b: int)
    requires
        params_wf(p),
        st.len() == width(p),
        mode is Absorbing,
        a >= 1,
        b >= 1,
        b != p.rate,
    ensures
        ({
            let whole = squeeze_full(p, st, mode, a + b);
            let first = squeeze_full(p, st, mode, a);
            let second = squeeze_full(
                p,
                first.1,
                DuplexSpongeMode::Squeezing { next_squeeze_index: first.2 as usize },
                b,
            );
            &&& whole.0 == first.0 + second.0
            &&& whole.1 == second.1
            &&& whole.2 == second.2
        }),
{
    let r = p.rate as int;
    let pmt = permute_spec(p, st);
    let first = squeeze_full(p, st, mode, a);
    lemma_permute_spec_len(p, st);
    lemma_squeeze_index_range(p, pmt, 0, a);
    assert(first.2 == squeeze_steps(p, pmt, 0, a).2);
    assert(squeeze_start_state(
        p,
        first.1,
        DuplexSpongeMode::Squeezing { next_squeeze_index: first.2 as usize },
    ) == (
        if first.2 == r {
            (permute_spec(p, first.1), 0int)
        } else {
            (first.1, first.2)
        }
    ));
    lemma_squeeze_steps_split(p, pmt, a, b);
}

/// No output is skipped or duplicated across calls: under the conditions
/// of the continuity law, the first call's output is exactly the first
/// `a` elements of the single combined squeeze, and the second call's
/// output exactly the next `b`.
pub proof fn lemma_squeeze_split_exact(
    p: ParamsView,
    st: Seq<int>,
    mode: DuplexSpongeMode,
    a: int,
    b: int,
)
    requires
        params_wf(p),
        st.len() == width(p),
        mode is Absorbing,
        a >= 1,
        b >= 1,
        b != p.rate,
    ensures
        ({
            let whole = squeeze_full(p, st, mode, a + b);
            let first = squeeze_full(p, st, mode, a);
            let second = squeeze_full(
                p,
                first.1,
                DuplexSpongeMode::Squeezing { next_squeeze_index: first.2 as usize },
                b,
            );
            &&& whole.0.subrange(0, a) == first.0
            &&& whole.0.subrange(a, a + b) == second.0
        }),
{
    let r = p.rate as int;
    let pmt = permute_spec(p, st);
    lemma_permute_spec_len(p, st);
    lemma_squeeze_split(p, st, mode, a, b);
    lemma_squeeze_out_len(p, pmt, 0, a);
    lemma_squeeze_index_range(p, pmt, 0, a);
    let whole = squeeze_full(p, st, mode, a + b);
    let first = squeeze_full(p, st, mode, a);
    let second = squeeze_full(
        p,
        first.1,
        DuplexSpongeMode::Squeezing { next_squeeze_index: first.2 as usize },
        b,
    );
    if first.2 == r {
        lemma_permute_spec_len(p, first.1);
        lemma_squeeze_out_len(p, permute_spec(p, first.1), 0, b);
    } else {
        lemma_squeeze_out_len(p, first.1, first.2, b);
    }
    assert((first.0 + second.0).subrange(0, a) =~= first.0);
    assert((first.0 + second.0).subrange(a, a + b) =~= second.0);
}

} // verus!