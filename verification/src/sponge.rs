use vstd::prelude::*;
use crate::field::{
    Fr, FeVar, ByteVar, BoolVar, ConstraintRef, fr_val, fe_val, byte_val, bool_val, byte_of,
    bit_of, limbs_val, v_add, v_mul, v_pow, fr_copy, fr_zero, fr_add, fr_mul, fr_pow, fe_add,
    fe_add_fr, fe_mul_fr, fe_pow, fe_to_bytes, fe_to_bits, capacity_bits, fr_seq_vals,
    fe_seq_vals, fe_in, fe_seq_in, fe_grounded, lemma_fe_seq_vals_push, lemma_byte_seq_vals_push,
};
use crate::absorbable::AbsorbableGadget;
use crate::DuplexSpongeMode;
use crate::SubstrateError;

verus! {

// The duplex sponge engine: a fixed-width state vector of circuit field
// elements, a cursor-carrying mode, and the Rescue permutation that
// alternates an exponentiation layer with affine diffusion and key
// injection. Everything is specified over the integer values the circuit
// variables stand for.

/// The externally supplied Rescue parameter set. Dimensions are trusted
/// to match `rate + capacity`; the engine states that trust as its
/// well-formedness condition.
pub struct RescueSpongeParameters {
    /// Number of state elements exposed for absorbing and squeezing.
    pub rate: usize,
    /// Number of state elements held back for security.
    pub capacity: usize,
    /// The permutation runs `2 * rounds` sub-rounds.
    pub rounds: usize,
    /// Forward S-box exponent, as little-endian 64-bit limbs.
    pub alpha: Vec<u64>,
    /// Inverse S-box exponent, as little-endian 64-bit limbs.
    pub invalpha: Vec<u64>,
    /// Key-schedule seed; length `rate + capacity`.
    pub initial_constant: Vec<Fr>,
    /// Matrix of the affine key-injection update; square of width `rate + capacity`.
    pub constants_matrix: Vec<Vec<Fr>>,
    /// Constant of the affine key-injection update; length `rate + capacity`.
    pub constants_constant: Vec<Fr>,
    /// Diffusion matrix, applied to key schedule and state alike.
    pub mds: Vec<Vec<Fr>>,
}

/// The integer values behind a parameter set.
pub struct ParamsView {
    pub rate: nat,
    pub capacity: nat,
    pub rounds: nat,
    pub alpha: int,
    pub invalpha: int,
    pub initial_constant: Seq<int>,
    pub constants_matrix: Seq<Seq<int>>,
    pub constants_constant: Seq<int>,
    pub mds: Seq<Seq<int>>,
}

pub open spec fn fr_mat_vals(m: Seq<Vec<Fr>>) -> Seq<Seq<int>> {
    m.map_values(|row: Vec<Fr>| fr_seq_vals(row@))
}

impl View for RescueSpongeParameters {
    type V = ParamsView;

    open spec fn view(&self) -> ParamsView {
        ParamsView {
            rate: self.rate as nat,
            capacity: self.capacity as nat,
            rounds: self.rounds as nat,
            alpha: limbs_val(self.alpha@),
            invalpha: limbs_val(self.invalpha@),
            initial_constant: fr_seq_vals(self.initial_constant@),
            constants_matrix: fr_mat_vals(self.constants_matrix@),
            constants_constant: fr_seq_vals(self.constants_constant@),
            mds: fr_mat_vals(self.mds@),
        }
    }
}

pub open spec fn width(p: ParamsView) -> nat {
    p.rate + p.capacity
}

pub open spec fn mat_wf(m: Seq<Seq<int>>, w: nat) -> bool {
    m.len() == w && forall|i: int| 0 <= i < w ==> (#[trigger] m[i]).len() == w
}

/// What the engine trusts of a parameter set: at least one rate and one
/// capacity element, dimensions matching the state width, and bounds
/// that keep the cursor and round arithmetic inside machine integers.
pub open spec fn params_wf(p: ParamsView) -> bool {
    &&& p.rate >= 1
    &&& p.capacity >= 1
    &&& p.rate + p.capacity <= usize::MAX
    &&& 2 * p.rounds <= usize::MAX
    &&& p.initial_constant.len() == width(p)
    &&& p.constants_constant.len() == width(p)
    &&& mat_wf(p.constants_matrix, width(p))
    &&& mat_wf(p.mds, width(p))
}

/// The first `k` terms of the row-times-vector product, accumulated the
/// way the engine computes it: starting from zero, adding one product at
/// a time.
pub open spec fn dot_prefix(row: Seq<int>, v: Seq<int>, k: int) -> int
    decreases k,
{
    if k <= 0 {
        0
    } else {
        v_add(dot_prefix(row, v, k - 1), v_mul(row[k - 1], v[k - 1]))
    }
}

/// `m * v + c` over the field, row by row.
pub open spec fn affine_map(m: Seq<Seq<int>>, v: Seq<int>, c: Seq<int>) -> Seq<int> {
    Seq::new(v.len(), |i: int| v_add(dot_prefix(m[i], v, v.len() as int), c[i]))
}

/// Elementwise field addition.
pub open spec fn vec_add_v(a: Seq<int>, b: Seq<int>) -> Seq<int> {
    Seq::new(a.len(), |i: int| v_add(a[i], b[i]))
}

/// Every element raised to the power `e`.
pub open spec fn pow_map(s: Seq<int>, e: int) -> Seq<int> {
    s.map_values(|x: int| v_pow(x, e))
}

/// Sub-round `r` uses the inverse exponent on even `r` and the forward
/// exponent on odd `r`.
pub open spec fn round_exponent(p: ParamsView, r: int) -> int {
    if r % 2 == 0 {
        p.invalpha
    } else {
        p.alpha
    }
}

/// One sub-round of the permutation, acting on the key-injection vector,
/// the key state and the sponge state: the S-box layer on key state and
/// state, then the affine key-injection update, then the diffusion of
/// key state and state.
pub open spec fn sub_round(
    p: ParamsView,
    ki: Seq<int>,
    ks: Seq<int>,
    st: Seq<int>,
    r: int,
) -> (Seq<int>, Seq<int>, Seq<int>) {
    let e = round_exponent(p, r);
    let ks1 = pow_map(ks, e);
    let st1 = pow_map(st, e);
    let ki2 = affine_map(p.constants_matrix, ki, p.constants_constant);
    let ks2 = affine_map(p.mds, ks1, ki2);
    let st2 = affine_map(p.mds, st1, ks2);
    (ki2, ks2, st2)
}

/// The first `n` sub-rounds, applied in order.
pub open spec fn sub_rounds(
    p: ParamsView,
    ki: Seq<int>,
    ks: Seq<int>,
    st: Seq<int>,
    n: int,
) -> (Seq<int>, Seq<int>, Seq<int>)
    decreases n,
{
    if n <= 0 {
        (ki, ks, st)
    } else {
        let t = sub_rounds(p, ki, ks, st, n - 1);
        sub_round(p, t.0, t.1, t.2, n - 1)
    }
}

/// The whole permutation: key injection of the initial constant into the
/// state, then `2 * rounds` sub-rounds with both key vectors seeded by
/// the initial constant.
pub open spec fn permute_spec(p: ParamsView, st: Seq<int>) -> Seq<int> {
    sub_rounds(
        p,
        p.initial_constant,
        p.initial_constant,
        vec_add_v(st, p.initial_constant),
        2 * (p.rounds as int),
    ).2
}

fn copy_limbs(v: &Vec<u64>) -> (r: Vec<u64>)
    ensures
        r@ == v@,
{
    let mut out: Vec<u64> = Vec::new();
    let mut i: usize = 0;
    while i < v.len()
        invariant
            i <= v@.len(),
            out@ == v@.take(i as int),
        decreases v@.len() - i,
    {
        out.push(v[i]);
        assert(out@ =~= v@.take(i + 1));
        i = i + 1;
    }
    assert(out@ =~= v@);
    out
}

pub open spec fn mode_wf(m: DuplexSpongeMode, rate: nat) -> bool {
    match m {
        DuplexSpongeMode::Absorbing { next_absorb_index } => next_absorb_index <= rate,
        DuplexSpongeMode::Squeezing { next_squeeze_index } => next_squeeze_index <= rate,
    }
}

/// The Rescue sponge, expressed over circuit field elements.
pub struct RescueSpongeVar {
    /// Handle to the constraint system the state lives in.
    pub cs: ConstraintRef,
    /// The shared parameter set.
    pub params: RescueSpongeParameters,
    /// The sponge state; length `rate + capacity`.
    pub state: Vec<FeVar>,
    /// Which way the sponge currently runs, and its cursor.
    pub mode: DuplexSpongeMode,
}

impl RescueSpongeVar {
    /// The integer values behind the sponge state.
    pub open spec fn state_vals(&self) -> Seq<int> {
        fe_seq_vals(self.state@)
    }

    pub open spec fn wf(&self) -> bool {
        &&& params_wf(self.params@)
        &&& self.state@.len() == width(self.params@)
        &&& mode_wf(self.mode, self.params@.rate)
        &&& fe_seq_in(self.state@, self.cs)
    }
    /// The Rescue permutation. On success the state values are exactly
    /// `permute_spec` of the old state values; the parameters, the
    /// constraint-system handle and the mode are untouched either way.
    #[verifier::loop_isolation(false)]
    fn permute(&mut self) -> (r: Result<(), SubstrateError>)
        requires
            old(self).wf(),
        ensures
            final(self).wf(),
            final(self).params == old(self).params,
            final(self).cs == old(self).cs,
            final(self).mode == old(self).mode,
            r is Ok ==> final(self).state_vals() == permute_spec(
                old(self).params@,
                old(self).state_vals(),
            ),
            old(self).params@.rounds == 0 ==> r is Ok,
    {
        let ghost pv = self.params@;
        let ghost st_in = self.state_vals();

        let mut key_injection = copy_frs(&self.params.initial_constant);
        let mut key_state = copy_frs(&self.params.initial_constant);

        // Initial key injection into the state.
        let injected = vec_add_fe_fr(&self.state, &key_state);
        self.state = injected;
        proof {
            assert(self.state_vals() == vec_add_v(st_in, pv.initial_constant));
            assert(fe_seq_in(self.state@, self.cs));
        }

        let num_sub_rounds: usize = 2 * self.params.rounds;
        let mut r: usize = 0;
        while r < num_sub_rounds
            invariant
                r <= num_sub_rounds,
                num_sub_rounds == 2 * pv.rounds,
                pv == self.params@,
                self.params == old(self).params,
                self.cs == old(self).cs,
                self.mode == old(self).mode,
                st_in == old(self).state_vals(),
                st_in.len() == width(pv),
                key_injection@.len() == width(pv),
                key_state@.len() == width(pv),
                self.state@.len() == width(pv),
                fe_seq_in(self.state@, self.cs),
                sub_rounds(
                    pv,
                    pv.initial_constant,
                    pv.initial_constant,
                    vec_add_v(st_in, pv.initial_constant),
                    r as int,
                ) == (fr_seq_vals(key_injection@), fr_seq_vals(key_state@), self.state_vals()),
            decreases num_sub_rounds - r,
        {
            let ghost ki0 = fr_seq_vals(key_injection@);
            let ghost ks0 = fr_seq_vals(key_state@);
            let ghost st0 = self.state_vals();
            let ghost e = round_exponent(pv, r as int);

            // S-box layer: the inverse exponent on even sub-rounds, the
            // forward exponent on odd ones.
            let exp: Vec<u64> = if r % 2 == 0 {
                copy_limbs(&self.params.invalpha)
            } else {
                copy_limbs(&self.params.alpha)
            };
            proof {
                assert(limbs_val(exp@) == e);
            }
            let powed_keys = pow_all_fr(&key_state, &exp);
            key_state = powed_keys;
            let powed_state = match pow_all_fe(&self.state, &exp) {
                Ok(v) => v,
                Err(err) => {
                    return Err(err);
                },
            };
            self.state = powed_state;
            proof {
                assert(fe_seq_in(self.state@, self.cs));
            }

            // key_injection <- constants_matrix * key_injection + constants_constant
            let ki_next = affine_fr(
                &self.params.constants_matrix,
                &key_injection,
                &self.params.constants_constant,
            );
            key_injection = ki_next;
            // key_state <- mds * key_state + key_injection
            let ks_next = affine_fr(&self.params.mds, &key_state, &key_injection);
            key_state = ks_next;
            // state <- mds * state + key_state
            proof {
                assert(exists|s2: ConstraintRef| #[trigger] fe_seq_in(self.state@, s2));
            }
            let st_next = affine_fe(&self.params.mds, &self.state, &key_state);
            self.state = st_next;
            proof {
                assert(fe_seq_in(self.state@, self.cs));
            }

            proof {
                assert(sub_round(pv, ki0, ks0, st0, r as int) == (
                    fr_seq_vals(key_injection@),
                    fr_seq_vals(key_state@),
                    self.state_vals(),
                ));
                assert(sub_rounds(
                    pv,
                    pv.initial_constant,
                    pv.initial_constant,
                    vec_add_v(st_in, pv.initial_constant),
                    r + 1,
                ) == (fr_seq_vals(key_injection@), fr_seq_vals(key_state@), self.state_vals()));
            }
            r = r + 1;
        }
        Ok(())
    }
}

/// A copy of a vector of constant field elements, standing for the same values.
#[verifier::loop_isolation(false)]
fn copy_frs(v: &Vec<Fr>) -> (out: Vec<Fr>)
    ensures
        out@.len() == v@.len(),
        fr_seq_vals(out@) == fr_seq_vals(v@),
{
    let mut out: Vec<Fr> = Vec::new();
    let mut i: usize = 0;
    while i < v.len()
        invariant
            i <= v@.len(),
            out@.len() == i,
            fr_seq_vals(out@) == fr_seq_vals(v@).take(i as int),
        decreases v@.len() - i,
    {
        out.push(fr_copy(&v[i]));
        assert(fr_seq_vals(out@) =~= fr_seq_vals(v@).take(i + 1));
        i = i + 1;
    }
    assert(fr_seq_vals(out@) =~= fr_seq_vals(v@));
    out
}

/// Elementwise addition of a constant vector into a vector of circuit elements.
#[verifier::loop_isolation(false)]
fn vec_add_fe_fr(v: &Vec<FeVar>, c: &Vec<Fr>) -> (out: Vec<FeVar>)
    requires
        v@.len() == c@.len(),
    ensures
        out@.len() == v@.len(),
        fe_seq_vals(out@) == vec_add_v(fe_seq_vals(v@), fr_seq_vals(c@)),
        forall|s2: ConstraintRef| fe_seq_in(v@, s2) ==> #[trigger] fe_seq_in(out@, s2),
{
    let ghost target = vec_add_v(fe_seq_vals(v@), fr_seq_vals(c@));
    let mut out: Vec<FeVar> = Vec::new();
    let mut i: usize = 0;
    while i < v.len()
        invariant
            i <= v@.len(),
            out@.len() == i,
            fe_seq_vals(out@) == target.take(i as int),
            forall|k: int, s2: ConstraintRef|
                0 <= k < out@.len() && fe_in(v@[k], s2) ==> #[trigger] fe_in(out@[k], s2),
        decreases v@.len() - i,
    {
        out.push(fe_add_fr(&v[i], &c[i]));
        assert(fe_seq_vals(out@) =~= target.take(i + 1));
        i = i + 1;
    }
    assert(fe_seq_vals(out@) =~= target);
    assert forall|s2: ConstraintRef| fe_seq_in(v@, s2) implies #[trigger] fe_seq_in(out@, s2) by {
        assert(forall|k: int| 0 <= k < out@.len() ==> fe_in(#[trigger] out@[k], s2));
    }
    out
}

/// Every constant field element of a vector raised to the given power.
#[verifier::loop_isolation(false)]
fn pow_all_fr(v: &Vec<Fr>, exp: &Vec<u64>) -> (out: Vec<Fr>)
    ensures
        out@.len() == v@.len(),
        fr_seq_vals(out@) == pow_map(fr_seq_vals(v@), limbs_val(exp@)),
{
    let ghost target = pow_map(fr_seq_vals(v@), limbs_val(exp@));
    let mut out: Vec<Fr> = Vec::new();
    let mut i: usize = 0;
    while i < v.len()
        invariant
            i <= v@.len(),
            out@.len() == i,
            fr_seq_vals(out@) == target.take(i as int),
        decreases v@.len() - i,
    {
        out.push(fr_pow(&v[i], exp));
        assert(fr_seq_vals(out@) =~= target.take(i + 1));
        i = i + 1;
    }
    assert(fr_seq_vals(out@) =~= target);
    out
}

/// Every circuit element of a vector raised to the given power; fails only
/// if the substrate fails to build a power relation.
#[verifier::loop_isolation(false)]
fn pow_all_fe(v: &Vec<FeVar>, exp: &Vec<u64>) -> (out: Result<Vec<FeVar>, SubstrateError>)
    ensures
        out is Ok ==> (out->Ok_0)@.len() == v@.len() && fe_seq_vals((out->Ok_0)@) == pow_map(
            fe_seq_vals(v@),
            limbs_val(exp@),
        ),
        out is Ok ==> forall|s2: ConstraintRef| fe_seq_in(v@, s2) ==> #[trigger] fe_seq_in(
            (out->Ok_0)@,
            s2,
        ),
{
    let ghost target = pow_map(fe_seq_vals(v@), limbs_val(exp@));
    let mut out: Vec<FeVar> = Vec::new();
    let mut i: usize = 0;
    while i < v.len()
        invariant
            i <= v@.len(),
            out@.len() == i,
            fe_seq_vals(out@) == target.take(i as int),
            forall|k: int, s2: ConstraintRef|
                0 <= k < out@.len() && fe_in(v@[k], s2) ==> #[trigger] fe_in(out@[k], s2),
        decreases v@.len() - i,
    {
        let powed = match fe_pow(&v[i], exp) {
            Ok(x) => x,
            Err(err) => {
                return Err(SubstrateError::Synthesis(err));
            },
        };
        out.push(powed);
        assert(fe_seq_vals(out@) =~= target.take(i + 1));
        i = i + 1;
    }
    assert(fe_seq_vals(out@) =~= target);
    assert forall|s2: ConstraintRef| fe_seq_in(v@, s2) implies #[trigger] fe_seq_in(out@, s2) by {
        assert(forall|k: int| 0 <= k < out@.len() ==> fe_in(#[trigger] out@[k], s2));
    }
    Ok(out)
}

/// `m * v + c` over constant field elements, row by row, accumulating each
/// row product term by term.
#[verifier::loop_isolation(false)]
fn affine_fr(m: &Vec<Vec<Fr>>, v: &Vec<Fr>, c: &Vec<Fr>) -> (out: Vec<Fr>)
    requires
        mat_wf(fr_mat_vals(m@), v@.len() as nat),
        c@.len() == v@.len(),
    ensures
        out@.len() == v@.len(),
        fr_seq_vals(out@) == affine_map(fr_mat_vals(m@), fr_seq_vals(v@), fr_seq_vals(c@)),
{
    let ghost vv = fr_seq_vals(v@);
    let ghost target = affine_map(fr_mat_vals(m@), vv, fr_seq_vals(c@));
    let mut out: Vec<Fr> = Vec::new();
    let mut i: usize = 0;
    while i < v.len()
        invariant
            i <= v@.len(),
            out@.len() == i,
            fr_seq_vals(out@) == target.take(i as int),
        decreases v@.len() - i,
    {
        let ghost row = fr_mat_vals(m@)[i as int];
        proof {
            assert(row == fr_seq_vals(m@[i as int]@));
        }
        let mut acc = fr_zero();
        let mut j: usize = 0;
        while j < v.len()
            invariant
                j <= v@.len(),
                i < v@.len(),
                fr_val(acc) == dot_prefix(row, vv, j as int),
            decreases v@.len() - j,
        {
            proof {
                assert(fr_val(m@[i as int]@[j as int]) == row[j as int]);
                assert(fr_val(v@[j as int]) == vv[j as int]);
            }
            let p = fr_mul(&m[i][j], &v[j]);
            acc = fr_add(&acc, &p);
            j = j + 1;
        }
        acc = fr_add(&acc, &c[i]);
        proof {
            assert(fr_val(c@[i as int]) == fr_seq_vals(c@)[i as int]);
            assert(fr_val(acc) == target[i as int]);
        }
        out.push(acc);
        assert(fr_seq_vals(out@) =~= target.take(i + 1));
        i = i + 1;
    }
    assert(fr_seq_vals(out@) =~= target);
    out
}

/// `m * v + c`, where `v` holds circuit elements and `m`, `c` constants.
#[verifier::loop_isolation(false)]
fn affine_fe(m: &Vec<Vec<Fr>>, v: &Vec<FeVar>, c: &Vec<Fr>) -> (out: Vec<FeVar>)
    requires
        mat_wf(fr_mat_vals(m@), v@.len() as nat),
        c@.len() == v@.len(),
        exists|s2: ConstraintRef| #[trigger] fe_seq_in(v@, s2),
    ensures
        out@.len() == v@.len(),
        fe_seq_vals(out@) == affine_map(fr_mat_vals(m@), fe_seq_vals(v@), fr_seq_vals(c@)),
        forall|s2: ConstraintRef| fe_seq_in(v@, s2) ==> #[trigger] fe_seq_in(out@, s2),
{
    let ghost vv = fe_seq_vals(v@);
    let ghost target = affine_map(fr_mat_vals(m@), vv, fr_seq_vals(c@));
    let mut out: Vec<FeVar> = Vec::new();
    let mut i: usize = 0;
    while i < v.len()
        invariant
            i <= v@.len(),
            out@.len() == i,
            fe_seq_vals(out@) == target.take(i as int),
            forall|s2: ConstraintRef| fe_seq_in(v@, s2) ==> #[trigger] fe_seq_in(out@, s2),
        decreases v@.len() - i,
    {
        let ghost row = fr_mat_vals(m@)[i as int];
        proof {
            assert(row == fr_seq_vals(m@[i as int]@));
        }
        let mut acc = FeVar::zero();
        let mut j: usize = 0;
        while j < v.len()
            invariant
                j <= v@.len(),
                i < v@.len(),
                fe_val(acc) == dot_prefix(row, vv, j as int),
                forall|s2: ConstraintRef| fe_seq_in(v@, s2) ==> #[trigger] fe_in(acc, s2),
            decreases v@.len() - j,
        {
            proof {
                assert(fr_val(m@[i as int]@[j as int]) == row[j as int]);
                assert(fe_val(v@[j as int]) == vv[j as int]);
            }
            let p = fe_mul_fr(&v[j], &m[i][j]);
            let ghost acc_pre = acc;
            proof {
                let s0 = choose|s2: ConstraintRef| fe_seq_in(v@, s2);
                assert(fe_in(v@[j as int], s0));
                assert(fe_in(p, s0));
                assert(fe_in(acc, s0));
            }
            acc = fe_add(&acc, &p);
            proof {
                assert forall|s2: ConstraintRef| fe_seq_in(v@, s2) implies #[trigger] fe_in(
                    acc,
                    s2,
                ) by {
                    assert(fe_in(v@[j as int], s2));
                    assert(fe_in(p, s2));
                    assert(fe_in(acc_pre, s2));
                }
            }
            j = j + 1;
        }
        let finished = fe_add_fr(&acc, &c[i]);
        proof {
            assert(fr_val(c@[i as int]) == fr_seq_vals(c@)[i as int]);
            assert(fe_val(finished) == target[i as int]);
        }
        let ghost ob = out@;
        out.push(finished);
        proof {
            assert(fe_seq_vals(out@) =~= target.take(i + 1));
            assert forall|s2: ConstraintRef| fe_seq_in(v@, s2) implies #[trigger] fe_seq_in(
                out@,
                s2,
            ) by {
                assert(fe_seq_in(ob, s2));
                assert(fe_in(finished, s2));
                assert(forall|k: int| 0 <= k < out@.len() ==> fe_in(#[trigger] out@[k], s2));
            }
        }
        i = i + 1;
    }
    assert(fe_seq_vals(out@) =~= target);
    out
}

/// A chunk of elements folded into the state by addition, starting at
/// cursor `start`.
pub open spec fn add_chunk(st: Seq<int>, start: int, elems: Seq<int>) -> Seq<int> {
    Seq::new(
        st.len(),
        |i: int|
            if start <= i < start + elems.len() {
                v_add(st[i], elems[i - start])
            } else {
                st[i]
            },
    )
}

/// Absorbing a sequence of elements with the cursor at `start`: fold what
/// fits into the rate prefix; when the input overflows it, fold up to the
/// rate boundary, permute, and continue at cursor zero. Yields the final
/// state values and the final absorb cursor.
pub open spec fn absorb_steps(p: ParamsView, st: Seq<int>, start: int, elems: Seq<int>) -> (
    Seq<int>,
    int,
)
    decreases elems.len(),
{
    if start + elems.len() <= p.rate {
        (add_chunk(st, start, elems), start + elems.len())
    } else if start < p.rate {
        let k = p.rate - start;
        absorb_steps(p, permute_spec(p, add_chunk(st, start, elems.take(k))), 0, elems.skip(k))
    } else {
        (st, start)
    }
}

/// Where an absorb call starts: leaving squeezing always costs one
/// permutation, and so does an absorb cursor that already reached the rate.
pub open spec fn absorb_start_state(p: ParamsView, st: Seq<int>, mode: DuplexSpongeMode) -> (
    Seq<int>,
    int,
) {
    match mode {
        DuplexSpongeMode::Absorbing { next_absorb_index } => {
            if next_absorb_index == p.rate {
                (permute_spec(p, st), 0)
            } else {
                (st, next_absorb_index as int)
            }
        },
        DuplexSpongeMode::Squeezing { next_squeeze_index: _ } => (permute_spec(p, st), 0),
    }
}

/// The whole effect of absorbing a nonempty canonical sequence.
pub open spec fn absorb_full(
    p: ParamsView,
    st: Seq<int>,
    mode: DuplexSpongeMode,
    elems: Seq<int>,
) -> (Seq<int>, int) {
    absorb_steps(p, absorb_start_state(p, st, mode).0, absorb_start_state(p, st, mode).1, elems)
}

/// Squeezing `n` elements with the cursor at `start`: read what remains of
/// the rate prefix; when more is requested, permute — unless the request
/// was for exactly `rate` elements — and continue at cursor zero. Yields
/// the output values, the final state values and the final squeeze cursor.
pub open spec fn squeeze_steps(p: ParamsView, st: Seq<int>, start: int, n: int) -> (
    Seq<int>,
    Seq<int>,
    int,
)
    decreases n,
{
    if start + n <= p.rate {
        (st.subrange(start, start + n), st, start + n)
    } else if start < p.rate {
        let k = p.rate - start;
        let st2 = if n == p.rate {
            st
        } else {
            permute_spec(p, st)
        };
        let t = squeeze_steps(p, st2, 0, n - k);
        (st.subrange(start, p.rate as int) + t.0, t.1, t.2)
    } else {
        (Seq::empty(), st, start)
    }
}

/// Where a squeeze call starts: leaving absorption always costs one
/// permutation, and so does a squeeze cursor that already reached the rate.
pub open spec fn squeeze_start_state(p: ParamsView, st: Seq<int>, mode: DuplexSpongeMode) -> (
    Seq<int>,
    int,
) {
    match mode {
        DuplexSpongeMode::Absorbing { next_absorb_index: _ } => (permute_spec(p, st), 0),
        DuplexSpongeMode::Squeezing { next_squeeze_index } => {
            if next_squeeze_index == p.rate {
                (permute_spec(p, st), 0)
            } else {
                (st, next_squeeze_index as int)
            }
        },
    }
}

/// The whole effect of squeezing `n >= 1` elements.
pub open spec fn squeeze_full(p: ParamsView, st: Seq<int>, mode: DuplexSpongeMode, n: int) -> (
    Seq<int>,
    Seq<int>,
    int,
) {
    squeeze_steps(p, squeeze_start_state(p, st, mode).0, squeeze_start_state(p, st, mode).1, n)
}

impl RescueSpongeVar {
    /// Construct a sponge with all-zero state and the absorb cursor at zero.
    #[verifier::loop_isolation(false)]
    pub fn new(cs: ConstraintRef, params: RescueSpongeParameters) -> (r: RescueSpongeVar)
        requires
            params_wf(params@),
        ensures
            r.wf(),
            r.params == params,
            r.cs == cs,
            r.state_vals() == Seq::new(width(params@), |i: int| 0int),
            r.mode == (DuplexSpongeMode::Absorbing { next_absorb_index: 0 }),
    {
        let ghost target = Seq::new(width(params@), |i: int| 0int);
        let state_len: usize = params.rate + params.capacity;
        let mut state: Vec<FeVar> = Vec::new();
        let mut i: usize = 0;
        while i < state_len
            invariant
                i <= state_len,
                state@.len() == i,
                fe_seq_vals(state@) == target.take(i as int),
                forall|k: int, c: ConstraintRef|
                    0 <= k < state@.len() ==> #[trigger] fe_in(state@[k], c),
            decreases state_len - i,
        {
            state.push(FeVar::zero());
            assert(fe_seq_vals(state@) =~= target.take(i + 1));
            i = i + 1;
        }
        assert(fe_seq_vals(state@) =~= target);
        assert(forall|c: ConstraintRef| #[trigger] fe_seq_in(state@, c));
        RescueSpongeVar {
            cs,
            params,
            state,
            mode: DuplexSpongeMode::Absorbing { next_absorb_index: 0 },
        }
    }

    /// The handle to the constraint system this sponge builds relations in.
    pub fn cs(&self) -> (r: ConstraintRef)
        ensures
            r == self.cs,
    {
        self.cs.dup()
    }

    /// Fold `cnt` elements of `elements`, starting at `pos`, into the rate
    /// prefix of the state by addition, the cursor standing at `start`.
    #[verifier::loop_isolation(false)]
    fn fold_chunk(&mut self, start: usize, elements: &Vec<FeVar>, pos: usize, cnt: usize)
        requires
            old(self).wf(),
            start + cnt <= old(self).params@.rate,
            pos + cnt <= elements@.len(),
            fe_seq_in(elements@, old(self).cs),
        ensures
            final(self).wf(),
            final(self).params == old(self).params,
            final(self).cs == old(self).cs,
            final(self).mode == old(self).mode,
            final(self).state_vals() == add_chunk(
                old(self).state_vals(),
                start as int,
                fe_seq_vals(elements@).subrange(pos as int, pos + cnt),
            ),
    {
        let total = elements.len();
        let ghost st0 = self.state_vals();
        let ghost ev = fe_seq_vals(elements@);
        let mut i: usize = 0;
        while i < cnt
            invariant
                i <= cnt,
                self.params == old(self).params,
                self.cs == old(self).cs,
                self.mode == old(self).mode,
                self.state@.len() == old(self).state@.len(),
                self.state_vals() == add_chunk(st0, start as int, ev.subrange(pos as int, pos + i)),
                fe_seq_in(self.state@, self.cs),
            decreases cnt - i,
        {
            proof {
                assert(self.state_vals()[(start + i) as int] == st0[(start + i) as int]);
                assert(fe_val(self.state@[(start + i) as int]) == self.state_vals()[(start
                    + i) as int]);
                assert(fe_val(elements@[(pos + i) as int]) == ev[(pos + i) as int]);
                assert(fe_in(self.state@[(start + i) as int], self.cs));
                assert(fe_in(elements@[(pos + i) as int], self.cs));
            }
            let t = fe_add(&self.state[start + i], &elements[pos + i]);
            let ghost prev = self.state@;
            self.state[start + i] = t;
            proof {
                assert(forall|j: int|
                    0 <= j < prev.len() && j != start + i ==> self.state@[j] == prev[j]);
                assert(forall|j: int|
                    0 <= j < prev.len() && j != start + i ==> #[trigger] fe_seq_vals(
                        self.state@,
                    )[j] == fe_seq_vals(prev)[j]);
                assert(fe_seq_vals(self.state@)[(start + i) as int] == fe_val(t));
                assert(fe_in(t, self.cs));
                assert(forall|k: int| 0 <= k < self.state@.len() ==> fe_in(
                    #[trigger] self.state@[k],
                    self.cs,
                ));
                assert(self.state_vals() =~= add_chunk(
                    st0,
                    start as int,
                    ev.subrange(pos as int, pos + i + 1),
                ));
            }
            i = i + 1;
        }
        assert(self.state_vals() =~= add_chunk(
            st0,
            start as int,
            ev.subrange(pos as int, pos + cnt),
        ));
    }

    /// Absorb a nonempty sequence of elements, the cursor standing at
    /// `rate_start_index`, permuting at each rate boundary.
    #[verifier::loop_isolation(false)]
    fn absorb_internal(&mut self, rate_start_index: usize, elements: &Vec<FeVar>) -> (r: Result<
        (),
        SubstrateError,
    >)
        requires
            old(self).wf(),
            rate_start_index < old(self).params@.rate,
            fe_seq_in(elements@, old(self).cs),
        ensures
            final(self).wf(),
            final(self).params == old(self).params,
            final(self).cs == old(self).cs,
            r is Ok ==> ({
                let t = absorb_steps(
                    old(self).params@,
                    old(self).state_vals(),
                    rate_start_index as int,
                    fe_seq_vals(elements@),
                );
                &&& final(self).state_vals() == t.0
                &&& 0 <= t.1 <= old(self).params@.rate
                &&& final(self).mode == (DuplexSpongeMode::Absorbing {
                    next_absorb_index: t.1 as usize,
                })
            }),
            rate_start_index + elements@.len() <= old(self).params@.rate ==> r is Ok,
    {
        let ghost pv = self.params@;
        let ghost ev = fe_seq_vals(elements@);
        let ghost full = absorb_steps(pv, self.state_vals(), rate_start_index as int, ev);
        proof {
            assert(ev.skip(0) =~= ev);
        }
        let mut start: usize = rate_start_index;
        let mut pos: usize = 0;
        loop
            invariant
                pos <= elements@.len(),
                start < pv.rate,
                self.wf(),
                pv == self.params@,
                self.params == old(self).params,
                self.cs == old(self).cs,
                ev == fe_seq_vals(elements@),
                absorb_steps(pv, self.state_vals(), start as int, ev.skip(pos as int)) == full,
                rate_start_index + elements@.len() <= pv.rate ==> elements@.len() - pos <= pv.rate
                    - start,
            decreases elements@.len() - pos,
        {
            let remaining = elements.len() - pos;
            if remaining <= self.params.rate - start {
                let ghost pre = self.state_vals();
                self.fold_chunk(start, elements, pos, remaining);
                self.mode = DuplexSpongeMode::Absorbing { next_absorb_index: start + remaining };
                proof {
                    assert(ev.subrange(pos as int, pos + remaining) =~= ev.skip(pos as int));
                    assert(absorb_steps(pv, pre, start as int, ev.skip(pos as int)) == (
                        add_chunk(pre, start as int, ev.skip(pos as int)),
                        start + remaining,
                    ));
                }
                return Ok(());
            }
            let k = self.params.rate - start;
            let ghost pre = self.state_vals();
            self.fold_chunk(start, elements, pos, k);
            proof {
                assert(ev.subrange(pos as int, pos + k) =~= ev.skip(pos as int).take(k as int));
            }
            match self.permute() {
                Ok(unit) => {},
                Err(err) => {
                    return Err(err);
                },
            }
            proof {
                assert(absorb_steps(pv, pre, start as int, ev.skip(pos as int)) == absorb_steps(
                    pv,
                    self.state_vals(),
                    0,
                    ev.skip(pos as int).skip(k as int),
                ));
                assert(ev.skip(pos as int).skip(k as int) =~= ev.skip(pos + k));
            }
            pos = pos + k;
            start = 0;
        }
    }
}

impl RescueSpongeVar {
    /// Squeeze `n` elements, the cursor standing at `rate_start_index`:
    /// read to the end of the rate prefix, permute between pages — except
    /// when exactly `rate` elements were requested — and continue at zero.
    #[verifier::loop_isolation(false)]
    fn squeeze_internal(&mut self, rate_start_index: usize, n: usize) -> (r: Result<
        Vec<FeVar>,
        SubstrateError,
    >)
        requires
            old(self).wf(),
            rate_start_index < old(self).params@.rate,
        ensures
            final(self).wf(),
            final(self).params == old(self).params,
            final(self).cs == old(self).cs,
            r is Ok ==> ({
                let t = squeeze_steps(
                    old(self).params@,
                    old(self).state_vals(),
                    rate_start_index as int,
                    n as int,
                );
                &&& (r->Ok_0)@.len() == n
                &&& fe_seq_vals((r->Ok_0)@) == t.0
                &&& final(self).state_vals() == t.1
                &&& 0 <= t.2 <= old(self).params@.rate
                &&& final(self).mode == (DuplexSpongeMode::Squeezing {
                    next_squeeze_index: t.2 as usize,
                })
            }),
            r is Ok ==> fe_seq_in((r->Ok_0)@, old(self).cs),
            rate_start_index + n <= old(self).params@.rate ==> r is Ok,
    {
        let ghost pv = self.params@;
        let ghost full = squeeze_steps(pv, self.state_vals(), rate_start_index as int, n as int);
        let mut out: Vec<FeVar> = Vec::new();
        let mut start: usize = rate_start_index;
        proof {
            assert(fe_seq_vals(out@) =~= Seq::<int>::empty());
        }
        loop
            invariant
                out@.len() <= n,
                start < pv.rate,
                self.wf(),
                pv == self.params@,
                self.params == old(self).params,
                self.cs == old(self).cs,
                ({
                    let c = squeeze_steps(
                        pv,
                        self.state_vals(),
                        start as int,
                        n - out@.len(),
                    );
                    &&& full.0 == fe_seq_vals(out@) + c.0
                    &&& full.1 == c.1
                    &&& full.2 == c.2
                }),
                rate_start_index + n <= pv.rate ==> n - out@.len() <= pv.rate - start,
                fe_seq_in(out@, self.cs),
            decreases n - out@.len(),
        {
            let remaining = n - out.len();
            let ghost pre_out = fe_seq_vals(out@);
            let ghost st_cur = self.state_vals();
            if remaining <= self.params.rate - start {
                let mut i: usize = 0;
                while i < remaining
                    invariant
                        i <= remaining,
                        out@.len() == n - remaining + i,
                        fe_seq_vals(out@) == pre_out + st_cur.subrange(start as int, start + i),
                        fe_seq_in(out@, self.cs),
                    decreases remaining - i,
                {
                    proof {
                        assert(fe_val(self.state@[(start + i) as int]) == st_cur[(start
                            + i) as int]);
                        assert(fe_in(self.state@[(start + i) as int], self.cs));
                    }
                    let elem = self.state[start + i].dup();
                    let ghost ob = out@;
                    out.push(elem);
                    proof {
                        lemma_fe_seq_vals_push(ob, elem);
                        assert(fe_seq_vals(out@) =~= pre_out + st_cur.subrange(
                            start as int,
                            start + i + 1,
                        ));
                        assert(fe_in(elem, self.cs));
                        assert(forall|k: int| 0 <= k < out@.len() ==> fe_in(
                            #[trigger] out@[k],
                            self.cs,
                        ));
                    }
                    i = i + 1;
                }
                self.mode = DuplexSpongeMode::Squeezing { next_squeeze_index: start + remaining };
                proof {
                    assert(full.0 =~= fe_seq_vals(out@));
                }
                return Ok(out);
            }
            let k = self.params.rate - start;
            let mut i: usize = 0;
            while i < k
                invariant
                    i <= k,
                    out@.len() == n - remaining + i,
                    fe_seq_vals(out@) == pre_out + st_cur.subrange(start as int, start + i),
                    fe_seq_in(out@, self.cs),
                decreases k - i,
            {
                proof {
                    assert(fe_val(self.state@[(start + i) as int]) == st_cur[(start + i) as int]);
                    assert(fe_in(self.state@[(start + i) as int], self.cs));
                }
                let elem = self.state[start + i].dup();
                let ghost ob = out@;
                out.push(elem);
                proof {
                    lemma_fe_seq_vals_push(ob, elem);
                    assert(fe_seq_vals(out@) =~= pre_out + st_cur.subrange(
                        start as int,
                        start + i + 1,
                    ));
                    assert(fe_in(elem, self.cs));
                    assert(forall|k2: int| 0 <= k2 < out@.len() ==> fe_in(
                        #[trigger] out@[k2],
                        self.cs,
                    ));
                }
                i = i + 1;
            }
            if remaining != self.params.rate {
                match self.permute() {
                    Ok(unit) => {},
                    Err(err) => {
                        return Err(err);
                    },
                }
            }
            proof {
                let c_prev = squeeze_steps(pv, st_cur, start as int, remaining as int);
                let c_new = squeeze_steps(pv, self.state_vals(), 0, remaining - k);
                assert(c_prev.0 == st_cur.subrange(start as int, pv.rate as int) + c_new.0);
                assert(full.0 =~= (pre_out + st_cur.subrange(start as int, pv.rate as int))
                    + c_new.0);
                assert(fe_seq_vals(out@) =~= pre_out + st_cur.subrange(
                    start as int,
                    pv.rate as int,
                ));
            }
            start = 0;
        }
    }

    /// Squeeze `num_elements` field elements. Squeezing zero elements
    /// returns the empty sequence and leaves the sponge untouched: no
    /// permutation runs and the cursor keeps its value.
    pub fn squeeze_field_elements(&mut self, num_elements: usize) -> (r: Result<
        Vec<FeVar>,
        SubstrateError,
    >)
        requires
            old(self).wf(),
        ensures
            final(self).wf(),
            final(self).params == old(self).params,
            final(self).cs == old(self).cs,
            num_elements == 0 ==> r is Ok && *final(self) == *old(self) && (r->Ok_0)@.len() == 0,
            (r is Ok && num_elements >= 1) ==> ({
                let t = squeeze_full(
                    old(self).params@,
                    old(self).state_vals(),
                    old(self).mode,
                    num_elements as int,
                );
                &&& (r->Ok_0)@.len() == num_elements
                &&& fe_seq_vals((r->Ok_0)@) == t.0
                &&& final(self).state_vals() == t.1
                &&& 0 <= t.2 <= old(self).params@.rate
                &&& final(self).mode == (DuplexSpongeMode::Squeezing {
                    next_squeeze_index: t.2 as usize,
                })
            }),
            r is Ok ==> fe_seq_in((r->Ok_0)@, old(self).cs),
            (old(self).mode matches DuplexSpongeMode::Squeezing { next_squeeze_index }
                && next_squeeze_index < old(self).params@.rate && next_squeeze_index + num_elements
                <= old(self).params@.rate) ==> r is Ok,
    {
        if num_elements == 0 {
            return Ok(Vec::new());
        }
        match self.mode {
            DuplexSpongeMode::Absorbing { next_absorb_index } => {
                match self.permute() {
                    Ok(unit) => {},
                    Err(err) => {
                        return Err(err);
                    },
                }
                self.squeeze_internal(0, num_elements)
            },
            DuplexSpongeMode::Squeezing { next_squeeze_index } => {
                let mut idx = next_squeeze_index;
                if idx == self.params.rate {
                    match self.permute() {
                        Ok(unit) => {},
                        Err(err) => {
                            return Err(err);
                        },
                    }
                    idx = 0;
                }
                self.squeeze_internal(idx, num_elements)
            },
        }
    }
}

impl RescueSpongeVar {
    /// Absorb a value usable in this sponge's constraint system. An empty
    /// canonicalization is a no-op. Otherwise the elements are folded into
    /// the rate prefix; leaving squeezing, or an absorb cursor that
    /// already reached the rate, costs one permutation first.
    pub fn absorb<A: AbsorbableGadget>(&mut self, input: &A) -> (r: Result<(), SubstrateError>)
        requires
            old(self).wf(),
            input.in_system(old(self).cs),
        ensures
            final(self).wf(),
            final(self).params == old(self).params,
            final(self).cs == old(self).cs,
            (r is Ok && input.canonical().len() == 0) ==> *final(self) == *old(self),
            (r is Ok && input.canonical().len() >= 1) ==> ({
                let t = absorb_full(
                    old(self).params@,
                    old(self).state_vals(),
                    old(self).mode,
                    input.canonical(),
                );
                &&& final(self).state_vals() == t.0
                &&& 0 <= t.1 <= old(self).params@.rate
                &&& final(self).mode == (DuplexSpongeMode::Absorbing {
                    next_absorb_index: t.1 as usize,
                })
            }),
            (input.infallible() && input.canonical().len() == 0) ==> r is Ok,
    {
        proof {
            assert(input.in_system(old(self).cs));
        }
        let elems = match input.to_sponge_field_elements() {
            Ok(v) => v,
            Err(err) => {
                return Err(err);
            },
        };
        proof {
            assert(fe_seq_in(elems@, self.cs));
        }
        if elems.len() == 0 {
            return Ok(());
        }
        match self.mode {
            DuplexSpongeMode::Absorbing { next_absorb_index } => {
                let mut idx = next_absorb_index;
                if idx == self.params.rate {
                    match self.permute() {
                        Ok(unit) => {},
                        Err(err) => {
                            return Err(err);
                        },
                    }
                    idx = 0;
                }
                self.absorb_internal(idx, &elems)
            },
            DuplexSpongeMode::Squeezing { next_squeeze_index } => {
                match self.permute() {
                    Ok(unit) => {},
                    Err(err) => {
                        return Err(err);
                    },
                }
                self.absorb_internal(0, &elems)
            },
        }
    }

    /// Squeeze `num_bytes` bytes: squeeze enough field elements to cover
    /// them, take the low 31 bytes of each (the field's 254-bit capacity
    /// in whole bytes), and stop at the requested count.
    #[verifier::loop_isolation(false)]
    pub fn squeeze_bytes(&mut self, num_bytes: usize) -> (r: Result<Vec<ByteVar>, SubstrateError>)
        requires
            old(self).wf(),
            num_bytes + 31 <= usize::MAX,
        ensures
            final(self).wf(),
            final(self).params == old(self).params,
            final(self).cs == old(self).cs,
            num_bytes == 0 ==> r is Ok && *final(self) == *old(self) && (r->Ok_0)@.len() == 0,
            (r is Ok && num_bytes >= 1) ==> ({
                let ne = (num_bytes + 30) / 31;
                let t = squeeze_full(
                    old(self).params@,
                    old(self).state_vals(),
                    old(self).mode,
                    ne as int,
                );
                &&& (r->Ok_0)@.len() == num_bytes
                &&& (forall|i: int, j: int|
                    0 <= i && 0 <= j < 31 && 31 * i + j < num_bytes ==> byte_val(
                        #[trigger] (r->Ok_0)@[31 * i + j],
                    ) == byte_of(t.0[i], j))
                &&& final(self).state_vals() == t.1
                &&& final(self).mode == (DuplexSpongeMode::Squeezing {
                    next_squeeze_index: t.2 as usize,
                })
            }),
    {
        let usable_bytes = capacity_bits() / 8;
        let num_elements = (num_bytes + usable_bytes - 1) / usable_bytes;
        let src_elements = match self.squeeze_field_elements(num_elements) {
            Ok(v) => v,
            Err(err) => {
                return Err(err);
            },
        };
        if num_bytes == 0 {
            return Ok(Vec::new());
        }
        let ghost ev = fe_seq_vals(src_elements@);
        let mut bytes: Vec<ByteVar> = Vec::new();
        let mut i: usize = 0;
        while i < num_elements
            invariant
                i <= num_elements,
                bytes@.len() == if 31 * i <= num_bytes {
                    31 * i
                } else {
                    num_bytes as int
                },
                forall|i2: int, j2: int|
                    0 <= i2 && 0 <= j2 < 31 && 31 * i2 + j2 < bytes@.len() ==> byte_val(
                        #[trigger] bytes@[31 * i2 + j2],
                    ) == byte_of(ev[i2], j2),
            decreases num_elements - i,
        {
            proof {
                assert(fe_val(src_elements@[i as int]) == ev[i as int]);
                assert(fe_in(src_elements@[i as int], old(self).cs));
                assert(fe_grounded(src_elements@[i as int]));
            }
            let elem_bytes = match fe_to_bytes(&src_elements[i]) {
                Ok(v) => v,
                Err(err) => {
                    return Err(SubstrateError::Synthesis(err));
                },
            };
            let mut j: usize = 0;
            while j < 31 && bytes.len() < num_bytes
                invariant
                    j <= 31,
                    bytes@.len() == if 31 * i + j <= num_bytes {
                        31 * i + j
                    } else {
                        num_bytes as int
                    },
                    forall|i2: int, j2: int|
                        0 <= i2 && 0 <= j2 < 31 && 31 * i2 + j2 < bytes@.len() ==> byte_val(
                            #[trigger] bytes@[31 * i2 + j2],
                        ) == byte_of(ev[i2], j2),
                decreases 31 - j,
            {
                let b = elem_bytes[j].dup();
                let ghost ob = bytes@;
                bytes.push(b);
                proof {
                    lemma_byte_seq_vals_push(ob, b);
                    assert(byte_val(b) == byte_of(ev[i as int], j as int));
                }
                j = j + 1;
            }
            i = i + 1;
        }
        proof {
            assert(31 * num_elements >= num_bytes);
        }
        Ok(bytes)
    }

    /// Squeeze `num_bits` bits: squeeze enough field elements to cover
    /// them, take the low 254 bits of each (the field's capacity), and
    /// stop at the requested count.
    #[verifier::loop_isolation(false)]
    pub fn squeeze_bits(&mut self, num_bits: usize) -> (r: Result<Vec<BoolVar>, SubstrateError>)
        requires
            old(self).wf(),
            num_bits + 254 <= usize::MAX,
        ensures
            final(self).wf(),
            final(self).params == old(self).params,
            final(self).cs == old(self).cs,
            num_bits == 0 ==> r is Ok && *final(self) == *old(self) && (r->Ok_0)@.len() == 0,
            (r is Ok && num_bits >= 1) ==> ({
                let ne = (num_bits + 253) / 254;
                let t = squeeze_full(
                    old(self).params@,
                    old(self).state_vals(),
                    old(self).mode,
                    ne as int,
                );
                &&& (r->Ok_0)@.len() == num_bits
                &&& (forall|i: int, j: int|
                    0 <= i && 0 <= j < 254 && 254 * i + j < num_bits ==> bool_val(
                        #[trigger] (r->Ok_0)@[254 * i + j],
                    ) == bit_of(t.0[i], j))
                &&& final(self).state_vals() == t.1
                &&& final(self).mode == (DuplexSpongeMode::Squeezing {
                    next_squeeze_index: t.2 as usize,
                })
            }),
    {
        let usable_bits = capacity_bits();
        let num_elements = (num_bits + usable_bits - 1) / usable_bits;
        let src_elements = match self.squeeze_field_elements(num_elements) {
            Ok(v) => v,
            Err(err) => {
                return Err(err);
            },
        };
        if num_bits == 0 {
            return Ok(Vec::new());
        }
        let ghost ev = fe_seq_vals(src_elements@);
        let mut bits: Vec<BoolVar> = Vec::new();
        let mut i: usize = 0;
        while i < num_elements
            invariant
                i <= num_elements,
                bits@.len() == if 254 * i <= num_bits {
                    254 * i
                } else {
                    num_bits as int
                },
                forall|i2: int, j2: int|
                    0 <= i2 && 0 <= j2 < 254 && 254 * i2 + j2 < bits@.len() ==> bool_val(
                        #[trigger] bits@[254 * i2 + j2],
                    ) == bit_of(ev[i2], j2),
            decreases num_elements - i,
        {
            proof {
                assert(fe_val(src_elements@[i as int]) == ev[i as int]);
                assert(fe_in(src_elements@[i as int], old(self).cs));
                assert(fe_grounded(src_elements@[i as int]));
            }
            let elem_bits = match fe_to_bits(&src_elements[i]) {
                Ok(v) => v,
                Err(err) => {
                    return Err(SubstrateError::Synthesis(err));
                },
            };
            let mut j: usize = 0;
            while j < 254 && bits.len() < num_bits
                invariant
                    j <= 254,
                    bits@.len() == if 254 * i + j <= num_bits {
                        254 * i + j
                    } else {
                        num_bits as int
                    },
                    forall|i2: int, j2: int|
                        0 <= i2 && 0 <= j2 < 254 && 254 * i2 + j2 < bits@.len() ==> bool_val(
                            #[trigger] bits@[254 * i2 + j2],
                        ) == bit_of(ev[i2], j2),
                decreases 254 - j,
            {
                let b = elem_bits[j].dup();
                let ghost ob = bits@;
                bits.push(b);
                proof {
                    assert(bool_val(b) == bit_of(ev[i as int], j as int));
                    assert(forall|j3: int| 0 <= j3 < ob.len() ==> bits@[j3] == ob[j3]);
                }
                j = j + 1;
            }
            i = i + 1;
        }
        proof {
            assert(254 * num_elements >= num_bits);
        }
        Ok(bits)
    }
}

} // verus!
