use ark_ff::{BigInteger, Field, PrimeField, Zero};
use rescue_gadget::absorbable::AbsorbableGadget;
use rescue_gadget::field::{BoolVar, ByteVar, ConstraintRef, FeVar, Fr, TePointVar};
use rescue_gadget::sponge::{RescueSpongeParameters, RescueSpongeVar};

// A toy parameter set: rate 2, capacity 1, one round, alpha = 5 and its
// inverse modulo the multiplicative group order, all-zero initial
// constant, identity constants matrix, zero constants vector, and a
// fixed invertible 3x3 diffusion matrix.
fn toy_params() -> RescueSpongeParameters {
    let zero = Fr::zero();
    let one = Fr::from(1u64);
    let two = Fr::from(2u64);
    RescueSpongeParameters {
        rate: 2,
        capacity: 1,
        rounds: 1,
        alpha: vec![5u64],
        invalpha: vec![
            0x33333332cccccccd,
            0x217f0e679998f199,
            0xe14a56699d73f002,
            0x2e5f0fbadd72321c,
        ],
        initial_constant: vec![zero, zero, zero],
        constants_matrix: vec![
            vec![one, zero, zero],
            vec![zero, one, zero],
            vec![zero, zero, one],
        ],
        constants_constant: vec![zero, zero, zero],
        mds: vec![
            vec![two, one, one],
            vec![one, two, one],
            vec![one, one, two],
        ],
    }
}

// A straight-line, non-circuit implementation of the identical
// permutation, used as the reference the gadget must reproduce.
fn reference_permute(p: &RescueSpongeParameters, state: &mut Vec<Fr>) {
    let w = p.rate + p.capacity;
    let mut ki = p.initial_constant.clone();
    let mut ks = p.initial_constant.clone();
    for i in 0..w {
        state[i] += ks[i];
    }
    for r in 0..2 * p.rounds {
        let exp: &[u64] = if r % 2 == 0 { &p.invalpha } else { &p.alpha };
        for i in 0..w {
            ks[i] = ks[i].pow(exp);
            state[i] = state[i].pow(exp);
        }
        let old = ki.clone();
        for i in 0..w {
            ki[i] = Fr::zero();
            for j in 0..w {
                ki[i] += p.constants_matrix[i][j] * old[j];
            }
            ki[i] += p.constants_constant[i];
        }
        let old = ks.clone();
        for i in 0..w {
            ks[i] = Fr::zero();
            for j in 0..w {
                ks[i] += p.mds[i][j] * old[j];
            }
            ks[i] += ki[i];
        }
        let old = state.clone();
        for i in 0..w {
            state[i] = Fr::zero();
            for j in 0..w {
                state[i] += p.mds[i][j] * old[j];
            }
            state[i] += ks[i];
        }
    }
}

fn le_bytes_of(v: &Fr) -> Vec<u8> {
    v.into_repr().to_bytes_le()
}

#[test]
fn end_to_end_matches_reference() {
    let cs = ConstraintRef::new_ref();
    let mut sponge = RescueSpongeVar::new(cs.dup(), toy_params());
    let one_var = FeVar::new_witness(&cs, &Fr::from(1u64)).unwrap();
    sponge.absorb(&one_var).unwrap();
    let out = sponge.squeeze_field_elements(1).unwrap();
    assert_eq!(out.len(), 1);

    let p = toy_params();
    let mut state = vec![Fr::zero(), Fr::zero(), Fr::zero()];
    state[0] += Fr::from(1u64);
    reference_permute(&p, &mut state);
    assert_eq!(out[0].value().unwrap(), state[0]);
}

#[test]
fn squeeze_zero_elements_is_a_no_op() {
    let cs = ConstraintRef::new_ref();
    let mut s1 = RescueSpongeVar::new(cs.dup(), toy_params());
    let empty = s1.squeeze_field_elements(0).unwrap();
    assert_eq!(empty.len(), 0);
    let after = s1.squeeze_field_elements(1).unwrap();

    let mut s2 = RescueSpongeVar::new(cs.dup(), toy_params());
    let fresh = s2.squeeze_field_elements(1).unwrap();
    assert_eq!(after[0].value().unwrap(), fresh[0].value().unwrap());
}

#[test]
fn absorb_squeeze_deterministic() {
    let cs = ConstraintRef::new_ref();
    let mut s1 = RescueSpongeVar::new(cs.dup(), toy_params());
    let mut s2 = RescueSpongeVar::new(cs.dup(), toy_params());
    let bytes = vec![
        ByteVar::new_witness(&cs, 7u8).unwrap(),
        ByteVar::new_witness(&cs, 200u8).unwrap(),
    ];
    let flag = BoolVar::new_witness(&cs, true).unwrap();
    let x = FeVar::new_witness(&cs, &Fr::from(42u64)).unwrap();
    s1.absorb(&bytes).unwrap();
    s1.absorb(&flag).unwrap();
    s1.absorb(&x).unwrap();
    let bytes2 = vec![
        ByteVar::new_witness(&cs, 7u8).unwrap(),
        ByteVar::new_witness(&cs, 200u8).unwrap(),
    ];
    let flag2 = BoolVar::new_witness(&cs, true).unwrap();
    let x2 = FeVar::new_witness(&cs, &Fr::from(42u64)).unwrap();
    s2.absorb(&bytes2).unwrap();
    s2.absorb(&flag2).unwrap();
    s2.absorb(&x2).unwrap();
    let o1 = s1.squeeze_field_elements(3).unwrap();
    let o2 = s2.squeeze_field_elements(3).unwrap();
    for i in 0..3 {
        assert_eq!(o1[i].value().unwrap(), o2[i].value().unwrap());
    }
}

#[test]
fn absorb_after_squeeze_permutes_once() {
    let cs = ConstraintRef::new_ref();
    let mut sponge = RescueSpongeVar::new(cs.dup(), toy_params());
    let a = FeVar::new_witness(&cs, &Fr::from(1u64)).unwrap();
    let b = FeVar::new_witness(&cs, &Fr::from(2u64)).unwrap();
    sponge.absorb(&a).unwrap();
    let first = sponge.squeeze_field_elements(1).unwrap();
    sponge.absorb(&b).unwrap();
    let second = sponge.squeeze_field_elements(1).unwrap();

    let p = toy_params();
    let mut state = vec![Fr::zero(), Fr::zero(), Fr::zero()];
    state[0] += Fr::from(1u64);
    reference_permute(&p, &mut state);
    assert_eq!(first[0].value().unwrap(), state[0]);
    // Leaving squeezing costs exactly one permutation before folding.
    reference_permute(&p, &mut state);
    state[0] += Fr::from(2u64);
    reference_permute(&p, &mut state);
    assert_eq!(second[0].value().unwrap(), state[0]);
}

#[test]
fn absorb_overflow_two_permutations_cursor_one() {
    let cs = ConstraintRef::new_ref();
    let mut sponge = RescueSpongeVar::new(cs.dup(), toy_params());
    // 2 * rate + 1 = 5 elements, absorbed as one field-element batch.
    let mut elems = Vec::new();
    for v in 1u64..6u64 {
        elems.push(FeVar::new_witness(&cs, &Fr::from(v)).unwrap());
    }
    sponge.absorb(&elems).unwrap();
    // The cursor now stands at one: the next element folds at index 1
    // without a permutation.
    let extra = FeVar::new_witness(&cs, &Fr::from(9u64)).unwrap();
    sponge.absorb(&extra).unwrap();
    let out = sponge.squeeze_field_elements(2).unwrap();

    let p = toy_params();
    let mut state = vec![Fr::zero(), Fr::zero(), Fr::zero()];
    state[0] += Fr::from(1u64);
    state[1] += Fr::from(2u64);
    reference_permute(&p, &mut state);
    state[0] += Fr::from(3u64);
    state[1] += Fr::from(4u64);
    reference_permute(&p, &mut state);
    state[0] += Fr::from(5u64);
    state[1] += Fr::from(9u64);
    reference_permute(&p, &mut state);
    assert_eq!(out[0].value().unwrap(), state[0]);
    assert_eq!(out[1].value().unwrap(), state[1]);
}

#[test]
fn squeeze_bytes_exact_length_and_values() {
    let cs = ConstraintRef::new_ref();
    let mut sponge = RescueSpongeVar::new(cs.dup(), toy_params());
    let bytes = sponge.squeeze_bytes(5).unwrap();
    assert_eq!(bytes.len(), 5);

    let p = toy_params();
    let mut state = vec![Fr::zero(), Fr::zero(), Fr::zero()];
    reference_permute(&p, &mut state);
    let expected = le_bytes_of(&state[0]);
    for j in 0..5 {
        assert_eq!(bytes[j].value().unwrap(), expected[j]);
    }
}

#[test]
fn squeeze_bytes_consecutive_aligned_calls_concatenate() {
    let cs = ConstraintRef::new_ref();
    let mut s1 = RescueSpongeVar::new(cs.dup(), toy_params());
    let whole = s1.squeeze_bytes(62).unwrap();
    let mut s2 = RescueSpongeVar::new(cs.dup(), toy_params());
    let first = s2.squeeze_bytes(31).unwrap();
    let second = s2.squeeze_bytes(31).unwrap();
    assert_eq!(whole.len(), 62);
    assert_eq!(first.len(), 31);
    assert_eq!(second.len(), 31);
    for j in 0..31 {
        assert_eq!(whole[j].value().unwrap(), first[j].value().unwrap());
        assert_eq!(whole[31 + j].value().unwrap(), second[j].value().unwrap());
    }
}

#[test]
fn squeeze_bits_exact_length_and_values() {
    let cs = ConstraintRef::new_ref();
    let mut sponge = RescueSpongeVar::new(cs.dup(), toy_params());
    let bits = sponge.squeeze_bits(10).unwrap();
    assert_eq!(bits.len(), 10);

    let p = toy_params();
    let mut state = vec![Fr::zero(), Fr::zero(), Fr::zero()];
    reference_permute(&p, &mut state);
    let expected = le_bytes_of(&state[0]);
    for j in 0..10 {
        let bit = (expected[j / 8] >> (j % 8)) & 1 == 1;
        assert_eq!(bits[j].value().unwrap(), bit);
    }
}

#[test]
fn byte_batch_of_one_carries_length_prefix() {
    let batch = vec![ByteVar::constant(0xAB)];
    let fes = ByteVar::batch_to_sponge_field_elements(&batch).unwrap();
    // Nine bytes pack into one element: the prefix 1 as eight
    // little-endian bytes, then the byte 0xAB at weight 256^8.
    assert_eq!(fes.len(), 1);
    let expected = Fr::from(1u64) + Fr::from(0xABu64) * Fr::from(0x10000000000000000u128);
    assert_eq!(fes[0].value().unwrap(), expected);
}

#[test]
fn field_element_batch_of_one_is_unframed() {
    let cs = ConstraintRef::new_ref();
    let x = FeVar::new_witness(&cs, &Fr::from(77u64)).unwrap();
    let single = x.to_sponge_field_elements().unwrap();
    let batch = FeVar::batch_to_sponge_field_elements(&vec![x]).unwrap();
    assert_eq!(single.len(), 1);
    assert_eq!(batch.len(), 1);
    assert_eq!(single[0].value().unwrap(), batch[0].value().unwrap());
}

#[test]
fn option_contributes_presence_flag() {
    let cs = ConstraintRef::new_ref();
    let x = FeVar::new_witness(&cs, &Fr::from(5u64)).unwrap();
    let some: Option<FeVar> = Some(x);
    let fes = some.to_sponge_field_elements().unwrap();
    assert_eq!(fes.len(), 2);
    assert_eq!(fes[0].value().unwrap(), Fr::from(1u64));
    assert_eq!(fes[1].value().unwrap(), Fr::from(5u64));

    let none: Option<FeVar> = None;
    let fes = none.to_sponge_field_elements().unwrap();
    assert_eq!(fes.len(), 1);
    assert_eq!(fes[0].value().unwrap(), Fr::zero());
}

#[test]
fn boolean_canonicalizes_to_zero_or_one() {
    let cs = ConstraintRef::new_ref();
    let t = BoolVar::new_witness(&cs, true).unwrap();
    let f = BoolVar::new_witness(&cs, false).unwrap();
    let ft = t.to_sponge_field_elements().unwrap();
    let ff = f.to_sponge_field_elements().unwrap();
    assert_eq!(ft[0].value().unwrap(), Fr::from(1u64));
    assert_eq!(ff[0].value().unwrap(), Fr::zero());
}

#[test]
fn byte_batches_of_different_lengths_differ() {
    // [1, 2] absorbed as one batch differs from [1] then [2]: the length
    // prefix keeps them apart.
    let cs = ConstraintRef::new_ref();
    let mut s1 = RescueSpongeVar::new(cs.dup(), toy_params());
    let mut s2 = RescueSpongeVar::new(cs.dup(), toy_params());
    let two = vec![ByteVar::constant(1), ByteVar::constant(2)];
    s1.absorb(&two).unwrap();
    let one_a = vec![ByteVar::constant(1)];
    let one_b = vec![ByteVar::constant(2)];
    s2.absorb(&one_a).unwrap();
    s2.absorb(&one_b).unwrap();
    let o1 = s1.squeeze_field_elements(1).unwrap();
    let o2 = s2.squeeze_field_elements(1).unwrap();
    assert_ne!(o1[0].value().unwrap(), o2[0].value().unwrap());
}

#[test]
fn curve_point_contributes_its_coordinates() {
    let cs = ConstraintRef::new_ref();
    let x = Fr::from(11u64);
    let y = Fr::from(22u64);
    let point = TePointVar::new_witness(&cs, &x, &y).unwrap();
    let mut s1 = RescueSpongeVar::new(cs.dup(), toy_params());
    s1.absorb(&point).unwrap();

    // Absorbing the two coordinates as an unframed field-element batch
    // folds in the same sequence.
    let coords = vec![
        FeVar::new_witness(&cs, &x).unwrap(),
        FeVar::new_witness(&cs, &y).unwrap(),
    ];
    let mut s2 = RescueSpongeVar::new(cs.dup(), toy_params());
    s2.absorb(&coords).unwrap();

    let o1 = s1.squeeze_field_elements(1).unwrap();
    let o2 = s2.squeeze_field_elements(1).unwrap();
    assert_eq!(o1[0].value().unwrap(), o2[0].value().unwrap());
}
