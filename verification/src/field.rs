use vstd::prelude::*;
use ark_bls12_381::FrParameters;
use ark_ff::FpParameters;
use ark_r1cs_std::fields::fp::FpVar;
use ark_r1cs_std::fields::FieldVar;
use ark_r1cs_std::bits::uint8::UInt8;
use ark_r1cs_std::bits::boolean::Boolean;
use ark_r1cs_std::alloc::AllocVar;
use ark_r1cs_std::R1CSVar;
use ark_r1cs_std::ToBytesGadget;
use ark_r1cs_std::ToBitsGadget;
use ark_r1cs_std::ToConstraintFieldGadget;
use ark_r1cs_std::groups::curves::twisted_edwards::AffineVar as TEAffineVar;
use ark_ed_on_bls12_381::EdwardsParameters;
use ark_relations::r1cs::SynthesisError;
use ark_relations::r1cs::ConstraintSystem;
use ark_relations::r1cs::ConstraintSystemRef;

verus! {

// The sponge is instantiated over the scalar field of BLS12-381, a prime
// field of 255-bit order. Constant field elements (`Fr`) appear directly;
// circuit values — field variables, bytes, booleans and the handle to the
// constraint system they are allocated in — carry trait bounds Verus
// cannot declare, so each is held in a small opaque struct below. Every
// value is abstracted by the integer (or truth value) it stands for, and
// every trusted operation says how the value of its result arises from
// the values of its inputs.
//
// Circuit values live in constraint systems. A variable allocated in one
// system stands for its value only there: a combination of variables
// from two different systems is stored as variable indices in one of
// them and no longer means the sum of the two values. The membership
// predicates below (`fe_in` and its kin) state that discipline: a
// constant is usable in every system, an allocated variable only in its
// own, and the operations that combine or evaluate circuit values demand
// a common system. Every contract about values holds under it.

/// The scalar field element type the sponge is instantiated over.
pub type Fr = ark_bls12_381::Fr;

#[verifier::external_type_specification]
#[verifier::external_body]
#[verifier::reject_recursive_types(P)]
pub struct ExFp256<P>(ark_ff::Fp256<P>);

#[verifier::external_type_specification]
#[verifier::external_body]
pub struct ExFrParameters(FrParameters);

#[verifier::external_type_specification]
#[verifier::external_body]
pub struct ExSynthesisError(SynthesisError);

/// A circuit variable standing for one field element.
#[verifier::external_body]
pub struct FeVar {
    inner: FpVar<Fr>,
}

/// A circuit variable standing for one byte.
#[verifier::external_body]
pub struct ByteVar {
    inner: UInt8<Fr>,
}

/// A circuit variable standing for one boolean.
#[verifier::external_body]
pub struct BoolVar {
    inner: Boolean<Fr>,
}

/// A circuit variable standing for a twisted Edwards curve point in
/// affine coordinates, each coordinate lying in the scalar field.
#[verifier::external_body]
pub struct TePointVar {
    inner: TEAffineVar<EdwardsParameters, FpVar<Fr>>,
}

/// A handle to the constraint system that circuit variables are allocated in.
#[verifier::external_body]
pub struct ConstraintRef {
    inner: ConstraintSystemRef<Fr>,
}

/// The order of the BLS12-381 scalar field, assembled from its four
/// 64-bit little-endian limbs:
/// 52435875175126190479447740508185965837690552500527637822603658699938581184513.
pub open spec fn fr_order() -> int {
    ((0x73eda753299d7d48int * 0x10000000000000000int + 0x3339d80809a1d805int)
        * 0x10000000000000000int + 0x53bda402fffe5bfeint) * 0x10000000000000000int
        + 0xffffffff00000001int
}

/// Field addition on canonical representatives.
pub open spec fn v_add(a: int, b: int) -> int {
    (a + b) % fr_order()
}

/// Field multiplication on canonical representatives.
pub open spec fn v_mul(a: int, b: int) -> int {
    (a * b) % fr_order()
}

/// Field exponentiation by a non-negative integer exponent.
pub open spec fn v_pow(a: int, e: int) -> int
    decreases e,
{
    if e <= 0 {
        1int % fr_order()
    } else {
        v_mul(v_pow(a, e - 1), a)
    }
}

/// The non-negative integer a little-endian sequence of 64-bit limbs stands for.
pub open spec fn limbs_val(s: Seq<u64>) -> int
    decreases s.len(),
{
    if s.len() == 0 {
        0
    } else {
        s[0] + 0x10000000000000000 * limbs_val(s.skip(1))
    }
}

pub open spec fn pow2i(k: int) -> int
    decreases k,
{
    if k <= 0 {
        1
    } else {
        2 * pow2i(k - 1)
    }
}

/// Byte `j` of the little-endian byte decomposition of `v`.
pub open spec fn byte_of(v: int, j: int) -> int {
    (v / pow2i(8 * j)) % 256
}

/// Bit `j` of the little-endian bit decomposition of `v`.
pub open spec fn bit_of(v: int, j: int) -> bool {
    (v / pow2i(j)) % 2 == 1
}

/// The integer a little-endian byte sequence stands for.
pub open spec fn le_val(bytes: Seq<int>) -> int
    decreases bytes.len(),
{
    if bytes.len() == 0 {
        0
    } else {
        bytes[0] + 256 * le_val(bytes.skip(1))
    }
}

/// How a byte sequence is packed into field elements: chunks of 31 bytes
/// (the field's 254-bit capacity divided by 8), each read as a
/// little-endian integer. 31 bytes always fit below the field order, so
/// no reduction occurs.
pub open spec fn pack_bytes(bytes: Seq<int>) -> Seq<int>
    decreases bytes.len(),
{
    if bytes.len() == 0 {
        Seq::empty()
    } else if bytes.len() <= 31 {
        seq![le_val(bytes)]
    } else {
        seq![le_val(bytes.take(31))] + pack_bytes(bytes.skip(31))
    }
}

/// The eight little-endian bytes of a 64-bit length, as used for a length prefix.
pub open spec fn u64_le_bytes(n: u64) -> Seq<int> {
    seq![
        (n as int) % 256,
        ((n as int) / 256) % 256,
        ((n as int) / 65536) % 256,
        ((n as int) / 16777216) % 256,
        ((n as int) / 4294967296) % 256,
        ((n as int) / 1099511627776) % 256,
        ((n as int) / 281474976710656) % 256,
        ((n as int) / 72057594037927936) % 256,
    ]
}

/// The canonical representative (in `[0, fr_order)`) of a constant field element.
pub uninterp spec fn fr_val(c: Fr) -> int;

/// The canonical representative of the field value a circuit variable stands for.
pub uninterp spec fn fe_val(x: FeVar) -> int;

/// The value in `[0, 256)` a circuit byte stands for.
pub uninterp spec fn byte_val(b: ByteVar) -> int;

/// The truth value a circuit boolean stands for.
pub uninterp spec fn bool_val(b: BoolVar) -> bool;

/// The affine coordinates (x, then y) a circuit curve point stands for.
pub uninterp spec fn te_coords(p: TePointVar) -> Seq<int>;

/// Whether a circuit field element is usable in the given constraint
/// system: it is a constant, or every variable it references was
/// allocated there. Only then does it stand for its value in that system.
pub uninterp spec fn fe_in(x: FeVar, c: ConstraintRef) -> bool;

/// Whether a circuit byte is usable in the given constraint system.
pub uninterp spec fn byte_in(b: ByteVar, c: ConstraintRef) -> bool;

/// Whether a circuit boolean is usable in the given constraint system.
pub uninterp spec fn bool_in(b: BoolVar, c: ConstraintRef) -> bool;

/// Whether a circuit curve point is usable in the given constraint system.
pub uninterp spec fn te_in(p: TePointVar, c: ConstraintRef) -> bool;

/// A circuit field element that is usable in some constraint system —
/// not a combination of variables from two different ones. Only such an
/// element can be evaluated or decomposed.
pub open spec fn fe_grounded(x: FeVar) -> bool {
    exists|c: ConstraintRef| fe_in(x, c)
}

/// Every element of the sequence is usable in the given system.
pub open spec fn fe_seq_in(s: Seq<FeVar>, c: ConstraintRef) -> bool {
    forall|i: int| 0 <= i < s.len() ==> fe_in(#[trigger] s[i], c)
}

/// Every byte of the sequence is usable in the given system.
pub open spec fn byte_seq_in(s: Seq<ByteVar>, c: ConstraintRef) -> bool {
    forall|i: int| 0 <= i < s.len() ==> byte_in(#[trigger] s[i], c)
}

/// The values behind a sequence of constant field elements.
pub open spec fn fr_seq_vals(s: Seq<Fr>) -> Seq<int> {
    s.map_values(|c: Fr| fr_val(c))
}

/// The values behind a sequence of circuit field elements.
pub open spec fn fe_seq_vals(s: Seq<FeVar>) -> Seq<int> {
    s.map_values(|x: FeVar| fe_val(x))
}

/// The values behind a sequence of circuit bytes.
pub open spec fn byte_seq_vals(s: Seq<ByteVar>) -> Seq<int> {
    s.map_values(|b: ByteVar| byte_val(b))
}

/// The truth values behind a sequence of circuit booleans.
pub open spec fn bool_seq_vals(s: Seq<BoolVar>) -> Seq<bool> {
    s.map_values(|b: BoolVar| bool_val(b))
}

/// Mapping to values commutes with appending one circuit element.
pub proof fn lemma_fe_seq_vals_push(s: Seq<FeVar>, x: FeVar)
    ensures
        fe_seq_vals(s.push(x)) == fe_seq_vals(s).push(fe_val(x)),
{
    assert(forall|j: int|
        0 <= j < s.len() ==> #[trigger] fe_seq_vals(s.push(x))[j] == fe_seq_vals(s)[j]);
    assert(fe_seq_vals(s.push(x))[s.len() as int] == fe_val(x));
    assert(fe_seq_vals(s.push(x)) =~= fe_seq_vals(s).push(fe_val(x)));
}

/// Mapping to values commutes with appending one circuit byte.
pub proof fn lemma_byte_seq_vals_push(s: Seq<ByteVar>, x: ByteVar)
    ensures
        byte_seq_vals(s.push(x)) == byte_seq_vals(s).push(byte_val(x)),
{
    assert(forall|j: int|
        0 <= j < s.len() ==> #[trigger] byte_seq_vals(s.push(x))[j] == byte_seq_vals(s)[j]);
    assert(byte_seq_vals(s.push(x))[s.len() as int] == byte_val(x));
    assert(byte_seq_vals(s.push(x)) =~= byte_seq_vals(s).push(byte_val(x)));
}

/// Relies on `ark_ff::Zero::zero` for `Fr`: the additive identity.
#[verifier::external_body]
pub fn fr_zero() -> (r: Fr)
    ensures
        fr_val(r) == 0,
{
    <Fr as ark_ff::Zero>::zero()
}

/// Relies on `Add` for `Fr`: field addition.
#[verifier::external_body]
pub fn fr_add(a: &Fr, b: &Fr) -> (r: Fr)
    ensures
        fr_val(r) == v_add(fr_val(*a), fr_val(*b)),
{
    *a + *b
}

/// Relies on `Mul` for `Fr`: field multiplication.
#[verifier::external_body]
pub fn fr_mul(a: &Fr, b: &Fr) -> (r: Fr)
    ensures
        fr_val(r) == v_mul(fr_val(*a), fr_val(*b)),
{
    *a * *b
}

/// Relies on `ark_ff::Field::pow`: exponentiation by the integer the
/// little-endian limbs stand for, by binary square-and-multiply.
#[verifier::external_body]
pub fn fr_pow(a: &Fr, e: &Vec<u64>) -> (r: Fr)
    ensures
        fr_val(r) == v_pow(fr_val(*a), limbs_val(e@)),
{
    ark_ff::Field::pow(a, e.as_slice())
}

/// Relies on `Fr` being `Copy`: the copy stands for the same value.
#[verifier::external_body]
pub fn fr_copy(a: &Fr) -> (r: Fr)
    ensures
        fr_val(r) == fr_val(*a),
{
    *a
}

impl FeVar {
    /// Relies on `FieldVar::zero` for `FpVar`: the constant zero variable.
    #[verifier::external_body]
    pub fn zero() -> (r: FeVar)
        ensures
            fe_val(r) == 0,
            forall|c: ConstraintRef| #[trigger] fe_in(r, c),
    {
        FeVar { inner: FpVar::zero() }
    }

    /// Relies on `FpVar::Constant`: a constant circuit variable standing
    /// for the given field element.
    #[verifier::external_body]
    pub fn constant(c: &Fr) -> (r: FeVar)
        ensures
            fe_val(r) == fr_val(*c),
            forall|s2: ConstraintRef| #[trigger] fe_in(r, s2),
    {
        FeVar { inner: FpVar::Constant(*c) }
    }

    /// Relies on `AllocVar::new_witness` for `FpVar`: on success the
    /// allocated variable stands for the given field element.
    #[verifier::external_body]
    pub fn new_witness(cs: &ConstraintRef, c: &Fr) -> (r: Result<FeVar, SynthesisError>)
        ensures
            r is Ok ==> fe_val(r->Ok_0) == fr_val(*c) && fe_in(r->Ok_0, *cs),
    {
        let v = FpVar::new_witness(cs.inner.clone(), || Ok(*c))?;
        Ok(FeVar { inner: v })
    }

    /// Relies on `R1CSVar::value` for `FpVar`: on success the returned
    /// field element is the one the variable stands for. Evaluation reads
    /// the variable's own system, so the value must not combine variables
    /// of two different systems.
    #[verifier::external_body]
    pub fn value(&self) -> (r: Result<Fr, SynthesisError>)
        requires
            fe_grounded(*self),
        ensures
            r is Ok ==> fr_val(r->Ok_0) == fe_val(*self),
    {
        self.inner.value()
    }

    /// Relies on `Clone` for `FpVar`: the clone stands for the same value.
    #[verifier::external_body]
    pub fn dup(&self) -> (r: FeVar)
        ensures
            fe_val(r) == fe_val(*self),
            forall|c: ConstraintRef| #[trigger] fe_in(r, c) == fe_in(*self, c),
    {
        FeVar { inner: self.inner.clone() }
    }
}

/// Relies on `Add` for `&FpVar`: the sum variable stands for the field
/// sum. The operands must share a constraint system: the sum is stored as
/// variable indices, which mean nothing across systems.
#[verifier::external_body]
pub fn fe_add(a: &FeVar, b: &FeVar) -> (r: FeVar)
    requires
        exists|c: ConstraintRef| fe_in(*a, c) && #[trigger] fe_in(*b, c),
    ensures
        fe_val(r) == v_add(fe_val(*a), fe_val(*b)),
        forall|c: ConstraintRef| fe_in(*a, c) && fe_in(*b, c) ==> #[trigger] fe_in(r, c),
{
    FeVar { inner: &a.inner + &b.inner }
}

/// Relies on `Add<Fr>` for `&FpVar`: adding a constant field element.
#[verifier::external_body]
pub fn fe_add_fr(a: &FeVar, c: &Fr) -> (r: FeVar)
    ensures
        fe_val(r) == v_add(fe_val(*a), fr_val(*c)),
        forall|s2: ConstraintRef| fe_in(*a, s2) ==> #[trigger] fe_in(r, s2),
{
    FeVar { inner: &a.inner + *c }
}

/// Relies on `Mul<Fr>` for `&FpVar`: scaling by a constant field element.
#[verifier::external_body]
pub fn fe_mul_fr(a: &FeVar, c: &Fr) -> (r: FeVar)
    ensures
        fe_val(r) == v_mul(fr_val(*c), fe_val(*a)),
        forall|s2: ConstraintRef| fe_in(*a, s2) ==> #[trigger] fe_in(r, s2),
{
    FeVar { inner: &a.inner * *c }
}

/// Relies on `FieldVar::pow_by_constant`: on success the result stands
/// for the argument raised to the integer the little-endian limbs stand for.
#[verifier::external_body]
pub fn fe_pow(a: &FeVar, e: &Vec<u64>) -> (r: Result<FeVar, SynthesisError>)
    ensures
        r is Ok ==> fe_val(r->Ok_0) == v_pow(fe_val(*a), limbs_val(e@)),
        r is Ok ==> forall|c: ConstraintRef| fe_in(*a, c) ==> #[trigger] fe_in(r->Ok_0, c),
{
    let v = a.inner.pow_by_constant(e.as_slice())?;
    Ok(FeVar { inner: v })
}

impl ByteVar {
    /// Relies on `UInt8::constant`: the constant circuit byte with the given value.
    #[verifier::external_body]
    pub fn constant(b: u8) -> (r: ByteVar)
        ensures
            byte_val(r) == b as int,
            forall|c: ConstraintRef| #[trigger] byte_in(r, c),
    {
        ByteVar { inner: UInt8::constant(b) }
    }

    /// Relies on `AllocVar::new_witness` for `UInt8`: on success the
    /// allocated circuit byte stands for the given byte.
    #[verifier::external_body]
    pub fn new_witness(cs: &ConstraintRef, b: u8) -> (r: Result<ByteVar, SynthesisError>)
        ensures
            r is Ok ==> byte_val(r->Ok_0) == b as int && byte_in(r->Ok_0, *cs),
    {
        let v = UInt8::new_witness(cs.inner.clone(), || Ok(b))?;
        Ok(ByteVar { inner: v })
    }

    /// Relies on `R1CSVar::value` for `UInt8`: on success the returned
    /// byte is the one the circuit byte stands for.
    #[verifier::external_body]
    pub fn value(&self) -> (r: Result<u8, SynthesisError>)
        ensures
            r is Ok ==> r->Ok_0 as int == byte_val(*self),
    {
        self.inner.value()
    }

    /// Relies on `Clone` for `UInt8`: the clone stands for the same value.
    #[verifier::external_body]
    pub fn dup(&self) -> (r: ByteVar)
        ensures
            byte_val(r) == byte_val(*self),
            forall|c: ConstraintRef| #[trigger] byte_in(r, c) == byte_in(*self, c),
    {
        ByteVar { inner: self.inner.clone() }
    }
}

impl BoolVar {
    /// Relies on `Boolean::constant`: the constant circuit boolean.
    #[verifier::external_body]
    pub fn constant(b: bool) -> (r: BoolVar)
        ensures
            bool_val(r) == b,
            forall|c: ConstraintRef| #[trigger] bool_in(r, c),
    {
        BoolVar { inner: Boolean::constant(b) }
    }

    /// Relies on `AllocVar::new_witness` for `Boolean`: on success the
    /// allocated circuit boolean stands for the given truth value.
    #[verifier::external_body]
    pub fn new_witness(cs: &ConstraintRef, b: bool) -> (r: Result<BoolVar, SynthesisError>)
        ensures
            r is Ok ==> bool_val(r->Ok_0) == b && bool_in(r->Ok_0, *cs),
    {
        let v = Boolean::new_witness(cs.inner.clone(), || Ok(b))?;
        Ok(BoolVar { inner: v })
    }

    /// Relies on `R1CSVar::value` for `Boolean`: on success the returned
    /// truth value is the one the circuit boolean stands for.
    #[verifier::external_body]
    pub fn value(&self) -> (r: Result<bool, SynthesisError>)
        ensures
            r is Ok ==> r->Ok_0 == bool_val(*self),
    {
        self.inner.value()
    }

    /// Relies on `Clone` for `Boolean`: the clone stands for the same value.
    #[verifier::external_body]
    pub fn dup(&self) -> (r: BoolVar)
        ensures
            bool_val(r) == bool_val(*self),
            forall|c: ConstraintRef| #[trigger] bool_in(r, c) == bool_in(*self, c),
    {
        BoolVar { inner: self.inner.clone() }
    }
}

/// Relies on `From<Boolean>` for `FpVar`: true becomes one, false becomes zero.
#[verifier::external_body]
pub fn bool_to_fe(b: &BoolVar) -> (r: FeVar)
    ensures
        fe_val(r) == if bool_val(*b) { 1int } else { 0int },
        forall|c: ConstraintRef| bool_in(*b, c) ==> #[trigger] fe_in(r, c),
{
    FeVar { inner: FpVar::from(b.inner.clone()) }
}

/// Relies on `ToConstraintFieldGadget` for `[UInt8]`: bytes are packed
/// into field elements in 31-byte little-endian chunks (31 being the
/// field's 254-bit capacity divided by 8).
#[verifier::external_body]
pub fn bytes_to_fes(bytes: &Vec<ByteVar>) -> (r: Result<Vec<FeVar>, SynthesisError>)
    requires
        exists|c: ConstraintRef| #[trigger] byte_seq_in(bytes@, c),
    ensures
        r is Ok ==> fe_seq_vals((r->Ok_0)@) == pack_bytes(byte_seq_vals(bytes@)),
        r is Ok ==> forall|c: ConstraintRef| byte_seq_in(bytes@, c) ==> #[trigger] fe_seq_in(
            (r->Ok_0)@,
            c,
        ),
{
    let raw: Vec<UInt8<Fr>> = bytes.iter().map(|b| b.inner.clone()).collect();
    let fes = raw.as_slice().to_constraint_field()?;
    Ok(fes.into_iter().map(|x| FeVar { inner: x }).collect())
}

/// Relies on `ToBytesGadget::to_bytes` for `FpVar`: the unique 32-byte
/// little-endian decomposition of the canonical representative.
#[verifier::external_body]
pub fn fe_to_bytes(a: &FeVar) -> (r: Result<Vec<ByteVar>, SynthesisError>)
    requires
        fe_grounded(*a),
    ensures
        r is Ok ==> (r->Ok_0)@.len() == 32 && forall|j: int|
            0 <= j < 32 ==> byte_val(#[trigger] (r->Ok_0)@[j]) == byte_of(fe_val(*a), j),
{
    let bs = a.inner.to_bytes()?;
    Ok(bs.into_iter().map(|b| ByteVar { inner: b }).collect())
}

/// Relies on `ToBitsGadget::to_bits_le` for `FpVar`: the unique 255-bit
/// little-endian decomposition of the canonical representative.
#[verifier::external_body]
pub fn fe_to_bits(a: &FeVar) -> (r: Result<Vec<BoolVar>, SynthesisError>)
    requires
        fe_grounded(*a),
    ensures
        r is Ok ==> (r->Ok_0)@.len() == 255 && forall|j: int|
            0 <= j < 255 ==> bool_val(#[trigger] (r->Ok_0)@[j]) == bit_of(fe_val(*a), j),
{
    let bs = a.inner.to_bits_le()?;
    Ok(bs.into_iter().map(|b| BoolVar { inner: b }).collect())
}

/// Relies on `ark_ff::FpParameters::CAPACITY` for the scalar field: the
/// number of bits that always fit below the field order, 254.
#[verifier::external_body]
pub fn capacity_bits() -> (r: usize)
    ensures
        r == 254usize,
{
    <FrParameters as FpParameters>::CAPACITY as usize
}

impl TePointVar {
    /// Relies on the twisted Edwards `AffineVar::new` and on
    /// `AllocVar::new_witness` for `FpVar`: on success the point variable
    /// holds the two given coordinates.
    #[verifier::external_body]
    pub fn new_witness(cs: &ConstraintRef, x: &Fr, y: &Fr) -> (r: Result<
        TePointVar,
        SynthesisError,
    >)
        ensures
            r is Ok ==> te_coords(r->Ok_0) == seq![fr_val(*x), fr_val(*y)] && te_in(
                r->Ok_0,
                *cs,
            ),
    {
        let xv = FpVar::new_witness(cs.inner.clone(), || Ok(*x))?;
        let yv = FpVar::new_witness(cs.inner.clone(), || Ok(*y))?;
        Ok(TePointVar { inner: TEAffineVar::new(xv, yv) })
    }

    /// Relies on `Clone` for `AffineVar`: the clone stands for the same point.
    #[verifier::external_body]
    pub fn dup(&self) -> (r: TePointVar)
        ensures
            te_coords(r) == te_coords(*self),
            forall|c: ConstraintRef| #[trigger] te_in(r, c) == te_in(*self, c),
    {
        TePointVar { inner: self.inner.clone() }
    }
}

/// Relies on `ToConstraintFieldGadget` for the twisted Edwards
/// `AffineVar`: the affine x coordinate's field elements, then the y
/// coordinate's — over this curve's base field, one element each.
#[verifier::external_body]
pub fn te_point_to_fes(p: &TePointVar) -> (r: Result<Vec<FeVar>, SynthesisError>)
    ensures
        r is Ok ==> te_coords(*p).len() == 2 && fe_seq_vals((r->Ok_0)@) == te_coords(*p),
        r is Ok ==> forall|c: ConstraintRef| te_in(*p, c) ==> #[trigger] fe_seq_in((r->Ok_0)@, c),
{
    let fes = p.inner.to_constraint_field()?;
    Ok(fes.into_iter().map(|x| FeVar { inner: x }).collect())
}

impl ConstraintRef {
    /// Relies on `ConstraintSystem::new_ref`: a fresh, empty constraint system.
    #[verifier::external_body]
    pub fn new_ref() -> (r: ConstraintRef) {
        ConstraintRef { inner: ConstraintSystem::<Fr>::new_ref() }
    }

    /// Relies on `Clone` for `ConstraintSystemRef`: the clone refers to
    /// the same constraint system.
    #[verifier::external_body]
    pub fn dup(&self) -> (r: ConstraintRef)
        ensures
            r == *self,
    {
        ConstraintRef { inner: self.inner.clone() }
    }
}

} // verus!
