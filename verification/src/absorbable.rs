use vstd::prelude::*;
use crate::field::{
    FeVar, ByteVar, BoolVar, TePointVar, ConstraintRef, fe_val, byte_val, bool_val, te_coords,
    fe_in, byte_in, bool_in, te_in, fe_seq_in, byte_seq_in, pack_bytes, u64_le_bytes, bool_to_fe,
    bytes_to_fes, te_point_to_fes, le_val, fe_seq_vals, byte_seq_vals, lemma_fe_seq_vals_push,
    lemma_byte_seq_vals_push,
};
use crate::SubstrateError;

verus! {

// The canonicalization layer: every absorbable value flattens to an
// ordered sequence of field-element values, and a batch of values of one
// type flattens jointly, so that a type may choose a more compact joint
// encoding than plain concatenation. Bytes do: a batch of bytes is
// length-prefixed and packed many-to-one, which keeps distinct batches
// from colliding.

/// An interface for values that a sponge can absorb.
pub trait AbsorbableGadget: Sized {
    /// The canonical field-element values this value contributes.
    spec fn canonical(&self) -> Seq<int>;

    /// The canonical field-element values of a whole batch.
    spec fn batch_canonical(batch: Seq<Self>) -> Seq<int>;

    /// Whether this value is usable in the given constraint system:
    /// constants are usable in every system, allocated variables only in
    /// their own. Conversion demands a value usable somewhere, and its
    /// output is usable wherever the input was.
    spec fn in_system(&self, c: ConstraintRef) -> bool;

    /// Whether every member of a batch is usable in the given system.
    spec fn batch_in_system(batch: Seq<Self>, c: ConstraintRef) -> bool;

    /// Whether conversion of this value can never fail: it makes no
    /// fallible substrate call.
    spec fn infallible(&self) -> bool;

    /// Converts the value into field elements for absorption.
    fn to_sponge_field_elements(&self) -> (r: Result<Vec<FeVar>, SubstrateError>)
        requires
            exists|c: ConstraintRef| self.in_system(c),
        ensures
            r is Ok ==> fe_seq_vals((r->Ok_0)@) == self.canonical(),
            r is Ok ==> forall|c: ConstraintRef| self.in_system(c) ==> #[trigger] fe_seq_in(
                (r->Ok_0)@,
                c,
            ),
            self.infallible() ==> r is Ok,
    ;

    /// Converts a batch of values, with the batch's joint encoding.
    fn batch_to_sponge_field_elements(batch: &Vec<Self>) -> (r: Result<Vec<FeVar>, SubstrateError>)
        requires
            exists|c: ConstraintRef| #[trigger] Self::batch_in_system(batch@, c),
        ensures
            r is Ok ==> fe_seq_vals((r->Ok_0)@) == Self::batch_canonical(batch@),
            r is Ok ==> forall|c: ConstraintRef| Self::batch_in_system(batch@, c)
                ==> #[trigger] fe_seq_in((r->Ok_0)@, c),
    ;
}

/// The canonical values of one optional value: a presence flag, then the
/// contained value's canonical values if present.
pub open spec fn option_canonical<A: AbsorbableGadget>(v: Option<A>) -> Seq<int> {
    match v {
        Some(a) => seq![1int] + a.canonical(),
        None => seq![0int],
    }
}

/// A batch of booleans canonicalizes by plain concatenation.
pub open spec fn bool_batch_canonical(batch: Seq<BoolVar>) -> Seq<int>
    decreases batch.len(),
{
    if batch.len() == 0 {
        Seq::empty()
    } else {
        bool_batch_canonical(batch.drop_last()) + seq![
            if bool_val(batch.last()) {
                1int
            } else {
                0int
            },
        ]
    }
}

/// A batch of optional values canonicalizes by plain concatenation.
pub open spec fn option_batch_canonical<A: AbsorbableGadget>(batch: Seq<Option<A>>) -> Seq<int>
    decreases batch.len(),
{
    if batch.len() == 0 {
        Seq::empty()
    } else {
        option_batch_canonical(batch.drop_last()) + option_canonical(batch.last())
    }
}

/// A batch of collections canonicalizes by concatenating the members'
/// joint encodings.
pub open spec fn vec_batch_canonical<A: AbsorbableGadget>(batch: Seq<Vec<A>>) -> Seq<int>
    decreases batch.len(),
{
    if batch.len() == 0 {
        Seq::empty()
    } else {
        vec_batch_canonical(batch.drop_last()) + A::batch_canonical(batch.last()@)
    }
}

impl AbsorbableGadget for FeVar {
    /// A field element is itself, unchanged.
    open spec fn canonical(&self) -> Seq<int> {
        seq![fe_val(*self)]
    }

    /// A batch of field elements is the elements in order, with no framing.
    open spec fn batch_canonical(batch: Seq<FeVar>) -> Seq<int> {
        fe_seq_vals(batch)
    }

    /// A field element is usable where its own variables live.
    open spec fn in_system(&self, c: ConstraintRef) -> bool {
        fe_in(*self, c)
    }

    /// Every element of the batch is usable in the system.
    open spec fn batch_in_system(batch: Seq<FeVar>, c: ConstraintRef) -> bool {
        fe_seq_in(batch, c)
    }

    /// Conversion only clones; it never fails.
    open spec fn infallible(&self) -> bool {
        true
    }

    fn to_sponge_field_elements(&self) -> (r: Result<Vec<FeVar>, SubstrateError>)
        ensures
            r is Ok,
    {
        let elem = self.dup();
        let mut out: Vec<FeVar> = Vec::new();
        out.push(elem);
        proof {
            assert(fe_seq_vals(out@) =~= seq![fe_val(*self)]);
            assert(forall|c: ConstraintRef| fe_in(*self, c) ==> #[trigger] fe_seq_in(out@, c));
        }
        Ok(out)
    }

    fn batch_to_sponge_field_elements(batch: &Vec<FeVar>) -> (r: Result<
        Vec<FeVar>,
        SubstrateError,
    >)
        ensures
            r is Ok,
    {
        let mut out: Vec<FeVar> = Vec::new();
        proof {
            assert(fe_seq_vals(out@) =~= fe_seq_vals(batch@).take(0));
        }
        let mut i: usize = 0;
        while i < batch.len()
            invariant
                i <= batch@.len(),
                fe_seq_vals(out@) == fe_seq_vals(batch@).take(i as int),
                out@.len() == i,
                forall|k: int, c: ConstraintRef|
                    0 <= k < out@.len() && fe_in(batch@[k], c) ==> #[trigger] fe_in(out@[k], c),
            decreases batch@.len() - i,
        {
            let elem = batch[i].dup();
            let ghost ob = out@;
            out.push(elem);
            proof {
                lemma_fe_seq_vals_push(ob, elem);
                assert(fe_seq_vals(out@) =~= fe_seq_vals(batch@).take(i + 1));
            }
            i = i + 1;
        }
        proof {
            assert(fe_seq_vals(out@) =~= fe_seq_vals(batch@));
            assert forall|c: ConstraintRef| Self::batch_in_system(batch@, c)
                implies #[trigger] fe_seq_in(out@, c) by {
                assert(forall|k: int| 0 <= k < out@.len() ==> fe_in(batch@[k], c));
            }
        }
        Ok(out)
    }
}

impl AbsorbableGadget for BoolVar {
    /// A boolean is one field element: one for true, zero for false.
    open spec fn canonical(&self) -> Seq<int> {
        seq![if bool_val(*self) { 1int } else { 0int }]
    }

    /// Booleans batch by plain concatenation.
    open spec fn batch_canonical(batch: Seq<BoolVar>) -> Seq<int> {
        bool_batch_canonical(batch)
    }

    /// A boolean is usable where its own variable lives.
    open spec fn in_system(&self, c: ConstraintRef) -> bool {
        bool_in(*self, c)
    }

    /// Every boolean of the batch is usable in the system.
    open spec fn batch_in_system(batch: Seq<BoolVar>, c: ConstraintRef) -> bool {
        forall|i: int| 0 <= i < batch.len() ==> bool_in(#[trigger] batch[i], c)
    }

    /// Conversion only builds the 0/1 element; it never fails.
    open spec fn infallible(&self) -> bool {
        true
    }

    fn to_sponge_field_elements(&self) -> (r: Result<Vec<FeVar>, SubstrateError>)
        ensures
            r is Ok,
    {
        let elem = bool_to_fe(self);
        let mut out: Vec<FeVar> = Vec::new();
        out.push(elem);
        proof {
            assert(fe_seq_vals(out@) =~= self.canonical());
            assert(forall|c: ConstraintRef| bool_in(*self, c) ==> #[trigger] fe_seq_in(out@, c));
        }
        Ok(out)
    }

    #[verifier::loop_isolation(false)]
    fn batch_to_sponge_field_elements(batch: &Vec<BoolVar>) -> (r: Result<
        Vec<FeVar>,
        SubstrateError,
    >)
        ensures
            r is Ok,
    {
        let mut out: Vec<FeVar> = Vec::new();
        proof {
            assert(fe_seq_vals(out@) =~= Seq::<int>::empty());
        }
        let mut i: usize = 0;
        while i < batch.len()
            invariant
                i <= batch@.len(),
                fe_seq_vals(out@) == bool_batch_canonical(batch@.take(i as int)),
                forall|c: ConstraintRef| Self::batch_in_system(batch@, c)
                    ==> #[trigger] fe_seq_in(out@, c),
            decreases batch@.len() - i,
        {
            proof {
                let c0 = choose|c: ConstraintRef| Self::batch_in_system(batch@, c);
                assert(batch@[i as int].in_system(c0));
            }
            let mut elems = match batch[i].to_sponge_field_elements() {
                Ok(v) => v,
                Err(err) => {
                    return Err(err);
                },
            };
            let ghost ob = out@;
            let ghost eb = elems@;
            out.append(&mut elems);
            proof {
                assert(out@ == ob + eb);
                assert(forall|j: int|
                    0 <= j < ob.len() + eb.len() ==> #[trigger] fe_seq_vals(out@)[j] == fe_val(
                        (ob + eb)[j],
                    ));
                assert(fe_seq_vals(out@) =~= fe_seq_vals(ob) + fe_seq_vals(eb));
                assert(batch@.take(i + 1).drop_last() =~= batch@.take(i as int));
                assert(batch@.take(i + 1).last() == batch@[i as int]);
                assert(fe_seq_vals(out@) =~= bool_batch_canonical(batch@.take(i + 1)));
                assert forall|c: ConstraintRef| Self::batch_in_system(batch@, c)
                    implies #[trigger] fe_seq_in(out@, c) by {
                    assert(fe_seq_in(ob, c));
                    assert(fe_seq_in(eb, c));
                    assert(forall|k: int| 0 <= k < out@.len() ==> fe_in(#[trigger] out@[k], c));
                }
            }
            i = i + 1;
        }
        proof {
            assert(batch@.take(batch@.len() as int) =~= batch@);
        }
        Ok(out)
    }
}


/// The eight little-endian bytes of a batch length, as constant circuit bytes.
fn length_prefix_bytes(n64: u64) -> (r: Vec<ByteVar>)
    ensures
        r@.len() == 8,
        byte_seq_vals(r@) == u64_le_bytes(n64),
        forall|c: ConstraintRef| #[trigger] byte_seq_in(r@, c),
{
    let mut bytes: Vec<ByteVar> = Vec::new();
    bytes.push(ByteVar::constant((n64 % 256) as u8));
    bytes.push(ByteVar::constant(((n64 / 256) % 256) as u8));
    bytes.push(ByteVar::constant(((n64 / 65536) % 256) as u8));
    bytes.push(ByteVar::constant(((n64 / 16777216) % 256) as u8));
    bytes.push(ByteVar::constant(((n64 / 4294967296) % 256) as u8));
    bytes.push(ByteVar::constant(((n64 / 1099511627776) % 256) as u8));
    bytes.push(ByteVar::constant(((n64 / 281474976710656) % 256) as u8));
    bytes.push(ByteVar::constant(((n64 / 72057594037927936) % 256) as u8));
    assert(byte_seq_vals(bytes@) =~= u64_le_bytes(n64));
    assert(forall|c: ConstraintRef| #[trigger] byte_seq_in(bytes@, c));
    bytes
}

impl AbsorbableGadget for ByteVar {
    /// A single byte packs to the one field element with its value.
    open spec fn canonical(&self) -> Seq<int> {
        seq![byte_val(*self)]
    }

    /// A batch of bytes is framed: the batch length as eight little-endian
    /// prefix bytes, then the bytes, packed together into field elements.
    open spec fn batch_canonical(batch: Seq<ByteVar>) -> Seq<int> {
        pack_bytes(u64_le_bytes(batch.len() as u64) + byte_seq_vals(batch))
    }

    /// A byte is usable where its own bit variables live.
    open spec fn in_system(&self, c: ConstraintRef) -> bool {
        byte_in(*self, c)
    }

    /// Every byte of the batch is usable in the system.
    open spec fn batch_in_system(batch: Seq<ByteVar>, c: ConstraintRef) -> bool {
        byte_seq_in(batch, c)
    }

    /// Packing bytes into field elements calls the substrate and may fail.
    open spec fn infallible(&self) -> bool {
        false
    }

    fn to_sponge_field_elements(&self) -> (r: Result<Vec<FeVar>, SubstrateError>) {
        let mut bytes: Vec<ByteVar> = Vec::new();
        bytes.push(self.dup());
        proof {
            assert(forall|c: ConstraintRef| byte_in(*self, c) ==> #[trigger] byte_seq_in(
                bytes@,
                c,
            ));
            let c0 = choose|c: ConstraintRef| byte_in(*self, c);
            assert(byte_seq_in(bytes@, c0));
        }
        let fes = match bytes_to_fes(&bytes) {
            Ok(v) => v,
            Err(err) => {
                return Err(SubstrateError::Synthesis(err));
            },
        };
        proof {
            let bv = byte_seq_vals(bytes@);
            assert(bv =~= seq![byte_val(*self)]);
            assert(bv.skip(1) =~= Seq::<int>::empty());
            reveal_with_fuel(le_val, 3);
            assert(le_val(bv) == byte_val(*self));
            assert(pack_bytes(bv) =~= seq![le_val(bv)]);
            assert(fe_seq_vals(fes@) =~= seq![byte_val(*self)]);
        }
        Ok(fes)
    }

    #[verifier::loop_isolation(false)]
    #[verifier::rlimit(30)]
    fn batch_to_sponge_field_elements(batch: &Vec<ByteVar>) -> (r: Result<
        Vec<FeVar>,
        SubstrateError,
    >) {
        let ghost target = u64_le_bytes(batch@.len() as u64) + byte_seq_vals(batch@);
        let n64: u64 = batch.len() as u64;
        let mut bytes: Vec<ByteVar> = length_prefix_bytes(n64);
        proof {
            assert(byte_seq_vals(batch@).len() == batch@.len());
            assert(target.len() == 8 + batch@.len());
            assert(byte_seq_vals(bytes@) =~= target.take(8));
        }
        proof {
            assert(forall|c: ConstraintRef| Self::batch_in_system(batch@, c)
                ==> #[trigger] byte_seq_in(bytes@, c));
        }
        let mut i: usize = 0;
        while i < batch.len()
            invariant
                i <= batch@.len(),
                bytes@.len() == 8 + i,
                byte_seq_vals(bytes@) == target.take(8 + i),
                forall|c: ConstraintRef| Self::batch_in_system(batch@, c)
                    ==> #[trigger] byte_seq_in(bytes@, c),
            decreases batch@.len() - i,
        {
            let b = batch[i].dup();
            let ghost ob = bytes@;
            bytes.push(b);
            proof {
                lemma_byte_seq_vals_push(ob, b);
                assert(byte_seq_vals(batch@)[i as int] == byte_val(batch@[i as int]));
                assert(u64_le_bytes(n64).len() == 8);
                assert(byte_seq_vals(batch@).len() == batch@.len());
                assert(target.len() == 8 + batch@.len());
                assert(target[8 + i] == byte_seq_vals(batch@)[i as int]);
                assert(byte_seq_vals(bytes@) =~= target.take(8 + i + 1));
                assert forall|c: ConstraintRef| Self::batch_in_system(batch@, c)
                    implies #[trigger] byte_seq_in(bytes@, c) by {
                    assert(byte_seq_in(ob, c));
                    assert(byte_in(b, c));
                    assert(forall|k: int| 0 <= k < bytes@.len() ==> byte_in(
                        #[trigger] bytes@[k],
                        c,
                    ));
                }
            }
            i = i + 1;
        }
        proof {
            assert(byte_seq_vals(bytes@) =~= target);
            let c0 = choose|c: ConstraintRef| Self::batch_in_system(batch@, c);
            assert(byte_seq_in(bytes@, c0));
        }
        let fes = match bytes_to_fes(&bytes) {
            Ok(v) => v,
            Err(err) => {
                return Err(SubstrateError::Synthesis(err));
            },
        };
        Ok(fes)
    }
}

impl<A: AbsorbableGadget> AbsorbableGadget for Option<A> {
    /// An optional value is one presence flag, then the value if present.
    open spec fn canonical(&self) -> Seq<int> {
        option_canonical(*self)
    }

    /// Optional values batch by plain concatenation.
    open spec fn batch_canonical(batch: Seq<Option<A>>) -> Seq<int> {
        option_batch_canonical(batch)
    }

    /// Absence is usable everywhere; presence where the value is.
    open spec fn in_system(&self, c: ConstraintRef) -> bool {
        match self {
            Some(a) => a.in_system(c),
            None => true,
        }
    }

    /// Every member of the batch is usable in the system.
    open spec fn batch_in_system(batch: Seq<Option<A>>, c: ConstraintRef) -> bool {
        forall|i: int| 0 <= i < batch.len() ==> (#[trigger] batch[i]).in_system(c)
    }

    /// Conversion fails only where the contained value's conversion can.
    open spec fn infallible(&self) -> bool {
        match self {
            Some(a) => a.infallible(),
            None => true,
        }
    }

    fn to_sponge_field_elements(&self) -> (r: Result<Vec<FeVar>, SubstrateError>)
        ensures
            (*self) is None ==> r is Ok,
    {
        let flag = crate::field::BoolVar::constant(self.is_some());
        let mut out: Vec<FeVar> = Vec::new();
        out.push(bool_to_fe(&flag));
        match self {
            Some(a) => {
                let mut inner = match a.to_sponge_field_elements() {
                    Ok(v) => v,
                    Err(err) => {
                        return Err(err);
                    },
                };
                let ghost ob = out@;
                let ghost ib = inner@;
                out.append(&mut inner);
                proof {
                    assert(forall|j: int|
                        0 <= j < ob.len() + ib.len() ==> #[trigger] fe_seq_vals(out@)[j] == fe_val(
                            (ob + ib)[j],
                        ));
                    assert(fe_seq_vals(out@) =~= fe_seq_vals(ob) + fe_seq_vals(ib));
                    assert(fe_seq_vals(ob) =~= seq![1int]);
                    assert(fe_seq_vals(out@) =~= self.canonical());
                    assert forall|c: ConstraintRef| self.in_system(c) implies #[trigger] fe_seq_in(
                        out@,
                        c,
                    ) by {
                        assert(fe_seq_in(ib, c));
                        assert(forall|k: int| 0 <= k < out@.len() ==> fe_in(
                            #[trigger] out@[k],
                            c,
                        ));
                    }
                }
                Ok(out)
            },
            None => {
                proof {
                    assert(fe_seq_vals(out@) =~= seq![0int]);
                    assert forall|c: ConstraintRef| self.in_system(c) implies #[trigger] fe_seq_in(
                        out@,
                        c,
                    ) by {
                        assert(forall|k: int| 0 <= k < out@.len() ==> fe_in(
                            #[trigger] out@[k],
                            c,
                        ));
                    }
                }
                Ok(out)
            },
        }
    }

    #[verifier::loop_isolation(false)]
    fn batch_to_sponge_field_elements(batch: &Vec<Option<A>>) -> (r: Result<
        Vec<FeVar>,
        SubstrateError,
    >)
        ensures
            batch@.len() == 0 ==> r is Ok,
    {
        let mut out: Vec<FeVar> = Vec::new();
        proof {
            assert(fe_seq_vals(out@) =~= Seq::<int>::empty());
        }
        let mut i: usize = 0;
        while i < batch.len()
            invariant
                i <= batch@.len(),
                fe_seq_vals(out@) == option_batch_canonical(batch@.take(i as int)),
                forall|c: ConstraintRef| Self::batch_in_system(batch@, c)
                    ==> #[trigger] fe_seq_in(out@, c),
            decreases batch@.len() - i,
        {
            proof {
                let c0 = choose|c: ConstraintRef| Self::batch_in_system(batch@, c);
                assert(batch@[i as int].in_system(c0));
            }
            let mut elems = match batch[i].to_sponge_field_elements() {
                Ok(v) => v,
                Err(err) => {
                    return Err(err);
                },
            };
            let ghost ob = out@;
            let ghost eb = elems@;
            out.append(&mut elems);
            proof {
                assert(out@ == ob + eb);
                assert(forall|j: int|
                    0 <= j < ob.len() + eb.len() ==> #[trigger] fe_seq_vals(out@)[j] == fe_val(
                        (ob + eb)[j],
                    ));
                assert(fe_seq_vals(out@) =~= fe_seq_vals(ob) + fe_seq_vals(eb));
                assert(batch@.take(i + 1).drop_last() =~= batch@.take(i as int));
                assert(batch@.take(i + 1).last() == batch@[i as int]);
                assert(fe_seq_vals(out@) =~= option_batch_canonical(batch@.take(i + 1)));
                assert forall|c: ConstraintRef| Self::batch_in_system(batch@, c)
                    implies #[trigger] fe_seq_in(out@, c) by {
                    assert(fe_seq_in(ob, c));
                    assert(fe_seq_in(eb, c));
                    assert(forall|k: int| 0 <= k < out@.len() ==> fe_in(#[trigger] out@[k], c));
                }
            }
            i = i + 1;
        }
        proof {
            assert(batch@.take(batch@.len() as int) =~= batch@);
        }
        Ok(out)
    }
}

impl<A: AbsorbableGadget> AbsorbableGadget for Vec<A> {
    /// A collection delegates to its element type's batch encoding.
    open spec fn canonical(&self) -> Seq<int> {
        A::batch_canonical(self@)
    }

    /// Collections batch by plain concatenation of their joint encodings.
    open spec fn batch_canonical(batch: Seq<Vec<A>>) -> Seq<int> {
        vec_batch_canonical(batch)
    }

    /// A collection is usable where all its members are.
    open spec fn in_system(&self, c: ConstraintRef) -> bool {
        A::batch_in_system(self@, c)
    }

    /// Every collection of the batch is usable in the system.
    open spec fn batch_in_system(batch: Seq<Vec<A>>, c: ConstraintRef) -> bool {
        forall|i: int| 0 <= i < batch.len() ==> (#[trigger] batch[i]).in_system(c)
    }

    /// The element type's batch encoding may call the substrate.
    open spec fn infallible(&self) -> bool {
        false
    }

    fn to_sponge_field_elements(&self) -> (r: Result<Vec<FeVar>, SubstrateError>) {
        A::batch_to_sponge_field_elements(self)
    }

    #[verifier::loop_isolation(false)]
    fn batch_to_sponge_field_elements(batch: &Vec<Vec<A>>) -> (r: Result<
        Vec<FeVar>,
        SubstrateError,
    >)
        ensures
            batch@.len() == 0 ==> r is Ok,
    {
        let mut out: Vec<FeVar> = Vec::new();
        proof {
            assert(fe_seq_vals(out@) =~= Seq::<int>::empty());
        }
        let mut i: usize = 0;
        while i < batch.len()
            invariant
                i <= batch@.len(),
                fe_seq_vals(out@) == vec_batch_canonical(batch@.take(i as int)),
                forall|c: ConstraintRef| Self::batch_in_system(batch@, c)
                    ==> #[trigger] fe_seq_in(out@, c),
            decreases batch@.len() - i,
        {
            proof {
                let c0 = choose|c: ConstraintRef| Self::batch_in_system(batch@, c);
                assert(batch@[i as int].in_system(c0));
            }
            let mut elems = match batch[i].to_sponge_field_elements() {
                Ok(v) => v,
                Err(err) => {
                    return Err(err);
                },
            };
            let ghost ob = out@;
            let ghost eb = elems@;
            out.append(&mut elems);
            proof {
                assert(out@ == ob + eb);
                assert(forall|j: int|
                    0 <= j < ob.len() + eb.len() ==> #[trigger] fe_seq_vals(out@)[j] == fe_val(
                        (ob + eb)[j],
                    ));
                assert(fe_seq_vals(out@) =~= fe_seq_vals(ob) + fe_seq_vals(eb));
                assert(batch@.take(i + 1).drop_last() =~= batch@.take(i as int));
                assert(batch@.take(i + 1).last() == batch@[i as int]);
                assert(fe_seq_vals(out@) =~= vec_batch_canonical(batch@.take(i + 1)));
                assert forall|c: ConstraintRef| Self::batch_in_system(batch@, c)
                    implies #[trigger] fe_seq_in(out@, c) by {
                    assert(fe_seq_in(ob, c));
                    assert(fe_seq_in(eb, c));
                    assert(forall|k: int| 0 <= k < out@.len() ==> fe_in(#[trigger] out@[k], c));
                }
            }
            i = i + 1;
        }
        proof {
            assert(batch@.take(batch@.len() as int) =~= batch@);
        }
        Ok(out)
    }
}

/// A batch of curve points canonicalizes by plain concatenation.
pub open spec fn te_batch_canonical(batch: Seq<TePointVar>) -> Seq<int>
    decreases batch.len(),
{
    if batch.len() == 0 {
        Seq::empty()
    } else {
        te_batch_canonical(batch.drop_last()) + te_coords(batch.last())
    }
}

impl AbsorbableGadget for TePointVar {
    /// A curve point contributes its affine coordinates, flattened over
    /// the base prime field.
    open spec fn canonical(&self) -> Seq<int> {
        te_coords(*self)
    }

    /// Curve points batch by plain concatenation.
    open spec fn batch_canonical(batch: Seq<TePointVar>) -> Seq<int> {
        te_batch_canonical(batch)
    }

    /// A point is usable where its coordinate variables live.
    open spec fn in_system(&self, c: ConstraintRef) -> bool {
        te_in(*self, c)
    }

    /// Every point of the batch is usable in the system.
    open spec fn batch_in_system(batch: Seq<TePointVar>, c: ConstraintRef) -> bool {
        forall|i: int| 0 <= i < batch.len() ==> te_in(#[trigger] batch[i], c)
    }

    /// Coordinate flattening may call the substrate.
    open spec fn infallible(&self) -> bool {
        false
    }

    fn to_sponge_field_elements(&self) -> (r: Result<Vec<FeVar>, SubstrateError>) {
        match te_point_to_fes(self) {
            Ok(v) => Ok(v),
            Err(err) => Err(SubstrateError::Synthesis(err)),
        }
    }

    #[verifier::loop_isolation(false)]
    fn batch_to_sponge_field_elements(batch: &Vec<TePointVar>) -> (r: Result<
        Vec<FeVar>,
        SubstrateError,
    >)
        ensures
            batch@.len() == 0 ==> r is Ok,
    {
        let mut out: Vec<FeVar> = Vec::new();
        proof {
            assert(fe_seq_vals(out@) =~= Seq::<int>::empty());
        }
        let mut i: usize = 0;
        while i < batch.len()
            invariant
                i <= batch@.len(),
                fe_seq_vals(out@) == te_batch_canonical(batch@.take(i as int)),
                forall|c: ConstraintRef| Self::batch_in_system(batch@, c)
                    ==> #[trigger] fe_seq_in(out@, c),
            decreases batch@.len() - i,
        {
            proof {
                let c0 = choose|c: ConstraintRef| Self::batch_in_system(batch@, c);
                assert(batch@[i as int].in_system(c0));
            }
            let mut elems = match batch[i].to_sponge_field_elements() {
                Ok(v) => v,
                Err(err) => {
                    return Err(err);
                },
            };
            let ghost ob = out@;
            let ghost eb = elems@;
            out.append(&mut elems);
            proof {
                assert(out@ == ob + eb);
                assert(forall|j: int|
                    0 <= j < ob.len() + eb.len() ==> #[trigger] fe_seq_vals(out@)[j] == fe_val(
                        (ob + eb)[j],
                    ));
                assert(fe_seq_vals(out@) =~= fe_seq_vals(ob) + fe_seq_vals(eb));
                assert(batch@.take(i + 1).drop_last() =~= batch@.take(i as int));
                assert(batch@.take(i + 1).last() == batch@[i as int]);
                assert(fe_seq_vals(out@) =~= te_batch_canonical(batch@.take(i + 1)));
                assert forall|c: ConstraintRef| Self::batch_in_system(batch@, c)
                    implies #[trigger] fe_seq_in(out@, c) by {
                    assert(fe_seq_in(ob, c));
                    assert(fe_seq_in(eb, c));
                    assert(forall|k: int| 0 <= k < out@.len() ==> fe_in(#[trigger] out@[k], c));
                }
            }
            i = i + 1;
        }
        proof {
            assert(batch@.take(batch@.len() as int) =~= batch@);
        }
        Ok(out)
    }
}

impl<'a, A: AbsorbableGadget> AbsorbableGadget for &'a A {
    /// A reference contributes what the value it points to contributes.
    open spec fn canonical(&self) -> Seq<int> {
        (**self).canonical()
    }

    /// Batches of references concatenate the members' encodings.
    open spec fn batch_canonical(batch: Seq<&'a A>) -> Seq<int>
        decreases batch.len(),
    {
        if batch.len() == 0 {
            Seq::empty()
        } else {
            Self::batch_canonical(batch.drop_last()) + (*batch.last()).canonical()
        }
    }

    /// A reference is usable where the value it points to is.
    open spec fn in_system(&self, c: ConstraintRef) -> bool {
        (**self).in_system(c)
    }

    /// Every reference of the batch points to a usable value.
    open spec fn batch_in_system(batch: Seq<&'a A>, c: ConstraintRef) -> bool {
        forall|i: int| 0 <= i < batch.len() ==> (#[trigger] batch[i]).in_system(c)
    }

    /// A reference's conversion fails exactly where the value's can.
    open spec fn infallible(&self) -> bool {
        (**self).infallible()
    }

    fn to_sponge_field_elements(&self) -> (r: Result<Vec<FeVar>, SubstrateError>) {
        (*self).to_sponge_field_elements()
    }

    #[verifier::loop_isolation(false)]
    fn batch_to_sponge_field_elements(batch: &Vec<&'a A>) -> (r: Result<
        Vec<FeVar>,
        SubstrateError,
    >)
        ensures
            batch@.len() == 0 ==> r is Ok,
    {
        let mut out: Vec<FeVar> = Vec::new();
        proof {
            assert(fe_seq_vals(out@) =~= Seq::<int>::empty());
        }
        let mut i: usize = 0;
        while i < batch.len()
            invariant
                i <= batch@.len(),
                fe_seq_vals(out@) == Self::batch_canonical(batch@.take(i as int)),
                forall|c: ConstraintRef| Self::batch_in_system(batch@, c)
                    ==> #[trigger] fe_seq_in(out@, c),
            decreases batch@.len() - i,
        {
            proof {
                let c0 = choose|c: ConstraintRef| Self::batch_in_system(batch@, c);
                assert(batch@[i as int].in_system(c0));
            }
            let mut elems = match batch[i].to_sponge_field_elements() {
                Ok(v) => v,
                Err(err) => {
                    return Err(err);
                },
            };
            let ghost ob = out@;
            let ghost eb = elems@;
            out.append(&mut elems);
            proof {
                assert(out@ == ob + eb);
                assert(forall|j: int|
                    0 <= j < ob.len() + eb.len() ==> #[trigger] fe_seq_vals(out@)[j] == fe_val(
                        (ob + eb)[j],
                    ));
                assert(fe_seq_vals(out@) =~= fe_seq_vals(ob) + fe_seq_vals(eb));
                assert(batch@.take(i + 1).drop_last() =~= batch@.take(i as int));
                assert(batch@.take(i + 1).last() == batch@[i as int]);
                assert(fe_seq_vals(out@) =~= Self::batch_canonical(batch@.take(i + 1)));
                assert forall|c: ConstraintRef| Self::batch_in_system(batch@, c)
                    implies #[trigger] fe_seq_in(out@, c) by {
                    assert(fe_seq_in(ob, c));
                    assert(fe_seq_in(eb, c));
                    assert(forall|k: int| 0 <= k < out@.len() ==> fe_in(#[trigger] out@[k], c));
                }
            }
            i = i + 1;
        }
        proof {
            assert(batch@.take(batch@.len() as int) =~= batch@);
        }
        Ok(out)
    }
}

} // verus!