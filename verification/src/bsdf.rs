use vstd::prelude::*;

verus! {

/// The bit of a BxDF that reflects light.
pub const REFLECTION: u8 = 0b00001;

/// The bit of a BxDF that transmits light.
pub const TRANSMISSION: u8 = 0b00010;

/// The bit of a diffuse BxDF.
pub const DIFFUSE: u8 = 0b00100;

/// The bit of a glossy BxDF.
pub const GLOSSY: u8 = 0b01000;

/// The bit of a perfectly specular BxDF.
pub const SPECULAR: u8 = 0b10000;

/// All BxDF type bits.
pub const ALL: u8 = 0b11111;

/// A set of flags representing the different types of bidirectional
/// reflectance or transmittance distribution functions.
#[derive(Debug, Clone, Copy, PartialEq, Eq)]
pub struct BxdfType {
    pub bits: u8,
}

impl BxdfType {
    /// Returns the type with the given bits, dropping the bits that name no
    /// type.
    pub fn from_bits_truncate(bits: u8) -> (t: Self)
        ensures
            t.bits == bits & ALL,
    {
        BxdfType { bits: bits & ALL }
    }

    /// The type with no flags.
    pub fn empty() -> (t: Self)
        ensures
            t.bits == 0,
    {
        BxdfType { bits: 0 }
    }

    /// The type with every flag.
    pub fn all() -> (t: Self)
        ensures
            t.bits == ALL,
    {
        BxdfType { bits: ALL }
    }

    /// The flags of either type.
    pub fn union(self, other: Self) -> (t: Self)
        ensures
            t.bits == self.bits | other.bits,
    {
        BxdfType { bits: self.bits | other.bits }
    }

    /// The flags of both types.
    pub fn intersection(self, other: Self) -> (t: Self)
        ensures
            t.bits == self.bits & other.bits,
    {
        BxdfType { bits: self.bits & other.bits }
    }

    /// Every flag of `self` is a flag of `t`.
    pub open spec fn spec_has_type(self, t: Self) -> bool {
        self.bits & t.bits == self.bits
    }

    /// Returns whether every flag of this BxDF type is among the flags of `t`,
    /// that is, whether a BxDF of this type matches a request for `t`.
    pub fn has_type(self, t: Self) -> (r: bool)
        ensures
            r == self.spec_has_type(t),
            r == (self.bits & t.bits == self.bits),
    {
        self.bits & t.bits == self.bits
    }
}

/// The number of types in `types` that have the type `ty`.
pub open spec fn spec_count_with_type(types: Seq<BxdfType>, ty: BxdfType) -> nat
    decreases types.len(),
{
    if types.len() == 0 {
        0
    } else {
        spec_count_with_type(types.drop_last(), ty) + if types.last().spec_has_type(ty) {
            1nat
        } else {
            0nat
        }
    }
}

/// Return the number of the BxDF types in `types` that have the type `ty`.
pub fn count_with_type(types: &[BxdfType], ty: BxdfType) -> (n: usize)
    ensures
        n == spec_count_with_type(types@, ty),
        n == types@.filter(|t: BxdfType| t.bits & ty.bits == t.bits).len(),
{
    let mut n: usize = 0;
    let mut i: usize = 0;
    while i < types.len()
        invariant
            i <= types.len(),
            n == spec_count_with_type(types@.take(i as int), ty),
            n <= i,
        decreases types.len() - i,
    {
        assert(types@.take(i + 1).drop_last() == types@.take(i as int));
        if types[i].has_type(ty) {
            n = n + 1;
        }
        i = i + 1;
    }
    assert(types@.take(types.len() as int) == types@);
    proof {
        lemma_count_with_type_counts_subsets(types@, ty);
    }
    n
}

/// The number of types that have the type `ty` is the number of types whose
/// flags are all among the flags of `ty`: exactly the entries `t` with
/// `t.bits & ty.bits == t.bits` are counted.
pub proof fn lemma_count_with_type_counts_subsets(types: Seq<BxdfType>, ty: BxdfType)
    ensures
        spec_count_with_type(types, ty) == types.filter(
            |t: BxdfType| t.bits & ty.bits == t.bits,
        ).len(),
    decreases types.len(),
{
    let pred = |t: BxdfType| t.bits & ty.bits == t.bits;
    if types.len() > 0 {
        lemma_count_with_type_counts_subsets(types.drop_last(), ty);
        assert(types.drop_last().push(types.last()) == types);
        types.drop_last().lemma_filter_push(types.last(), pred);
    }
}

/// Appending a type to a list adds one to the count exactly when every flag of
/// the appended type is a flag of the requested type.
pub proof fn lemma_count_with_type_push(types: Seq<BxdfType>, t: BxdfType, ty: BxdfType)
    ensures
        spec_count_with_type(types.push(t), ty) == spec_count_with_type(types, ty) + if t.bits
            & ty.bits == t.bits {
            1int
        } else {
            0int
        },
{
    lemma_count_with_type_counts_subsets(types, ty);
    lemma_count_with_type_counts_subsets(types.push(t), ty);
    types.lemma_filter_push(t, |u: BxdfType| u.bits & ty.bits == u.bits);
}

/// A list of one type counts one exactly when the type's flags are all among
/// the requested flags; in particular a type with a flag that the request
/// lacks is not counted.
pub proof fn lemma_count_with_type_single(t: BxdfType, ty: BxdfType)
    ensures
        spec_count_with_type(seq![t], ty) == (if t.bits & ty.bits == t.bits {
            1int
        } else {
            0int
        }),
        (t.bits & !ty.bits) != 0 ==> spec_count_with_type(seq![t], ty) == 0,
{
    lemma_count_with_type_push(Seq::empty(), t, ty);
    assert(Seq::<BxdfType>::empty().push(t) == seq![t]);
    let (x, y) = (t.bits, ty.bits);
    assert((x & !y) != 0 ==> x & y != x) by (bit_vector);
}

/// The count never exceeds the number of types, and no type that has a flag
/// outside the request is counted: when every type has such a flag, the count
/// is zero, and when every type's flags are within the request, all are
/// counted.
pub proof fn lemma_count_with_type_bounds(types: Seq<BxdfType>, ty: BxdfType)
    ensures
        spec_count_with_type(types, ty) <= types.len(),
        (forall|i: int| 0 <= i < types.len() ==> (#[trigger] types[i].bits & !ty.bits) != 0)
            ==> spec_count_with_type(types, ty) == 0,
        (forall|i: int| 0 <= i < types.len() ==> #[trigger] types[i].bits & ty.bits
            == types[i].bits) ==> spec_count_with_type(types, ty) == types.len(),
    decreases types.len(),
{
    if types.len() > 0 {
        let init = types.drop_last();
        let last = types.last();
        lemma_count_with_type_bounds(init, ty);
        assert(init.push(last) == types);
        lemma_count_with_type_push(init, last, ty);
        let (x, y) = (last.bits, ty.bits);
        assert((x & !y) != 0 ==> x & y != x) by (bit_vector);
        if forall|i: int| 0 <= i < types.len() ==> (#[trigger] types[i].bits & !ty.bits) != 0 {
            assert forall|i: int| 0 <= i < init.len() implies (#[trigger] init[i].bits & !ty.bits)
                != 0 by {
                assert(init[i] == types[i]);
            }
            assert(types[types.len() - 1].bits & !ty.bits != 0);
        }
        if forall|i: int| 0 <= i < types.len() ==> #[trigger] types[i].bits & ty.bits
            == types[i].bits {
            assert forall|i: int| 0 <= i < init.len() implies #[trigger] init[i].bits & ty.bits
                == init[i].bits by {
                assert(init[i] == types[i]);
            }
            assert(types[types.len() - 1].bits & ty.bits == types[types.len() - 1].bits);
        }
    }
}

/// Every type has itself.
pub proof fn lemma_has_type_reflexive(a: BxdfType)
    ensures
        a.spec_has_type(a),
{
    let x = a.bits;
    assert(x & x == x) by (bit_vector);
}

/// Having a type is transitive.
pub proof fn lemma_has_type_transitive(a: BxdfType, b: BxdfType, c: BxdfType)
    requires
        a.spec_has_type(b),
        b.spec_has_type(c),
    ensures
        a.spec_has_type(c),
{
    let (x, y, z) = (a.bits, b.bits, c.bits);
    assert(x & z == x) by (bit_vector)
        requires
            x & y == x,
            y & z == y,
    ;
}

/// A type has every union that it takes part in, and a union has exactly the
/// types that both of its parts have.
pub proof fn lemma_has_type_union(a: BxdfType, b: BxdfType, t: BxdfType)
    ensures
        a.spec_has_type(BxdfType { bits: a.bits | b.bits }),
        (BxdfType { bits: a.bits | b.bits }).spec_has_type(t) <==> (a.spec_has_type(t)
            && b.spec_has_type(t)),
{
    let (x, y, z) = (a.bits, b.bits, t.bits);
    assert(x & (x | y) == x) by (bit_vector);
    assert(((x | y) & z == (x | y)) <==> (x & z == x && y & z == y)) by (bit_vector);
}

/// Every type made only of named flags has the type with all flags, and
/// `from_bits_truncate` only makes such types.
pub proof fn lemma_has_type_all(a: BxdfType, bits: u8)
    ensures
        a.bits & ALL == a.bits ==> a.spec_has_type(BxdfType { bits: ALL }),
        (BxdfType { bits: bits & ALL }).spec_has_type(BxdfType { bits: ALL }),
{
    let x = a.bits;
    assert(x & 31u8 == x ==> x & 31u8 == x) by (bit_vector);
    assert((bits & 31u8) & 31u8 == bits & 31u8) by (bit_vector);
}

} // verus!
