//! Vectors containing Boolean values are essentially sets
//! represented by their characteristic functions.
//! They are useful since they allow many computations
//! to be implemented as simple linear algebra over the two-element semi-ring.

use crate::indexer::Indexer;
use vstd::prelude::*;

verus! {

/// The pointwise conjunction of two sequences of equal length:
/// the intersection of the sets they describe.
pub open spec fn spec_intersection(a: Seq<bool>, b: Seq<bool>) -> Seq<bool> {
    Seq::new(a.len(), |i: int| a[i] && b[i])
}

/// The pointwise disjunction of two sequences of equal length:
/// the union of the sets they describe.
pub open spec fn spec_union(a: Seq<bool>, b: Seq<bool>) -> Seq<bool> {
    Seq::new(a.len(), |i: int| a[i] || b[i])
}

/// The pointwise negation of a sequence:
/// the complement of the set it describes.
pub open spec fn spec_complement(a: Seq<bool>) -> Seq<bool> {
    Seq::new(a.len(), |i: int| !a[i])
}

/// The sequence of the given length that holds one value throughout.
pub open spec fn spec_constant(len: nat, value: bool) -> Seq<bool> {
    Seq::new(len, |i: int| value)
}

/// De Morgan: the complement of a union is the intersection of the
/// complements.
pub proof fn lemma_complement_of_union(a: Seq<bool>, b: Seq<bool>)
    requires
        a.len() == b.len(),
    ensures
        spec_complement(spec_union(a, b)) == spec_intersection(
            spec_complement(a),
            spec_complement(b),
        ),
{
    assert(spec_complement(spec_union(a, b)) =~= spec_intersection(
        spec_complement(a),
        spec_complement(b),
    ));
}

/// De Morgan: the complement of an intersection is the union of the
/// complements.
pub proof fn lemma_complement_of_intersection(a: Seq<bool>, b: Seq<bool>)
    requires
        a.len() == b.len(),
    ensures
        spec_complement(spec_intersection(a, b)) == spec_union(
            spec_complement(a),
            spec_complement(b),
        ),
{
    assert(spec_complement(spec_intersection(a, b)) =~= spec_union(
        spec_complement(a),
        spec_complement(b),
    ));
}

/// Taking the complement twice gives the set back.
pub proof fn lemma_complement_involution(a: Seq<bool>)
    ensures
        spec_complement(spec_complement(a)) == a,
{
    assert(spec_complement(spec_complement(a)) =~= a);
}

/// A vector with values in `bool`, the two-element semi-ring.
/// For convenience and a poor emulation of type-checking
/// we do not index these over integers directly
/// but use an `Indexer`.
#[derive(Eq, PartialEq, Debug)]
pub struct BoolVec<I: Indexer> {
    data: Vec<bool>,
    indexer: I,
}

impl<I: Indexer> View for BoolVec<I> {
    type V = Seq<bool>;

    /// The values of the vector, in the order of the internal indices.
    closed spec fn view(&self) -> Seq<bool> {
        self.data@
    }
}

impl<I: Indexer> Clone for BoolVec<I> {
    fn clone(&self) -> (copy: Self)
        ensures
            copy@ == self@,
            copy.spec_indexer() == self.spec_indexer(),
            self.wf() ==> copy.wf(),
    {
        let indexer = self.indexer.duplicate();
        let size = self.data.len();
        let mut data: Vec<bool> = Vec::with_capacity(size);
        let mut i: usize = 0;
        while i < size
            invariant
                size == self.data.len(),
                i <= size,
                data@ == self.data@.subrange(0, i as int),
            decreases size - i,
        {
            data.push(self.data[i]);
            assert(data@ =~= self.data@.subrange(0, i + 1));
            i += 1;
        }
        assert(data@ =~= self.data@);
        BoolVec { data, indexer }
    }
}

impl<I: Indexer> core::ops::Index<I::Index> for BoolVec<I> {
    type Output = bool;

    fn index(&self, index: I::Index) -> (value: &bool)
        ensures
            *value == self.spec_get(index),
    {
        &self.data[self.indexer.to_num(index)]
    }
}

impl<I: Indexer> vstd::std_specs::core::IndexSpecImpl<I::Index> for BoolVec<I> {
    open spec fn index_req(&self, index: &I::Index) -> bool {
        self.wf() && self.spec_indexer().spec_is_valid(*index)
    }
}

impl<I: Indexer> core::ops::IndexMut<I::Index> for BoolVec<I> {
    fn index_mut(&mut self, index: I::Index) -> (value: &mut bool)
        requires
            old(self).wf(),
            old(self).spec_indexer().spec_is_valid(index),
        ensures
            *value == old(self).spec_get(index),
            final(self)@ == old(self)@.update(
                old(self).spec_indexer().spec_to_num(index) as int,
                *final(value),
            ),
            final(self).spec_indexer() == old(self).spec_indexer(),
    {
        let n = self.indexer.to_num(index);
        &mut self.data[n]
    }
}

impl<I> BoolVec<I> where I: Indexer {
    /// The indexer that the vector is tied to.
    pub closed spec fn spec_indexer(&self) -> I {
        self.indexer
    }

    /// A vector holds exactly one value for each internal index.
    pub open spec fn wf(&self) -> bool {
        self@.len() == self.spec_indexer().spec_range()
    }

    /// The value at an external index.
    pub open spec fn spec_get(&self, index: I::Index) -> bool {
        self@[self.spec_indexer().spec_to_num(index) as int]
    }

    /// Whether two vectors are equal: tied to the same indexer and holding
    /// the same values.
    pub open spec fn spec_eq(&self, other: &Self) -> bool {
        self.spec_indexer() == other.spec_indexer() && self@ == other@
    }

    /// Wrap an existing `Vec<bool>` into a Boolean vector.
    pub fn from_data(data: Vec<bool>, indexer: I) -> (vector: BoolVec<I>)
        requires
            data@.len() == indexer.spec_range(),
        ensures
            vector@ == data@,
            vector.spec_indexer() == indexer,
            vector.wf(),
    {
        BoolVec { data, indexer }
    }

    /// Create a new Boolean vector with all positions being unset.
    pub fn falses(indexer: I) -> (vector: Self)
        ensures
            vector@ == spec_constant(indexer.spec_range(), false),
            vector.spec_indexer() == indexer,
            vector.wf(),
    {
        let size = indexer.range();
        let data = vec![false; size];
        assert(data@ =~= spec_constant(indexer.spec_range(), false));
        BoolVec { data, indexer }
    }

    /// Create a new Boolean vector with all positions being set.
    pub fn trues(indexer: I) -> (vector: Self)
        ensures
            vector@ == spec_constant(indexer.spec_range(), true),
            vector.spec_indexer() == indexer,
            vector.wf(),
    {
        let size = indexer.range();
        let data = vec![true; size];
        assert(data@ =~= spec_constant(indexer.spec_range(), true));
        BoolVec { data, indexer }
    }

    /// The number of positions of the vector.
    pub fn len(&self) -> (n: usize)
        ensures
            n == self@.len(),
    {
        self.data.len()
    }

    /// Read the value at an internal index.
    pub fn get_num(&self, n: usize) -> (value: bool)
        requires
            n < self@.len(),
        ensures
            value == self@[n as int],
    {
        self.data[n]
    }

    /// Write the value at an external index.
    pub fn set(&mut self, index: I::Index, value: bool)
        requires
            old(self).wf(),
            old(self).spec_indexer().spec_is_valid(index),
        ensures
            final(self).wf(),
            final(self)@ == old(self)@.update(
                old(self).spec_indexer().spec_to_num(index) as int,
                value,
            ),
            final(self).spec_indexer() == old(self).spec_indexer(),
    {
        let n = self.indexer.to_num(index);
        self.data.set(n, value);
    }

    /// Write the value at an internal index.
    pub fn set_num(&mut self, n: usize, value: bool)
        requires
            n < old(self)@.len(),
        ensures
            final(self)@ == old(self)@.update(n as int, value),
            final(self).spec_indexer() == old(self).spec_indexer(),
            old(self).wf() ==> final(self).wf(),
    {
        self.data.set(n, value);
    }

    /// Consider a vector as a map into the Booleans
    /// and apply a unary operation pointwise.
    fn bit_map_unary<F: Fn(bool) -> bool>(&self, op: F) -> (vector: Self)
        requires
            forall|a: bool| op.requires((a,)),
        ensures
            self.wf() ==> vector.wf(),
            vector@.len() == self@.len(),
            forall|i: int| 0 <= i < self@.len() ==> op.ensures((self@[i],), #[trigger] vector@[i]),
            vector.spec_indexer() == self.spec_indexer(),
    {
        let indexer = self.indexer.duplicate();
        let size = self.data.len();
        let mut data: Vec<bool> = Vec::with_capacity(size);
        let mut i: usize = 0;
        while i < size
            invariant
                size == self.data.len(),
                i <= size,
                data@.len() == i,
                forall|a: bool| op.requires((a,)),
                forall|k: int| 0 <= k < i ==> op.ensures((self.data@[k],), #[trigger] data@[k]),
            decreases size - i,
        {
            data.push(op(self.data[i]));
            i += 1;
        }
        BoolVec { data, indexer }
    }

    /// Consider two vectors as maps into the Booleans
    /// and apply a binary operation pointwise.
    fn bit_map_binary<F: Fn(bool, bool) -> bool>(&self, other: &Self, op: F) -> (vector: Self)
        requires
            self.wf(),
            other.wf(),
            self.spec_indexer() == other.spec_indexer(),
            forall|a: bool, b: bool| op.requires((a, b)),
        ensures
            vector.wf(),
            vector@.len() == self@.len(),
            forall|i: int|
                0 <= i < self@.len() ==> op.ensures((self@[i], other@[i]), #[trigger] vector@[i]),
            vector.spec_indexer() == self.spec_indexer(),
    {
        let indexer = self.indexer.duplicate();
        let size = self.data.len();
        let mut data: Vec<bool> = Vec::with_capacity(size);
        let mut i: usize = 0;
        while i < size
            invariant
                size == self.data.len(),
                size == other.data.len(),
                i <= size,
                data@.len() == i,
                forall|a: bool, b: bool| op.requires((a, b)),
                forall|k: int|
                    0 <= k < i ==> op.ensures(
                        (self.data@[k], other.data@[k]),
                        #[trigger] data@[k],
                    ),
            decreases size - i,
        {
            data.push(op(self.data[i], other.data[i]));
            i += 1;
        }
        BoolVec { data, indexer }
    }

    /// Intersect two vectors considered as sets.
    pub fn intersection(&self, other: &Self) -> (vector: Self)
        requires
            self.wf(),
            other.wf(),
            self.spec_indexer() == other.spec_indexer(),
        ensures
            vector.wf(),
            vector@ == spec_intersection(self@, other@),
            vector.spec_indexer() == self.spec_indexer(),
    {
        let and = |a: bool, b: bool| -> (c: bool)
            ensures
                c == (a && b),
            { a && b };
        let vector = self.bit_map_binary(other, and);
        assert(vector@ =~= spec_intersection(self@, other@));
        vector
    }

    /// Unite two vectors considered as sets.
    pub fn union(&self, other: &Self) -> (vector: Self)
        requires
            self.wf(),
            other.wf(),
            self.spec_indexer() == other.spec_indexer(),
        ensures
            vector.wf(),
            vector@ == spec_union(self@, other@),
            vector.spec_indexer() == self.spec_indexer(),
    {
        let or = |a: bool, b: bool| -> (c: bool)
            ensures
                c == (a || b),
            { a || b };
        let vector = self.bit_map_binary(other, or);
        assert(vector@ =~= spec_union(self@, other@));
        vector
    }

    /// Take the complement of a vector
    /// considered as subset of the all-true vector of the same length.
    pub fn complement(&self) -> (vector: Self)
        ensures
            self.wf() ==> vector.wf(),
            vector@ == spec_complement(self@),
            vector.spec_indexer() == self.spec_indexer(),
    {
        let not = |a: bool| -> (c: bool)
            ensures
                c == !a,
            { !a };
        let vector = self.bit_map_unary(not);
        assert(vector@ =~= spec_complement(self@));
        vector
    }

    /// Change the way the vector is indexed.
    pub fn reindex<J>(self, indexer: J) -> (vector: BoolVec<J>) where J: Indexer
        requires
            self.wf(),
            self.spec_indexer().spec_range() == indexer.spec_range(),
        ensures
            vector.wf(),
            vector@ == self@,
            vector.spec_indexer() == indexer,
    {
        let data = self.data;
        BoolVec { indexer, data }
    }

    /// Get a reference to the indexer.
    pub fn indexer(&self) -> (indexer: &I)
        ensures
            *indexer == self.spec_indexer(),
    {
        &self.indexer
    }

    /// Decide whether two vectors are equal.
    pub fn equals(&self, other: &Self) -> (b: bool)
        requires
            self.wf(),
            other.wf(),
        ensures
            b == self.spec_eq(other),
    {
        if !self.indexer.same(&other.indexer) {
            return false;
        }
        let size = self.data.len();
        let mut i: usize = 0;
        while i < size
            invariant
                size == self.data.len(),
                size == other.data.len(),
                i <= size,
                self.data@.subrange(0, i as int) == other.data@.subrange(0, i as int),
            decreases size - i,
        {
            if self.data[i] != other.data[i] {
                assert(self.data@[i as int] != other.data@[i as int]);
                return false;
            }
            assert(self.data@.subrange(0, i + 1) =~= self.data@.subrange(0, i as int).push(
                self.data@[i as int],
            ));
            assert(other.data@.subrange(0, i + 1) =~= other.data@.subrange(0, i as int).push(
                other.data@[i as int],
            ));
            i += 1;
        }
        assert(self.data@ =~= self.data@.subrange(0, size as int));
        assert(other.data@ =~= other.data@.subrange(0, size as int));
        true
    }
}

impl<'now, I> std::ops::BitAnd for &'now BoolVec<I> where I: Indexer {
    type Output = BoolVec<I>;

    /// Intersect two vectors considered as sets.
    fn bitand(self, other: Self) -> (vector: BoolVec<I>)
        ensures
            vector.wf(),
            vector@ == spec_intersection(self@, other@),
            vector.spec_indexer() == self.spec_indexer(),
    {
        self.intersection(other)
    }
}

impl<'now, I> vstd::std_specs::ops::BitAndSpecImpl for &'now BoolVec<I> where I: Indexer {
    /// The result is described by its values, not as a value.
    open spec fn obeys_bitand_spec() -> bool {
        false
    }

    /// Two vectors can be combined when they are tied to the same indexer.
    open spec fn bitand_req(self, other: Self) -> bool {
        self.wf() && other.wf() && self.spec_indexer() == other.spec_indexer()
    }

    open spec fn bitand_spec(self, other: Self) -> BoolVec<I> {
        arbitrary()
    }
}

impl<'now, I> std::ops::BitOr for &'now BoolVec<I> where I: Indexer {
    type Output = BoolVec<I>;

    /// Unite two vectors considered as sets.
    fn bitor(self, other: Self) -> (vector: BoolVec<I>)
        ensures
            vector.wf(),
            vector@ == spec_union(self@, other@),
            vector.spec_indexer() == self.spec_indexer(),
    {
        self.union(other)
    }
}

impl<'now, I> vstd::std_specs::ops::BitOrSpecImpl for &'now BoolVec<I> where I: Indexer {
    /// The result is described by its values, not as a value.
    open spec fn obeys_bitor_spec() -> bool {
        false
    }

    /// Two vectors can be combined when they are tied to the same indexer.
    open spec fn bitor_req(self, other: Self) -> bool {
        self.wf() && other.wf() && self.spec_indexer() == other.spec_indexer()
    }

    open spec fn bitor_spec(self, other: Self) -> BoolVec<I> {
        arbitrary()
    }
}

impl<'now, I> std::ops::Not for &'now BoolVec<I> where I: Indexer {
    type Output = BoolVec<I>;

    /// Take the complement of a vector considered as a set.
    fn not(self) -> (vector: BoolVec<I>)
        ensures
            self.wf() ==> vector.wf(),
            vector@ == spec_complement(self@),
            vector.spec_indexer() == self.spec_indexer(),
    {
        self.complement()
    }
}

impl<'now, I> vstd::std_specs::ops::NotSpecImpl for &'now BoolVec<I> where I: Indexer {
    /// The result is described by its values, not as a value.
    open spec fn obeys_not_spec() -> bool {
        false
    }

    open spec fn not_req(self) -> bool {
        true
    }

    open spec fn not_spec(self) -> BoolVec<I> {
        arbitrary()
    }
}

} // verus!
