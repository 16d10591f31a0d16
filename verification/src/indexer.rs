//! Conversions between contiguous integer ranges and other index types,
//! so that vectors and matrices can be addressed by those other types.

use vstd::prelude::*;

verus! {

/// Converts external indices to the integers `0..range` and back.
pub trait Indexer: Sized {
    type Index;

    /// The number of internal indices.
    spec fn spec_range(&self) -> nat;

    /// Whether an external index belongs to the indexed set.
    spec fn spec_is_valid(&self, index: Self::Index) -> bool;

    /// The internal index of an external one.
    spec fn spec_to_num(&self, index: Self::Index) -> nat;

    /// The external index of an internal one.
    spec fn spec_to_index(&self, n: nat) -> Self::Index;

    /// The two conversions are mutually inverse bijections between the valid
    /// external indices and the integers below the range.
    proof fn lemma_bijection(&self)
        ensures
            forall|i: Self::Index| #[trigger]
                self.spec_is_valid(i) ==> self.spec_to_num(i) < self.spec_range()
                    && self.spec_to_index(self.spec_to_num(i)) == i,
            forall|n: nat|
                n < self.spec_range() ==> self.spec_is_valid(#[trigger] self.spec_to_index(n))
                    && self.spec_to_num(self.spec_to_index(n)) == n,
    ;

    /// Convert an external index to an internal index.
    fn to_num(&self, index: Self::Index) -> (n: usize)
        requires
            self.spec_is_valid(index),
        ensures
            n == self.spec_to_num(index),
            n < self.spec_range(),
    ;

    /// Convert an internal index back into an external index.
    fn to_index(&self, n: usize) -> (index: Self::Index)
        requires
            n < self.spec_range(),
        ensures
            index == self.spec_to_index(n as nat),
            self.spec_is_valid(index),
    ;

    /// Checks whether an external index is valid.
    fn is_valid(&self, index: Self::Index) -> (b: bool)
        ensures
            b == self.spec_is_valid(index),
    ;

    /// A sharp strict upper bound on the internal indices.
    fn range(&self) -> (r: usize)
        ensures
            r == self.spec_range(),
    ;

    /// Whether two indexers are the same one.
    fn same(&self, other: &Self) -> (b: bool)
        ensures
            b == (*self == *other),
    ;

    /// Another copy of this indexer.
    fn duplicate(&self) -> (copy: Self)
        ensures
            copy == *self,
    ;

    /// Determines whether an integer is an internal index.
    fn in_range(&self, n: usize) -> (b: bool)
        ensures
            b == (n < self.spec_range()),
    {
        n < self.range()
    }
}

/// Index the singleton in the obvious (and pretty much only) way.
impl Indexer for () {
    type Index = ();

    open spec fn spec_range(&self) -> nat {
        1
    }

    open spec fn spec_is_valid(&self, index: Self::Index) -> bool {
        true
    }

    open spec fn spec_to_num(&self, index: Self::Index) -> nat {
        0
    }

    open spec fn spec_to_index(&self, n: nat) -> Self::Index {
        ()
    }

    proof fn lemma_bijection(&self) {
    }

    fn to_num(&self, index: Self::Index) -> (n: usize) {
        0
    }

    fn to_index(&self, n: usize) -> (index: Self::Index) {
        ()
    }

    fn is_valid(&self, index: Self::Index) -> (b: bool) {
        true
    }

    fn range(&self) -> (r: usize) {
        1
    }

    fn same(&self, other: &Self) -> (b: bool) {
        true
    }

    fn duplicate(&self) -> (copy: Self) {
        ()
    }
}

/// With the usual identification of `n` with the set of the numbers below it,
/// an integer indexes that set by itself.
impl Indexer for usize {
    type Index = usize;

    open spec fn spec_range(&self) -> nat {
        *self as nat
    }

    open spec fn spec_is_valid(&self, index: Self::Index) -> bool {
        index < *self
    }

    open spec fn spec_to_num(&self, index: Self::Index) -> nat {
        index as nat
    }

    open spec fn spec_to_index(&self, n: nat) -> Self::Index {
        n as usize
    }

    proof fn lemma_bijection(&self) {
    }

    fn to_num(&self, index: Self::Index) -> (n: usize) {
        index
    }

    fn to_index(&self, n: usize) -> (index: Self::Index) {
        n
    }

    fn is_valid(&self, index: Self::Index) -> (b: bool) {
        self.in_range(index)
    }

    fn range(&self) -> (r: usize) {
        *self
    }

    fn same(&self, other: &Self) -> (b: bool) {
        *self == *other
    }

    fn duplicate(&self) -> (copy: Self) {
        *self
    }
}

/// Index a rectangle, traversing it row by row.
#[derive(PartialEq, Eq, Debug, Clone, Copy)]
pub struct Rect {
    height: usize,
    width: usize,
}

impl Rect {
    /// The number of rows.
    pub closed spec fn spec_height(&self) -> nat {
        self.height as nat
    }

    /// The number of columns.
    pub closed spec fn spec_width(&self) -> nat {
        self.width as nat
    }

    /// A rectangle is well formed when the number of its cells is a machine
    /// integer.
    #[verifier::type_invariant]
    pub open spec fn wf(&self) -> bool {
        self.spec_height() * self.spec_width() <= usize::MAX
    }

    /// Create the indexer of a rectangle with the given measurements.
    pub fn new(height: usize, width: usize) -> (rect: Rect)
        requires
            height * width <= usize::MAX,
        ensures
            rect.spec_height() == height,
            rect.spec_width() == width,
            rect.wf(),
    {
        Rect { height, width }
    }

    /// A rectangle is determined by its measurements.
    pub proof fn lemma_same_measurements(&self, other: &Rect)
        requires
            self.spec_height() == other.spec_height(),
            self.spec_width() == other.spec_width(),
        ensures
            *self == *other,
    {
    }

    /// The number of rows.
    pub fn height(&self) -> (h: usize)
        ensures
            h == self.spec_height(),
    {
        self.height
    }

    /// The number of columns.
    pub fn width(&self) -> (w: usize)
        ensures
            w == self.spec_width(),
    {
        self.width
    }
}

/// In a rectangle of positive width, every number below the number of cells
/// splits uniquely into a row and a column.
pub proof fn lemma_row_major(height: nat, width: nat, j: nat, k: nat)
    requires
        j < height,
        k < width,
    ensures
        j * width + k < height * width,
        (j * width + k) / width == j,
        (j * width + k) % width == k,
{
    assert(j * width + k < height * width) by (nonlinear_arith)
        requires
            j < height,
            k < width,
    ;
    vstd::arithmetic::div_mod::lemma_fundamental_div_mod_converse(
        (j * width + k) as int,
        width as int,
        j as int,
        k as int,
    );
}

/// In a rectangle, every number below the number of cells has its row within
/// the height and its column within the width, and is made of them.
pub proof fn lemma_cell_of_number(height: nat, width: nat, n: nat)
    requires
        n < height * width,
    ensures
        width > 0,
        n / width < height,
        n % width < width,
        (n / width) * width + n % width == n,
{
    assert(width > 0) by (nonlinear_arith)
        requires
            n < height * width,
    ;
    vstd::arithmetic::div_mod::lemma_fundamental_div_mod(n as int, width as int);
    assert(n / width < height) by (nonlinear_arith)
        requires
            n < height * width,
            width > 0,
            n == width * (n / width) + n % width,
            0 <= n % width,
    ;
    assert((n / width) * width == width * (n / width)) by (nonlinear_arith);
}

impl Indexer for Rect {
    type Index = (usize, usize);

    open spec fn spec_range(&self) -> nat {
        self.spec_height() * self.spec_width()
    }

    open spec fn spec_is_valid(&self, index: Self::Index) -> bool {
        index.0 < self.spec_height() && index.1 < self.spec_width()
    }

    open spec fn spec_to_num(&self, index: Self::Index) -> nat {
        index.0 as nat * self.spec_width() + index.1 as nat
    }

    open spec fn spec_to_index(&self, n: nat) -> Self::Index {
        ((n / self.spec_width()) as usize, (n % self.spec_width()) as usize)
    }

    proof fn lemma_bijection(&self) {
        let h = self.spec_height();
        let w = self.spec_width();
        assert forall|i: (usize, usize)| #[trigger] self.spec_is_valid(i) implies self.spec_to_num(
            i,
        ) < self.spec_range() && self.spec_to_index(self.spec_to_num(i)) == i by {
            lemma_row_major(h, w, i.0 as nat, i.1 as nat);
        }
        assert forall|n: nat| n < self.spec_range() implies self.spec_is_valid(
            #[trigger] self.spec_to_index(n),
        ) && self.spec_to_num(self.spec_to_index(n)) == n by {
            lemma_cell_of_number(h, w, n);
        }
    }

    fn to_num(&self, index: Self::Index) -> (n: usize) {
        proof {
            use_type_invariant(self);
            lemma_row_major(
                self.spec_height(),
                self.spec_width(),
                index.0 as nat,
                index.1 as nat,
            );
        }
        let (j, k) = index;
        j * self.width + k
    }

    fn to_index(&self, n: usize) -> (index: Self::Index) {
        proof {
            use_type_invariant(self);
            lemma_cell_of_number(self.spec_height(), self.spec_width(), n as nat);
        }
        let j: usize = n / self.width;
        let k: usize = n - j * self.width;
        (j, k)
    }

    fn is_valid(&self, index: Self::Index) -> (b: bool) {
        let (j, k) = index;
        j < self.height && k < self.width
    }

    fn range(&self) -> (r: usize) {
        proof {
            use_type_invariant(self);
            assert(self.width * self.height == self.height * self.width) by (nonlinear_arith);
        }
        self.width * self.height
    }

    fn same(&self, other: &Self) -> (b: bool) {
        self.height == other.height && self.width == other.width
    }

    fn duplicate(&self) -> (copy: Self) {
        *self
    }
}

} // verus!
