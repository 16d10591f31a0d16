//! Matrices are at the heart of finite-dimensional linear algebra
//! and we, too, will use them to perform the calculations we want to do.
//! While any matrix can be considered to be a vector,
//! matrices have the additional structure of multiplication
//! which allows us to elegantly chain linear transformations.
//! Non-square matrices allow us to change the underlying set
//! when applying them to characteristic functions.

use crate::bool_vec::spec_constant;
use crate::bool_vec::BoolVec;
use crate::indexer::lemma_row_major;
use crate::indexer::Indexer;
use crate::indexer::Rect;
use vstd::prelude::*;

verus! {

/// Whether a sequence of rows is a matrix of the given height and width.
pub open spec fn has_shape(m: Seq<Seq<bool>>, height: nat, width: nat) -> bool {
    m.len() == height && forall|j: int| 0 <= j < height ==> (#[trigger] m[j]).len() == width
}

/// Whether the step from `j` to `l` can be made through `k`,
/// first in `a` and then in `b`.
pub open spec fn spec_link(a: Seq<Seq<bool>>, b: Seq<Seq<bool>>, j: int, k: int, l: int) -> bool {
    a[j][k] && b[k][l]
}

/// An entry of the product of two matrices over the two-element semi-ring:
/// whether some intermediate index links `j` to `l`.
pub open spec fn spec_dot(a: Seq<Seq<bool>>, b: Seq<Seq<bool>>, j: int, l: int) -> bool {
    exists|k: int| 0 <= k < b.len() && #[trigger] spec_link(a, b, j, k, l)
}

/// The product of two matrices over the two-element semi-ring.
/// The width of the product is that of `b`; it is given apart, since a matrix
/// without rows does not tell its width.
pub open spec fn spec_product(a: Seq<Seq<bool>>, b: Seq<Seq<bool>>, width: nat) -> Seq<Seq<bool>> {
    Seq::new(a.len(), |j: int| Seq::new(width, |l: int| spec_dot(a, b, j, l)))
}

/// The square matrix with the given values on its diagonal and `false`
/// elsewhere.
pub open spec fn spec_diagonal(v: Seq<bool>) -> Seq<Seq<bool>> {
    Seq::new(v.len(), |j: int| Seq::new(v.len(), |k: int| j == k && v[j]))
}

/// The identity matrix of the given size.
pub open spec fn spec_identity(size: nat) -> Seq<Seq<bool>> {
    spec_diagonal(spec_constant(size, true))
}

/// The matrix of the given shape that holds one value throughout.
pub open spec fn spec_uniform(height: nat, width: nat, value: bool) -> Seq<Seq<bool>> {
    Seq::new(height, |j: int| Seq::new(width, |k: int| value))
}

/// A vector written as a matrix with a single column.
pub open spec fn spec_column(v: Seq<bool>) -> Seq<Seq<bool>> {
    Seq::new(v.len(), |j: int| Seq::new(1, |k: int| v[j]))
}

/// Whether row `j` of a matrix meets a vector at `k`.
pub open spec fn spec_hit(m: Seq<Seq<bool>>, v: Seq<bool>, j: int, k: int) -> bool {
    m[j][k] && v[k]
}

/// A matrix applied to a vector: the set of the rows that meet the vector.
pub open spec fn spec_apply(m: Seq<Seq<bool>>, v: Seq<bool>) -> Seq<bool> {
    Seq::new(m.len(), |j: int| exists|k: int| 0 <= k < v.len() && #[trigger] spec_hit(m, v, j, k))
}

/// Whether a square matrix equals its transpose.
pub open spec fn is_symmetric(m: Seq<Seq<bool>>) -> bool {
    forall|j: int, k: int| 0 <= j < m.len() && 0 <= k < m.len() ==> m[j][k] == m[k][j]
}

/// Whether a square matrix holds every step that can be made in two of its
/// steps.
pub open spec fn is_transitive(m: Seq<Seq<bool>>) -> bool {
    forall|j: int, k: int, l: int|
        0 <= j < m.len() && 0 <= k < m.len() && 0 <= l < m.len() && #[trigger] m[j][k]
            && #[trigger] m[k][l] ==> m[j][l]
}

/// Whether a square matrix relates every index to itself.
pub open spec fn is_reflexive(m: Seq<Seq<bool>>) -> bool {
    forall|j: int| 0 <= j < m.len() ==> (#[trigger] m[j])[j]
}

/// The matrix after the entry in row `i` and column `k` and the one opposite
/// to it have been set.
pub open spec fn spec_sym_write(m: Seq<Seq<bool>>, i: int, k: int) -> Seq<Seq<bool>> {
    let once = m.update(i, m[i].update(k, true));
    once.update(k, once[k].update(i, true))
}

/// Matrix multiplication is associative.
pub proof fn lemma_product_associative(
    a: Seq<Seq<bool>>,
    b: Seq<Seq<bool>>,
    c: Seq<Seq<bool>>,
    inner: nat,
    width: nat,
)
    requires
        has_shape(b, b.len(), inner),
        has_shape(c, inner, width),
    ensures
        spec_product(spec_product(a, b, inner), c, width) == spec_product(
            a,
            spec_product(b, c, width),
            width,
        ),
{
    let ab = spec_product(a, b, inner);
    let bc = spec_product(b, c, width);
    let left = spec_product(ab, c, width);
    let right = spec_product(a, bc, width);
    assert forall|j: int, m: int| 0 <= j < a.len() && 0 <= m < width implies left[j][m]
        == right[j][m] by {
        if spec_dot(ab, c, j, m) {
            let l = choose|l: int| 0 <= l < c.len() && #[trigger] spec_link(ab, c, j, l, m);
            assert(spec_dot(a, b, j, l));
            let k = choose|k: int| 0 <= k < b.len() && #[trigger] spec_link(a, b, j, k, l);
            assert(spec_link(b, c, k, l, m));
            assert(spec_dot(b, c, k, m));
            assert(spec_link(a, bc, j, k, m));
        }
        if spec_dot(a, bc, j, m) {
            let k = choose|k: int| 0 <= k < bc.len() && #[trigger] spec_link(a, bc, j, k, m);
            assert(spec_dot(b, c, k, m));
            let l = choose|l: int| 0 <= l < c.len() && #[trigger] spec_link(b, c, k, l, m);
            assert(spec_link(a, b, j, k, l));
            assert(spec_dot(a, b, j, l));
            assert(spec_link(ab, c, j, l, m));
        }
    }
    assert forall|j: int| 0 <= j < a.len() implies left[j] == right[j] by {
        assert(left[j] =~= right[j]);
    }
    assert(left =~= right);
}

/// Multiplying by the identity from the left changes nothing.
pub proof fn lemma_identity_left(m: Seq<Seq<bool>>, height: nat, width: nat)
    requires
        has_shape(m, height, width),
    ensures
        spec_product(spec_identity(height), m, width) == m,
{
    let id = spec_identity(height);
    let p = spec_product(id, m, width);
    assert forall|j: int, l: int| 0 <= j < height && 0 <= l < width implies p[j][l] == m[j][l] by {
        if m[j][l] {
            assert(spec_link(id, m, j, j, l));
        }
    }
    assert forall|j: int| 0 <= j < height implies p[j] == m[j] by {
        assert(p[j] =~= m[j]);
    }
    assert(p =~= m);
}

/// Multiplying by the identity from the right changes nothing.
pub proof fn lemma_identity_right(m: Seq<Seq<bool>>, height: nat, width: nat)
    requires
        has_shape(m, height, width),
    ensures
        spec_product(m, spec_identity(width), width) == m,
{
    let id = spec_identity(width);
    let p = spec_product(m, id, width);
    assert forall|j: int, l: int| 0 <= j < height && 0 <= l < width implies p[j][l] == m[j][l] by {
        if m[j][l] {
            assert(spec_link(m, id, j, l, l));
        }
    }
    assert forall|j: int| 0 <= j < height implies p[j] == m[j] by {
        assert(p[j] =~= m[j]);
    }
    assert(p =~= m);
}

/// Applying a matrix to a vector is multiplying it by the vector written as
/// a column.
pub proof fn lemma_apply_is_product(m: Seq<Seq<bool>>, v: Seq<bool>)
    ensures
        spec_column(spec_apply(m, v)) == spec_product(m, spec_column(v), 1),
{
    let col = spec_column(v);
    let left = spec_column(spec_apply(m, v));
    let right = spec_product(m, col, 1);
    assert forall|j: int| 0 <= j < m.len() implies left[j] == right[j] by {
        if spec_apply(m, v)[j] {
            let k = choose|k: int| 0 <= k < v.len() && #[trigger] spec_hit(m, v, j, k);
            assert(spec_link(m, col, j, k, 0));
        }
        if spec_dot(m, col, j, 0) {
            let k = choose|k: int| 0 <= k < col.len() && #[trigger] spec_link(m, col, j, k, 0);
            assert(spec_hit(m, v, j, k));
        }
        assert(left[j] =~= right[j]);
    }
    assert(left =~= right);
}

/// A matrix with values in `bool`, the two-element semi-ring.
/// Since not all matrices represent endomorphisms,
/// rows and columns each have their own `Indexer`.
#[derive(Debug, Eq, PartialEq)]
pub struct BoolMat<J: Indexer, K: Indexer> {
    rows: J,
    columns: K,
    contents: BoolVec<Rect>,
}

impl<J: Indexer, K: Indexer> View for BoolMat<J, K> {
    type V = Seq<Seq<bool>>;

    /// The rows of the matrix, in the order of the internal row indices,
    /// each in the order of the internal column indices.
    closed spec fn view(&self) -> Seq<Seq<bool>> {
        Seq::new(
            self.rows.spec_range(),
            |j: int|
                Seq::new(
                    self.columns.spec_range(),
                    |k: int| self.contents@[j * self.columns.spec_range() + k],
                ),
        )
    }
}

impl<J: Indexer, K: Indexer> Clone for BoolMat<J, K> {
    fn clone(&self) -> (copy: Self)
        ensures
            copy@ == self@,
            copy.spec_rows() == self.spec_rows(),
            copy.spec_columns() == self.spec_columns(),
            self.wf() ==> copy.wf(),
    {
        let rows = self.rows.duplicate();
        let columns = self.columns.duplicate();
        let contents = self.contents.clone();
        BoolMat { rows, columns, contents }
    }
}

impl<J, K> std::ops::Index<(J::Index, K::Index)> for BoolMat<J, K> where J: Indexer, K: Indexer {
    type Output = bool;

    fn index(&self, index: (J::Index, K::Index)) -> (value: &bool)
        ensures
            *value == self.spec_get(index.0, index.1),
    {
        let (j, k) = index;
        let i = (self.rows.to_num(j), self.columns.to_num(k));
        proof {
            self.lemma_view();
            lemma_row_major(self.spec_height(), self.spec_width(), i.0 as nat, i.1 as nat);
        }
        &self.contents[i]
    }
}

impl<J, K> std::ops::IndexMut<(J::Index, K::Index)> for BoolMat<J, K> where J: Indexer, K: Indexer {
    fn index_mut(&mut self, index: (J::Index, K::Index)) -> (value: &mut bool)
        requires
            old(self).wf(),
            old(self).spec_rows().spec_is_valid(index.0),
            old(self).spec_columns().spec_is_valid(index.1),
        ensures
            *value == old(self).spec_get(index.0, index.1),
            final(self).wf(),
            final(self)@ == old(self)@.update(
                old(self).spec_rows().spec_to_num(index.0) as int,
                old(self)@[old(self).spec_rows().spec_to_num(index.0) as int].update(
                    old(self).spec_columns().spec_to_num(index.1) as int,
                    *final(value),
                ),
            ),
            final(self).spec_rows() == old(self).spec_rows(),
            final(self).spec_columns() == old(self).spec_columns(),
    {
        let (j, k) = index;
        let i = (self.rows.to_num(j), self.columns.to_num(k));
        let ghost before = *self;
        let ghost n = (i.0 * self.spec_width() + i.1) as int;
        proof {
            self.lemma_view();
            lemma_row_major(self.spec_height(), self.spec_width(), i.0 as nat, i.1 as nat);
            assert forall|after: Self, v: bool|
                #![trigger after.wf(), before.contents@.update(n, v)]
                after.rows == before.rows && after.columns == before.columns
                    && after.contents.spec_indexer() == before.contents.spec_indexer()
                    && after.contents@ == before.contents@.update(n, v) implies after.wf()
                && after@ == before@.update(i.0 as int, before@[i.0 as int].update(i.1 as int,
                    v)) by {
                before.lemma_after_write(&after, i.0 as nat, i.1 as nat, v);
            }
        }
        std::ops::IndexMut::index_mut(&mut self.contents, i)
    }
}

impl<J, K> vstd::std_specs::core::IndexSpecImpl<(J::Index, K::Index)> for BoolMat<J, K> where J: Indexer, K: Indexer {
    open spec fn index_req(&self, index: &(J::Index, K::Index)) -> bool {
        &&& self.wf()
        &&& self.spec_rows().spec_is_valid(index.0)
        &&& self.spec_columns().spec_is_valid(index.1)
    }
}

impl<J, K> BoolMat<J, K> where J: Indexer, K: Indexer {
    /// The indexer of the rows.
    pub closed spec fn spec_rows(&self) -> J {
        self.rows
    }

    /// The indexer of the columns.
    pub closed spec fn spec_columns(&self) -> K {
        self.columns
    }

    /// The number of rows.
    pub open spec fn spec_height(&self) -> nat {
        self.spec_rows().spec_range()
    }

    /// The number of columns.
    pub open spec fn spec_width(&self) -> nat {
        self.spec_columns().spec_range()
    }

    /// The entries are stored row by row in a vector of the fitting size.
    pub closed spec fn stored(&self) -> bool {
        &&& self.contents.wf()
        &&& self.contents.spec_indexer().spec_height() == self.rows.spec_range()
        &&& self.contents.spec_indexer().spec_width() == self.columns.spec_range()
        &&& self.rows.spec_range() * self.columns.spec_range() <= usize::MAX
    }

    /// A matrix holds exactly one value for each pair of a row and a column,
    /// and machine integers number the rows, the columns and the pairs.
    pub open spec fn wf(&self) -> bool {
        &&& self.stored()
        &&& has_shape(self@, self.spec_height(), self.spec_width())
        &&& self.spec_height() <= usize::MAX
        &&& self.spec_width() <= usize::MAX
        &&& self.spec_height() * self.spec_width() <= usize::MAX
    }

    /// The entry at a pair of external indices.
    pub open spec fn spec_get(&self, j: J::Index, k: K::Index) -> bool {
        self@[self.spec_rows().spec_to_num(j) as int][self.spec_columns().spec_to_num(k) as int]
    }

    /// Whether two matrices are equal: of the same indexers and holding the
    /// same entries.
    pub open spec fn spec_eq(&self, other: &Self) -> bool {
        &&& self.spec_rows() == other.spec_rows()
        &&& self.spec_columns() == other.spec_columns()
        &&& self@ == other@
    }

    /// The view reads the stored vector row by row.
    proof fn lemma_view(&self)
        requires
            self.stored(),
            self.spec_height() <= usize::MAX,
            self.spec_width() <= usize::MAX,
        ensures
            self.wf(),
            self.contents@.len() == self.spec_height() * self.spec_width(),
            forall|j: int, k: int|
                0 <= j < self.spec_height() && 0 <= k < self.spec_width() ==> #[trigger] self@[j][k]
                    == self.contents@[j * self.spec_width() + k],
    {
    }

    /// Writing one value into the stored vector changes the one entry that
    /// is stored there.
    proof fn lemma_after_write(&self, after: &Self, j: nat, k: nat, value: bool)
        requires
            self.wf(),
            j < self.spec_height(),
            k < self.spec_width(),
            after.rows == self.rows,
            after.columns == self.columns,
            after.contents.spec_indexer() == self.contents.spec_indexer(),
            after.contents@ == self.contents@.update((j * self.spec_width() + k) as int, value),
        ensures
            after.wf(),
            after@ == self@.update(j as int, self@[j as int].update(k as int, value)),
    {
        let h = self.spec_height();
        let w = self.spec_width();
        self.lemma_view();
        lemma_row_major(h, w, j, k);
        after.lemma_view();
        let goal = self@.update(j as int, self@[j as int].update(k as int, value));
        assert forall|r: int| 0 <= r < h implies after@[r] == goal[r] by {
            assert forall|c: int| 0 <= c < w implies after@[r][c] == goal[r][c] by {
                lemma_row_major(h, w, r as nat, c as nat);
            }
            assert(after@[r] =~= goal[r]);
        }
        assert(after@ =~= goal);
    }

    /// Create a matrix with all entries equal to one value.
    fn uniform(rows: J, columns: K, value: bool) -> (matrix: Self)
        requires
            rows.spec_range() * columns.spec_range() <= usize::MAX,
        ensures
            matrix.wf(),
            matrix@ == spec_uniform(rows.spec_range(), columns.spec_range(), value),
            matrix.spec_rows() == rows,
            matrix.spec_columns() == columns,
    {
        let rect = Rect::new(rows.range(), columns.range());
        let contents = if value {
            BoolVec::trues(rect)
        } else {
            BoolVec::falses(rect)
        };
        let matrix = BoolMat { rows, columns, contents };
        proof {
            let h = rows.spec_range();
            let w = columns.spec_range();
            matrix.lemma_view();
            assert forall|j: int| 0 <= j < h implies matrix@[j] == spec_uniform(h, w, value)[j] by {
                assert forall|k: int| 0 <= k < w implies matrix@[j][k] == value by {
                    lemma_row_major(h, w, j as nat, k as nat);
                }
                assert(matrix@[j] =~= spec_uniform(h, w, value)[j]);
            }
            assert(matrix@ =~= spec_uniform(h, w, value));
        }
        matrix
    }

    /// Create a new Boolean matrix with all entries unset.
    pub fn falses(rows: J, columns: K) -> (matrix: Self)
        requires
            rows.spec_range() * columns.spec_range() <= usize::MAX,
        ensures
            matrix.wf(),
            matrix@ == spec_uniform(rows.spec_range(), columns.spec_range(), false),
            matrix.spec_rows() == rows,
            matrix.spec_columns() == columns,
    {
        Self::uniform(rows, columns, false)
    }

    /// Create a new Boolean matrix with all entries set.
    pub fn trues(rows: J, columns: K) -> (matrix: Self)
        requires
            rows.spec_range() * columns.spec_range() <= usize::MAX,
        ensures
            matrix.wf(),
            matrix@ == spec_uniform(rows.spec_range(), columns.spec_range(), true),
            matrix.spec_rows() == rows,
            matrix.spec_columns() == columns,
    {
        Self::uniform(rows, columns, true)
    }

    /// Get a reference to the indexer of the rows.
    pub fn rows(&self) -> (rows: &J)
        ensures
            *rows == self.spec_rows(),
    {
        &self.rows
    }

    /// Get a reference to the indexer of the columns.
    pub fn columns(&self) -> (columns: &K)
        ensures
            *columns == self.spec_columns(),
    {
        &self.columns
    }

    /// Read the entry at a pair of internal indices.
    pub fn get_num(&self, j: usize, k: usize) -> (value: bool)
        requires
            self.wf(),
            j < self.spec_height(),
            k < self.spec_width(),
        ensures
            value == self@[j as int][k as int],
    {
        proof {
            self.lemma_view();
            lemma_row_major(self.spec_height(), self.spec_width(), j as nat, k as nat);
        }
        self.contents[(j, k)]
    }

    /// Write the entry at a pair of internal indices.
    pub fn set_num(&mut self, j: usize, k: usize, value: bool)
        requires
            old(self).wf(),
            j < old(self).spec_height(),
            k < old(self).spec_width(),
        ensures
            final(self).wf(),
            final(self)@ == old(self)@.update(j as int, old(self)@[j as int].update(k as int,
                value)),
            final(self).spec_rows() == old(self).spec_rows(),
            final(self).spec_columns() == old(self).spec_columns(),
    {
        let ghost before = *self;
        proof {
            self.lemma_view();
            lemma_row_major(self.spec_height(), self.spec_width(), j as nat, k as nat);
        }
        self.contents.set((j, k), value);
        proof {
            before.lemma_after_write(&*self, j as nat, k as nat, value);
        }
    }
}

impl<J, K> BoolMat<J, K> where J: Indexer, K: Indexer {
    /// Write the entry at a pair of external indices.
    pub fn set(&mut self, j: J::Index, k: K::Index, value: bool)
        requires
            old(self).wf(),
            old(self).spec_rows().spec_is_valid(j),
            old(self).spec_columns().spec_is_valid(k),
        ensures
            final(self).wf(),
            final(self)@ == old(self)@.update(
                old(self).spec_rows().spec_to_num(j) as int,
                old(self)@[old(self).spec_rows().spec_to_num(j) as int].update(
                    old(self).spec_columns().spec_to_num(k) as int,
                    value,
                ),
            ),
            final(self).spec_rows() == old(self).spec_rows(),
            final(self).spec_columns() == old(self).spec_columns(),
    {
        let row = self.rows.to_num(j);
        let column = self.columns.to_num(k);
        self.set_num(row, column, value);
    }

    /// Decide whether two matrices are equal.
    pub fn equals(&self, other: &Self) -> (b: bool)
        requires
            self.wf(),
            other.wf(),
        ensures
            b == self.spec_eq(other),
    {
        if !self.rows.same(&other.rows) || !self.columns.same(&other.columns) {
            return false;
        }
        let same = self.contents.equals(&other.contents);
        proof {
            self.lemma_view();
            other.lemma_view();
            let h = self.spec_height();
            let w = self.spec_width();
            assert(self.contents.spec_indexer().spec_range() == h * w);
            self.contents.spec_indexer().lemma_same_measurements(&other.contents.spec_indexer());
            if same {
                assert forall|j: int| 0 <= j < h implies self@[j] == other@[j] by {
                    assert(self@[j] =~= other@[j]);
                }
                assert(self@ =~= other@);
            } else {
                if self@ == other@ {
                    assert forall|n: int| 0 <= n < h * w implies self.contents@[n]
                        == other.contents@[n] by {
                        crate::indexer::lemma_cell_of_number(h, w, n as nat);
                        let j = n / (w as int);
                        let k = n % (w as int);
                        assert(self@[j][k] == other@[j][k]);
                        assert(self@[j][k] == self.contents@[j * w + k]);
                        assert(other@[j][k] == other.contents@[j * w + k]);
                    }
                    assert(self.contents@ =~= other.contents@);
                }
            }
        }
        same
    }

    /// Evaluate the matrix on a vector,
    /// which is considered as a column vector.
    pub fn eval(&self, v: &BoolVec<K>) -> (image: BoolVec<J>)
        requires
            self.wf(),
            v.wf(),
            self.spec_columns() == v.spec_indexer(),
        ensures
            image.wf(),
            image@ == spec_apply(self@, v@),
            image.spec_indexer() == self.spec_rows(),
    {
        let column = BoolMat::column(v);
        proof {
            assert(self.spec_height() * 1 == self.spec_height()) by (nonlinear_arith);
        }
        let matrix = self.mult(&column);
        proof {
            matrix.lemma_view();
            lemma_apply_is_product(self@, v@);
            assert forall|j: int| 0 <= j < self.spec_height() implies matrix.contents@[j]
                == spec_apply(self@, v@)[j] by {
                assert(matrix@[j][0] == matrix.contents@[j * 1 + 0]);
                assert(spec_column(spec_apply(self@, v@))[j][0] == spec_apply(self@, v@)[j]);
            }
            assert(matrix.contents@ =~= spec_apply(self@, v@));
        }
        let indexer = matrix.rows;
        matrix.contents.reindex(indexer)
    }
}

impl<I> BoolMat<I, ()> where I: Indexer {
    /// Take a vector and write it as column,
    /// i.e. a matrix where the columns are indexed by the unit type.
    fn column(vec: &BoolVec<I>) -> (matrix: Self)
        requires
            vec.wf(),
        ensures
            matrix.wf(),
            matrix@ == spec_column(vec@),
            matrix.spec_rows() == vec.spec_indexer(),
    {
        let rows = vec.indexer().duplicate();
        let columns = ();
        proof {
            assert(rows.spec_range() * 1 == rows.spec_range()) by (nonlinear_arith);
        }
        let rect = Rect::new(rows.range(), 1);
        let contents = vec.clone().reindex(rect);
        let matrix = BoolMat { rows, columns, contents };
        proof {
            matrix.lemma_view();
            let goal = spec_column(vec@);
            assert forall|j: int| 0 <= j < matrix.spec_height() implies matrix@[j] == goal[j] by {
                assert(matrix@[j][0] == matrix.contents@[j * 1 + 0]);
                assert(matrix@[j] =~= goal[j]);
            }
            assert(matrix@ =~= goal);
        }
        matrix
    }
}

impl<I> BoolMat<I, I> where I: Indexer {
    /// Create a diagonal matrix
    /// whose diagonal entries are given by a vector.
    pub fn from_diag(diag: &BoolVec<I>) -> (matrix: Self)
        requires
            diag.wf(),
            diag@.len() * diag@.len() <= usize::MAX,
        ensures
            matrix.wf(),
            matrix@ == spec_diagonal(diag@),
            matrix.spec_rows() == diag.spec_indexer(),
            matrix.spec_columns() == diag.spec_indexer(),
    {
        let indexer = diag.indexer();
        let rows = indexer.duplicate();
        let columns = indexer.duplicate();
        let mut res = BoolMat::falses(rows, columns);
        let len = indexer.range();
        let mut i: usize = 0;
        while i < len
            invariant
                diag.wf(),
                res.wf(),
                len == diag@.len(),
                res.spec_rows() == diag.spec_indexer(),
                res.spec_columns() == diag.spec_indexer(),
                i <= len,
                forall|j: int, k: int|
                    0 <= j < len && 0 <= k < len ==> #[trigger] res@[j][k] == (j == k && j < i
                        && diag@[j]),
            decreases len - i,
        {
            res.set_num(i, i, diag.get_num(i));
            i += 1;
        }
        proof {
            let goal = spec_diagonal(diag@);
            assert forall|j: int| 0 <= j < len implies res@[j] == goal[j] by {
                assert forall|k: int| 0 <= k < len implies res@[j][k] == goal[j][k] by {}
                assert(res@[j] =~= goal[j]);
            }
            assert(res@ =~= goal);
        }
        res
    }

    /// Create the identity matrix to a given `Indexer`.
    pub fn id_matrix(indexer: I) -> (matrix: Self)
        requires
            indexer.spec_range() * indexer.spec_range() <= usize::MAX,
        ensures
            matrix.wf(),
            matrix@ == spec_identity(indexer.spec_range()),
            matrix.spec_rows() == indexer,
            matrix.spec_columns() == indexer,
    {
        BoolMat::from_diag(&BoolVec::trues(indexer))
    }
}

impl<J, K> BoolMat<J, K> where J: Indexer, K: Indexer {
    /// Multiply two matrices over the two-element semi-ring.
    pub fn mult<L: Indexer>(&self, other: &BoolMat<K, L>) -> (product: BoolMat<J, L>)
        requires
            self.wf(),
            other.wf(),
            self.spec_columns() == other.spec_rows(),
            self.spec_height() * other.spec_width() <= usize::MAX,
        ensures
            product.wf(),
            product@ == spec_product(self@, other@, other.spec_width()),
            product.spec_rows() == self.spec_rows(),
            product.spec_columns() == other.spec_columns(),
    {
        let len = self.columns.range();
        let rows = self.rows.duplicate();
        let columns = other.columns.duplicate();
        let height = rows.range();
        let width = columns.range();
        let ghost a = self@;
        let ghost b = other@;
        proof {
            self.lemma_view();
            other.lemma_view();
        }
        let mut data: Vec<bool> = Vec::with_capacity(height * width);
        let mut j: usize = 0;
        while j < height
            invariant
                self.wf(),
                other.wf(),
                a == self@,
                b == other@,
                len == self.spec_width(),
                len == other.spec_height(),
                height == self.spec_height(),
                width == other.spec_width(),
                height * width <= usize::MAX,
                j <= height,
                data@.len() == j * width,
                forall|r: int, c: int|
                    0 <= r < j && 0 <= c < width ==> data@[r * width + c] == #[trigger] spec_dot(
                        a,
                        b,
                        r,
                        c,
                    ),
            decreases height - j,
        {
            let mut l: usize = 0;
            while l < width
                invariant
                    self.wf(),
                    other.wf(),
                    a == self@,
                    b == other@,
                    len == self.spec_width(),
                    len == other.spec_height(),
                    height == self.spec_height(),
                    width == other.spec_width(),
                    height * width <= usize::MAX,
                    j < height,
                    l <= width,
                    data@.len() == j * width + l,
                    forall|r: int, c: int|
                        0 <= r < j && 0 <= c < width ==> data@[r * width + c]
                            == #[trigger] spec_dot(a, b, r, c),
                    forall|c: int|
                        0 <= c < l ==> data@[j * width + c]
                            == #[trigger] spec_dot(a, b, j as int, c),
                decreases width - l,
            {
                let mut entry = false;
                let mut k: usize = 0;
                while k < len
                    invariant
                        self.wf(),
                        other.wf(),
                        a == self@,
                        b == other@,
                        len == self.spec_width(),
                        len == other.spec_height(),
                        j < self.spec_height(),
                        l < other.spec_width(),
                        k <= len,
                        entry == exists|m: int|
                            0 <= m < k && #[trigger] spec_link(a, b, j as int, m, l as int),
                    decreases len - k,
                {
                    if self.get_num(j, k) && other.get_num(k, l) {
                        assert(spec_link(a, b, j as int, k as int, l as int));
                        entry = true;
                    }
                    k += 1;
                }
                let ghost before = data@;
                proof {
                    lemma_row_major(height as nat, width as nat, j as nat, l as nat);
                }
                data.push(entry);
                proof {
                    assert forall|r: int, c: int| 0 <= r < j && 0 <= c < width implies data@[r
                        * width + c] == #[trigger] spec_dot(a, b, r, c) by {
                        lemma_row_major(j as nat, width as nat, r as nat, c as nat);
                        assert(data@[r * width + c] == before[r * width + c]);
                    }
                    assert forall|c: int| 0 <= c < l + 1 implies data@[j * width + c]
                        == #[trigger] spec_dot(a, b, j as int, c) by {
                        if c < l {
                            assert(data@[j * width + c] == before[j * width + c]);
                        }
                    }
                }
                l += 1;
            }
            proof {
                assert((j + 1) * width == j * width + width) by (nonlinear_arith);
            }
            j += 1;
        }
        let rect = Rect::new(height, width);
        let contents = BoolVec::from_data(data, rect);
        let product = BoolMat { rows, columns, contents };
        proof {
            product.lemma_view();
            let goal = spec_product(a, b, width as nat);
            assert forall|r: int| 0 <= r < height implies product@[r] == goal[r] by {
                assert forall|c: int| 0 <= c < width implies product@[r][c] == goal[r][c] by {
                    assert(product@[r][c] == spec_dot(a, b, r, c));
                }
                assert(product@[r] =~= goal[r]);
            }
            assert(product@ =~= goal);
        }
        product
    }
}

impl<'now, J, K, L> std::ops::Mul<&'now BoolMat<K, L>> for &'now BoolMat<J, K> where
    J: Indexer,
    K: Indexer,
    L: Indexer,
 {
    type Output = BoolMat<J, L>;

    fn mul(self, other: &BoolMat<K, L>) -> (product: BoolMat<J, L>)
        ensures
            product.wf(),
            product@ == spec_product(self@, other@, other.spec_width()),
            product.spec_rows() == self.spec_rows(),
            product.spec_columns() == other.spec_columns(),
    {
        self.mult(other)
    }
}

impl<'now, J, K, L> vstd::std_specs::ops::MulSpecImpl<&'now BoolMat<K, L>> for &'now BoolMat<J, K> where
    J: Indexer,
    K: Indexer,
    L: Indexer,
 {
    /// The product is described by its entries, not as a value.
    open spec fn obeys_mul_spec() -> bool {
        false
    }

    /// Two matrices can be multiplied when the columns of the left one are
    /// indexed as the rows of the right one, and the entries of the product
    /// can be numbered by machine integers.
    open spec fn mul_req(self, other: &'now BoolMat<K, L>) -> bool {
        &&& self.wf()
        &&& other.wf()
        &&& self.spec_columns() == other.spec_rows()
        &&& self.spec_height() * other.spec_width() <= usize::MAX
    }

    open spec fn mul_spec(self, other: &'now BoolMat<K, L>) -> BoolMat<J, L> {
        arbitrary()
    }
}

impl<'now, J, K, L> std::ops::Mul<BoolMat<K, L>> for &'now BoolMat<J, K> where
    J: Indexer,
    K: Indexer,
    L: Indexer,
 {
    type Output = BoolMat<J, L>;

    fn mul(self, other: BoolMat<K, L>) -> (product: BoolMat<J, L>)
        ensures
            product.wf(),
            product@ == spec_product(self@, other@, other.spec_width()),
            product.spec_rows() == self.spec_rows(),
            product.spec_columns() == other.spec_columns(),
    {
        self.mult(&other)
    }
}

impl<'now, J, K, L> vstd::std_specs::ops::MulSpecImpl<BoolMat<K, L>> for &'now BoolMat<J, K> where
    J: Indexer,
    K: Indexer,
    L: Indexer,
 {
    /// The product is described by its entries, not as a value.
    open spec fn obeys_mul_spec() -> bool {
        false
    }

    /// Two matrices can be multiplied when the columns of the left one are
    /// indexed as the rows of the right one, and the entries of the product
    /// can be numbered by machine integers.
    open spec fn mul_req(self, other: BoolMat<K, L>) -> bool {
        &&& self.wf()
        &&& other.wf()
        &&& self.spec_columns() == other.spec_rows()
        &&& self.spec_height() * other.spec_width() <= usize::MAX
    }

    open spec fn mul_spec(self, other: BoolMat<K, L>) -> BoolMat<J, L> {
        arbitrary()
    }
}

impl<'now, J, K, L> std::ops::Mul<&'now BoolMat<K, L>> for BoolMat<J, K> where
    J: Indexer,
    K: Indexer,
    L: Indexer,
 {
    type Output = BoolMat<J, L>;

    fn mul(self, other: &'now BoolMat<K, L>) -> (product: BoolMat<J, L>)
        ensures
            product.wf(),
            product@ == spec_product(self@, other@, other.spec_width()),
            product.spec_rows() == self.spec_rows(),
            product.spec_columns() == other.spec_columns(),
    {
        self.mult(other)
    }
}

impl<'now, J, K, L> vstd::std_specs::ops::MulSpecImpl<&'now BoolMat<K, L>> for BoolMat<J, K> where
    J: Indexer,
    K: Indexer,
    L: Indexer,
 {
    /// The product is described by its entries, not as a value.
    open spec fn obeys_mul_spec() -> bool {
        false
    }

    /// Two matrices can be multiplied when the columns of the left one are
    /// indexed as the rows of the right one, and the entries of the product
    /// can be numbered by machine integers.
    open spec fn mul_req(self, other: &'now BoolMat<K, L>) -> bool {
        &&& self.wf()
        &&& other.wf()
        &&& self.spec_columns() == other.spec_rows()
        &&& self.spec_height() * other.spec_width() <= usize::MAX
    }

    open spec fn mul_spec(self, other: &'now BoolMat<K, L>) -> BoolMat<J, L> {
        arbitrary()
    }
}

impl<J, K, L> std::ops::Mul<BoolMat<K, L>> for BoolMat<J, K> where
    J: Indexer,
    K: Indexer,
    L: Indexer,
 {
    type Output = BoolMat<J, L>;

    fn mul(self, other: BoolMat<K, L>) -> (product: BoolMat<J, L>)
        ensures
            product.wf(),
            product@ == spec_product(self@, other@, other.spec_width()),
            product.spec_rows() == self.spec_rows(),
            product.spec_columns() == other.spec_columns(),
    {
        self.mult(&other)
    }
}

impl<J, K, L> vstd::std_specs::ops::MulSpecImpl<BoolMat<K, L>> for BoolMat<J, K> where
    J: Indexer,
    K: Indexer,
    L: Indexer,
 {
    /// The product is described by its entries, not as a value.
    open spec fn obeys_mul_spec() -> bool {
        false
    }

    /// Two matrices can be multiplied when the columns of the left one are
    /// indexed as the rows of the right one, and the entries of the product
    /// can be numbered by machine integers.
    open spec fn mul_req(self, other: BoolMat<K, L>) -> bool {
        &&& self.wf()
        &&& other.wf()
        &&& self.spec_columns() == other.spec_rows()
        &&& self.spec_height() * other.spec_width() <= usize::MAX
    }

    open spec fn mul_spec(self, other: BoolMat<K, L>) -> BoolMat<J, L> {
        arbitrary()
    }
}

} // verus!
