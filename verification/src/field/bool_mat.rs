//! Boolean matrices and vectors that are indexed by plain integers.

use crate::bool_mat::spec_apply;
use crate::bool_mat::spec_diagonal;
use crate::bool_mat::spec_dot;
use crate::bool_mat::spec_hit;
use crate::bool_mat::spec_link;
use crate::bool_mat::spec_product;
use crate::bool_mat::spec_sym_write;
use crate::bool_mat::spec_uniform;
use crate::bool_vec::spec_complement;
use crate::bool_vec::spec_constant;
use crate::bool_vec::spec_union;
use crate::indexer::lemma_row_major;
use vstd::prelude::*;

verus! {

/// A matrix with values in `bool`, stored row by row.
#[derive(Debug, Eq, PartialEq)]
pub struct BoolMat {
    pub height: usize,
    pub width: usize,
    pub contents: Vec<bool>,
}

/// A column vector with values in `bool`.
pub struct BoolVec {
    mat: BoolMat,
}

impl View for BoolMat {
    type V = Seq<Seq<bool>>;

    /// The rows of the matrix.
    open spec fn view(&self) -> Seq<Seq<bool>> {
        Seq::new(
            self.height as nat,
            |j: int| Seq::new(self.width as nat, |k: int| self.contents@[j * self.width + k]),
        )
    }
}

impl BoolMat {
    /// A matrix stores exactly one value for each pair of a row and a column,
    /// and machine integers number these pairs.
    pub open spec fn wf(&self) -> bool {
        self.contents@.len() == self.height * self.width && self.height * self.width <= usize::MAX
    }

    /// The matrix after one entry has been written.
    pub open spec fn spec_write(&self, i: int, k: int, value: bool) -> Seq<Seq<bool>> {
        self@.update(i, self@[i].update(k, value))
    }

    /// Writing one stored value changes the one entry that is stored there.
    proof fn lemma_after_write(&self, after: &Self, i: nat, k: nat, value: bool)
        requires
            self.wf(),
            i < self.height,
            k < self.width,
            after.height == self.height,
            after.width == self.width,
            after.contents@ == self.contents@.update((i * self.width + k) as int, value),
        ensures
            after.wf(),
            after@ == self.spec_write(i as int, k as int, value),
    {
        let h = self.height as nat;
        let w = self.width as nat;
        lemma_row_major(h, w, i, k);
        let goal = self.spec_write(i as int, k as int, value);
        assert forall|r: int| 0 <= r < h implies after@[r] == goal[r] by {
            assert forall|c: int| 0 <= c < w implies after@[r][c] == goal[r][c] by {
                lemma_row_major(h, w, r as nat, c as nat);
            }
            assert(after@[r] =~= goal[r]);
        }
        assert(after@ =~= goal);
    }

    /// Create a matrix with all entries equal to one value.
    fn uniform(height: usize, width: usize, value: bool) -> (matrix: BoolMat)
        requires
            height * width <= usize::MAX,
        ensures
            matrix.wf(),
            matrix.height == height,
            matrix.width == width,
            matrix.contents@ == spec_constant((height * width) as nat, value),
            matrix@ == spec_uniform(height as nat, width as nat, value),
    {
        let contents = vec![value; height * width];
        let matrix = BoolMat { height, width, contents };
        proof {
            assert(matrix.contents@ =~= spec_constant((height * width) as nat, value));
            let goal = spec_uniform(height as nat, width as nat, value);
            assert forall|j: int| 0 <= j < height implies matrix@[j] == goal[j] by {
                assert forall|k: int| 0 <= k < width implies matrix@[j][k] == value by {
                    lemma_row_major(height as nat, width as nat, j as nat, k as nat);
                }
                assert(matrix@[j] =~= goal[j]);
            }
            assert(matrix@ =~= goal);
        }
        matrix
    }

    /// Create a matrix with all entries unset.
    pub fn falses(height: usize, width: usize) -> (matrix: BoolMat)
        requires
            height * width <= usize::MAX,
        ensures
            matrix.wf(),
            matrix.height == height,
            matrix.width == width,
            matrix.contents@ == spec_constant((height * width) as nat, false),
            matrix@ == spec_uniform(height as nat, width as nat, false),
    {
        BoolMat::uniform(height, width, false)
    }

    /// Create a matrix with all entries set.
    pub fn trues(height: usize, width: usize) -> (matrix: BoolMat)
        requires
            height * width <= usize::MAX,
        ensures
            matrix.wf(),
            matrix.height == height,
            matrix.width == width,
            matrix.contents@ == spec_constant((height * width) as nat, true),
            matrix@ == spec_uniform(height as nat, width as nat, true),
    {
        BoolMat::uniform(height, width, true)
    }

    /// Create a diagonal matrix
    /// whose diagonal entries are given by a vector.
    pub fn from_diag(diag: &BoolVec) -> (matrix: BoolMat)
        requires
            diag.wf(),
            diag@.len() * diag@.len() <= usize::MAX,
        ensures
            matrix.wf(),
            matrix.height == diag@.len(),
            matrix.width == diag@.len(),
            matrix@ == spec_diagonal(diag@),
    {
        let len = diag.len();
        let mut res = BoolMat::falses(len, len);
        let positions = diag.set_positions();
        let mut n: usize = 0;
        while n < positions.len()
            invariant
                diag.wf(),
                res.wf(),
                len == diag@.len(),
                res.height == len,
                res.width == len,
                n <= positions@.len(),
                positions@ == spec_set_positions(diag@, len as nat),
                forall|j: int, k: int|
                    0 <= j < len && 0 <= k < len ==> #[trigger] res@[j][k] == (j == k && diag@[j]
                        && exists|m: int| 0 <= m < n && positions@[m] == j),
            decreases positions.len() - n,
        {
            let i = positions[n];
            proof {
                lemma_set_positions(diag@, len as nat);
            }
            let ghost before = res@;
            res.set(i, i);
            proof {
                assert forall|j: int, k: int| 0 <= j < len && 0 <= k < len
                    implies #[trigger] res@[j][k]
                    == (j == k && diag@[j] && exists|m: int| 0 <= m < n + 1
                        && positions@[m] == j) by {
                    if j == k && j == i {
                        assert(positions@[n as int] == j);
                    } else {
                        assert(res@[j][k] == before[j][k]);
                        if before[j][k] {
                            let m = choose|m: int| 0 <= m < n && positions@[m] == j;
                            assert(0 <= m < n + 1 && positions@[m] == j);
                        }
                    }
                }
            }
            n += 1;
        }
        proof {
            lemma_set_positions(diag@, len as nat);
            let goal = spec_diagonal(diag@);
            assert forall|j: int| 0 <= j < len implies res@[j] == goal[j] by {
                assert forall|k: int| 0 <= k < len implies res@[j][k] == goal[j][k] by {
                    if j == k && diag@[j] {
                        assert(positions@.contains(j as usize));
                    }
                }
                assert(res@[j] =~= goal[j]);
            }
            assert(res@ =~= goal);
        }
        res
    }

    /// Set the entry in row `i` and column `k`.
    pub fn set(&mut self, i: usize, k: usize)
        requires
            old(self).wf(),
            i < old(self).height,
            k < old(self).width,
        ensures
            final(self).wf(),
            final(self).height == old(self).height,
            final(self).width == old(self).width,
            final(self).contents@ == old(self).contents@.update(
                (i * old(self).width + k) as int,
                true,
            ),
            final(self)@ == old(self).spec_write(i as int, k as int, true),
    {
        let ghost before = *self;
        proof {
            lemma_row_major(self.height as nat, self.width as nat, i as nat, k as nat);
        }
        self.contents.set(i * self.width + k, true);
        proof {
            before.lemma_after_write(&*self, i as nat, k as nat, true);
        }
    }

    /// Set the entry in row `i` and column `k`, and the one opposite to it
    /// across the diagonal.
    pub fn sym_set(&mut self, i: usize, k: usize)
        requires
            old(self).wf(),
            i < old(self).height,
            k < old(self).width,
            k < old(self).height,
            i < old(self).width,
        ensures
            final(self).wf(),
            final(self).height == old(self).height,
            final(self).width == old(self).width,
            final(self)@ == spec_sym_write(old(self)@, i as int, k as int),
    {
        self.set(i, k);
        self.set(k, i);
    }

    /// Read the entry in row `i` and column `k`.
    pub fn get(&self, i: usize, k: usize) -> (value: bool)
        requires
            self.wf(),
            i < self.height,
            k < self.width,
        ensures
            value == self@[i as int][k as int],
            value == self.contents@[i * self.width + k],
    {
        proof {
            lemma_row_major(self.height as nat, self.width as nat, i as nat, k as nat);
        }
        self.contents[i * self.width + k]
    }

    /// Compute one entry of the product of two matrices.
    fn mult_get(a: &BoolMat, b: &BoolMat, i: usize, k: usize) -> (entry: bool)
        requires
            a.wf(),
            b.wf(),
            a.width == b.height,
            i < a.height,
            k < b.width,
        ensures
            entry == spec_dot(a@, b@, i as int, k as int),
    {
        let len = a.width;
        let mut entry = false;
        let mut n: usize = 0;
        while n < len
            invariant
                a.wf(),
                b.wf(),
                len == a.width,
                len == b.height,
                i < a.height,
                k < b.width,
                n <= len,
                entry == exists|m: int|
                    0 <= m < n && #[trigger] spec_link(a@, b@, i as int, m, k as int),
            decreases len - n,
        {
            if a.get(i, n) && b.get(n, k) {
                assert(spec_link(a@, b@, i as int, n as int, k as int));
                entry = true;
            }
            n += 1;
        }
        entry
    }

    /// Multiply two matrices over the two-element semi-ring.
    pub fn mult(a: &BoolMat, b: &BoolMat) -> (product: BoolMat)
        requires
            a.wf(),
            b.wf(),
            a.width == b.height,
            a.height * b.width <= usize::MAX,
        ensures
            product.wf(),
            product.height == a.height,
            product.width == b.width,
            product@ == spec_product(a@, b@, b.width as nat),
    {
        let height = a.height;
        let width = b.width;
        let mut contents: Vec<bool> = Vec::with_capacity(height * width);
        let mut i: usize = 0;
        while i < height
            invariant
                a.wf(),
                b.wf(),
                a.width == b.height,
                height == a.height,
                width == b.width,
                height * width <= usize::MAX,
                i <= height,
                contents@.len() == i * width,
                forall|r: int, c: int|
                    0 <= r < i && 0 <= c < width ==> contents@[r * width + c]
                        == #[trigger] spec_dot(a@, b@, r, c),
            decreases height - i,
        {
            let mut k: usize = 0;
            while k < width
                invariant
                    a.wf(),
                    b.wf(),
                    a.width == b.height,
                    height == a.height,
                    width == b.width,
                    height * width <= usize::MAX,
                    i < height,
                    k <= width,
                    contents@.len() == i * width + k,
                    forall|r: int, c: int|
                        0 <= r < i && 0 <= c < width ==> contents@[r * width + c]
                            == #[trigger] spec_dot(a@, b@, r, c),
                    forall|c: int|
                        0 <= c < k ==> contents@[i * width + c] == #[trigger] spec_dot(
                            a@,
                            b@,
                            i as int,
                            c,
                        ),
                decreases width - k,
            {
                let entry = BoolMat::mult_get(a, b, i, k);
                let ghost before = contents@;
                proof {
                    lemma_row_major(height as nat, width as nat, i as nat, k as nat);
                }
                contents.push(entry);
                proof {
                    assert forall|r: int, c: int| 0 <= r < i && 0 <= c < width implies contents@[r
                        * width + c] == #[trigger] spec_dot(a@, b@, r, c) by {
                        lemma_row_major(i as nat, width as nat, r as nat, c as nat);
                        assert(contents@[r * width + c] == before[r * width + c]);
                    }
                    assert forall|c: int| 0 <= c < k + 1 implies contents@[i * width + c]
                        == #[trigger] spec_dot(a@, b@, i as int, c) by {
                        if c < k {
                            assert(contents@[i * width + c] == before[i * width + c]);
                        }
                    }
                }
                k += 1;
            }
            proof {
                assert((i + 1) * width == i * width + width) by (nonlinear_arith);
            }
            i += 1;
        }
        let product = BoolMat { height, width, contents };
        proof {
            let goal = spec_product(a@, b@, width as nat);
            assert forall|r: int| 0 <= r < height implies product@[r] == goal[r] by {
                assert forall|c: int| 0 <= c < width implies product@[r][c] == goal[r][c] by {
                    assert(product@[r][c] == spec_dot(a@, b@, r, c));
                }
                assert(product@[r] =~= goal[r]);
            }
            assert(product@ =~= goal);
        }
        product
    }

    /// Evaluate the matrix on a vector,
    /// which is considered as a column vector.
    pub fn eval(&self, v: &BoolVec) -> (image: BoolVec)
        requires
            self.wf(),
            v.wf(),
            self.width == v@.len(),
        ensures
            image.wf(),
            image@ == spec_apply(self@, v@),
    {
        proof {
            assert(self.height * 1 == self.height) by (nonlinear_arith);
        }
        let mat = BoolMat::mult(self, &v.mat);
        let image = BoolVec { mat };
        proof {
            let goal = spec_apply(self@, v@);
            assert forall|j: int| 0 <= j < self.height implies image@[j] == goal[j] by {
                assert(image.mat@[j][0] == image.mat.contents@[j * 1 + 0]);
                if spec_dot(self@, v.mat@, j, 0) {
                    let k = choose|k: int|
                        0 <= k < v.mat@.len() && #[trigger] spec_link(self@, v.mat@, j, k, 0);
                    assert(v.mat@[k][0] == v.mat.contents@[k * 1 + 0]);
                    assert(spec_hit(self@, v@, j, k));
                }
                if goal[j] {
                    let k = choose|k: int| 0 <= k < v@.len()
                        && #[trigger] spec_hit(self@, v@, j, k);
                    assert(v.mat@[k][0] == v.mat.contents@[k * 1 + 0]);
                    assert(spec_link(self@, v.mat@, j, k, 0));
                }
            }
            assert(image@ =~= goal);
        }
        image
    }
}

/// The positions below `bound` at which a vector is set, in increasing order.
pub open spec fn spec_set_positions(v: Seq<bool>, bound: nat) -> Seq<usize>
    decreases bound,
{
    if bound == 0 {
        Seq::empty()
    } else if v[bound - 1] {
        spec_set_positions(v, (bound - 1) as nat).push((bound - 1) as usize)
    } else {
        spec_set_positions(v, (bound - 1) as nat)
    }
}

/// The list of the set positions holds exactly the positions that are set,
/// each once and in increasing order.
pub proof fn lemma_set_positions(v: Seq<bool>, bound: nat)
    requires
        bound <= v.len(),
        bound <= usize::MAX,
    ensures
        forall|m: int|
            0 <= m < spec_set_positions(v, bound).len() ==> (#[trigger] spec_set_positions(
                v,
                bound,
            )[m]) < bound && v[spec_set_positions(v, bound)[m] as int],
        forall|i: int|
            0 <= i < bound && v[i] ==> #[trigger] spec_set_positions(v, bound).contains(i as usize),
        forall|m: int, n: int|
            0 <= m < n < spec_set_positions(v, bound).len() ==> spec_set_positions(v, bound)[m]
                < spec_set_positions(v, bound)[n],
        spec_set_positions(v, bound).len() <= bound,
    decreases bound,
{
    if bound > 0 {
        let rest = spec_set_positions(v, (bound - 1) as nat);
        lemma_set_positions(v, (bound - 1) as nat);
        let all = spec_set_positions(v, bound);
        if v[bound - 1] {
            assert(all == rest.push((bound - 1) as usize));
            assert(all[rest.len() as int] == (bound - 1) as usize);
            assert forall|i: int| 0 <= i < bound && v[i] implies #[trigger] all.contains(
                i as usize,
            ) by {
                if i < bound - 1 {
                    assert(rest.contains(i as usize));
                    let m = choose|m: int| 0 <= m < rest.len() && rest[m] == i as usize;
                    assert(all[m] == i as usize);
                }
            }
        }
    }
}

impl View for BoolVec {
    type V = Seq<bool>;

    /// The values of the vector.
    closed spec fn view(&self) -> Seq<bool> {
        Seq::new(self.mat.height as nat, |i: int| self.mat.contents@[i])
    }
}

impl BoolVec {
    /// A vector is stored as a matrix with a single column.
    pub closed spec fn wf(&self) -> bool {
        self.mat.wf() && self.mat.width == 1
    }

    /// Create a vector with all positions unset.
    pub fn falses(size: usize) -> (vector: BoolVec)
        ensures
            vector.wf(),
            vector@ == spec_constant(size as nat, false),
    {
        proof {
            assert(size * 1 == size) by (nonlinear_arith);
        }
        let mat = BoolMat::falses(size, 1);
        let vector = BoolVec { mat };
        assert(vector@ =~= spec_constant(size as nat, false));
        vector
    }

    /// Create a vector with all positions set.
    pub fn trues(size: usize) -> (vector: BoolVec)
        ensures
            vector.wf(),
            vector@ == spec_constant(size as nat, true),
    {
        proof {
            assert(size * 1 == size) by (nonlinear_arith);
        }
        let mat = BoolMat::trues(size, 1);
        let vector = BoolVec { mat };
        assert(vector@ =~= spec_constant(size as nat, true));
        vector
    }

    /// The number of positions.
    pub fn len(&self) -> (n: usize)
        ensures
            n == self@.len(),
    {
        self.mat.height
    }

    /// Read the value at a position.
    pub fn get(&self, i: usize) -> (value: bool)
        requires
            self.wf(),
            i < self@.len(),
        ensures
            value == self@[i as int],
    {
        self.mat.get(i, 0)
    }

    /// Set the value at a position.
    pub fn set(&mut self, i: usize)
        requires
            old(self).wf(),
            i < old(self)@.len(),
        ensures
            final(self).wf(),
            final(self)@ == old(self)@.update(i as int, true),
    {
        self.mat.set(i, 0);
        assert(self@ =~= old(self)@.update(i as int, true));
    }

    /// The positions at which the vector is set, in increasing order.
    pub fn set_positions(&self) -> (positions: Vec<usize>)
        requires
            self.wf(),
        ensures
            positions@ == spec_set_positions(self@, self@.len()),
    {
        let len = self.len();
        let mut res: Vec<usize> = Vec::new();
        let mut n: usize = 0;
        while n < len
            invariant
                self.wf(),
                len == self@.len(),
                n <= len,
                res@ == spec_set_positions(self@, n as nat),
            decreases len - n,
        {
            if self.get(n) {
                res.push(n);
            }
            n += 1;
        }
        res
    }

    /// Unite two vectors considered as sets.
    pub fn union(a: &BoolVec, b: &BoolVec) -> (vector: BoolVec)
        requires
            a.wf(),
            b.wf(),
            a@.len() == b@.len(),
        ensures
            vector.wf(),
            vector@ == spec_union(a@, b@),
    {
        let len = a.len();
        let mut vector = BoolVec::falses(len);
        let mut n: usize = 0;
        while n < len
            invariant
                a.wf(),
                b.wf(),
                vector.wf(),
                len == a@.len(),
                len == b@.len(),
                len == vector@.len(),
                n <= len,
                forall|i: int| 0 <= i < len ==> vector@[i] == (i < n && (a@[i] || b@[i])),
            decreases len - n,
        {
            if a.get(n) || b.get(n) {
                vector.set(n);
            }
            n += 1;
        }
        assert(vector@ =~= spec_union(a@, b@));
        vector
    }

    /// Take the complement of a vector considered as a set.
    pub fn complement(&self) -> (vector: BoolVec)
        requires
            self.wf(),
        ensures
            vector.wf(),
            vector@ == spec_complement(self@),
    {
        let len = self.len();
        let mut vector = BoolVec::falses(len);
        let mut n: usize = 0;
        while n < len
            invariant
                self.wf(),
                vector.wf(),
                len == self@.len(),
                len == vector@.len(),
                n <= len,
                forall|i: int| 0 <= i < len ==> vector@[i] == (i < n && !self@[i]),
            decreases len - n,
        {
            if !self.get(n) {
                vector.set(n);
            }
            n += 1;
        }
        assert(vector@ =~= spec_complement(self@));
        vector
    }
}

} // verus!
