//! A square board whose stones and groups are kept as Boolean vectors and
//! matrices over the numbers of its points.

pub mod bool_mat;

use crate::board::spec_above;
use crate::board::spec_beside;
use crate::board::spec_grid;
use crate::bool_mat::spec_apply;
use crate::bool_mat::spec_product;
use crate::bool_mat::spec_uniform;
use crate::bool_vec::spec_constant;
use crate::field::bool_mat::BoolMat;
use crate::field::bool_mat::BoolVec;
use crate::game::spec_free;
use crate::game::spec_joined;
use crate::game::spec_severed;
use crate::game::Color;
use crate::indexer::lemma_cell_of_number;
use crate::indexer::lemma_row_major;
use vstd::prelude::*;

verus! {

/// A square board together with the stones of both players on it
/// and the connections among the stones of each.
pub struct Board {
    pub size: usize,
    pub adj: BoolMat,
    pub black_stones: BoolVec,
    pub white_stones: BoolVec,
    pub black_connections: BoolMat,
    pub white_connections: BoolMat,
}

/// The stones that live: the points next to a point that is connected
/// to a free point.
pub open spec fn spec_living(adj: Seq<Seq<bool>>, conn: Seq<Seq<bool>>, free: Seq<bool>) -> Seq<
    bool,
> {
    spec_apply(spec_product(adj, conn, free.len()), free)
}

impl Board {
    /// All vectors and matrices of the board are of its size.
    pub open spec fn wf(&self) -> bool {
        &&& self.adj.wf()
        &&& self.adj.height == self.size
        &&& self.adj.width == self.size
        &&& self.black_stones.wf()
        &&& self.black_stones@.len() == self.size
        &&& self.white_stones.wf()
        &&& self.white_stones@.len() == self.size
        &&& self.black_connections.wf()
        &&& self.black_connections.height == self.size
        &&& self.black_connections.width == self.size
        &&& self.white_connections.wf()
        &&& self.white_connections.height == self.size
        &&& self.white_connections.width == self.size
    }

    /// The stones of a player.
    pub open spec fn spec_stones(&self, col: Color) -> Seq<bool> {
        match col {
            Color::Black => self.black_stones@,
            Color::White => self.white_stones@,
        }
    }

    /// The connections of a player.
    pub open spec fn spec_connections(&self, col: Color) -> Seq<Seq<bool>> {
        match col {
            Color::Black => self.black_connections@,
            Color::White => self.white_connections@,
        }
    }

    /// Create an empty square board with the given length of its sides.
    /// Every point is adjacent to itself and to its horizontal and vertical
    /// neighbours; nothing is connected yet.
    pub fn square(length: usize) -> (board: Board)
        requires
            (length * length) * (length * length) <= usize::MAX,
        ensures
            board.wf(),
            board.size == length * length,
            board.adj@ == spec_grid(length as nat, length as nat),
            board.black_stones@ == spec_constant((length * length) as nat, false),
            board.white_stones@ == spec_constant((length * length) as nat, false),
            board.black_connections@ == spec_uniform(
                (length * length) as nat,
                (length * length) as nat,
                false,
            ),
            board.white_connections@ == spec_uniform(
                (length * length) as nat,
                (length * length) as nat,
                false,
            ),
    {
        proof {
            assert(length * length <= usize::MAX) by (nonlinear_arith)
                requires
                    (length * length) * (length * length) <= usize::MAX,
            ;
        }
        let size = length * length;
        let mut adj = BoolMat::from_diag(&BoolVec::trues(size));
        let ghost w = length as nat;
        let ghost n = size as nat;
        let mut j: usize = 0;
        while j < length
            invariant
                w == length,
                n == w * w,
                n == size,
                adj.wf(),
                adj.height == size,
                adj.width == size,
                j <= length,
                forall|a: int, b: int|
                    0 <= a < n && 0 <= b < n ==> #[trigger] adj@[a][b] == (a == b || (spec_beside(
                        w,
                        a,
                        b,
                    ) && a / (w as int) < j) || (spec_above(w, a, b) && a % (w as int) < j)),
            decreases length - j,
        {
            let mut k: usize = 1;
            while k < length
                invariant
                    w == length,
                    n == w * w,
                    n == size,
                    adj.wf(),
                    adj.height == size,
                    adj.width == size,
                    j < length,
                    1 <= k,
                    forall|a: int, b: int|
                        0 <= a < n && 0 <= b < n ==> #[trigger] adj@[a][b] == (a == b || (
                        spec_beside(w, a, b) && (a / (w as int) < j || (a / (w as int) == j && a % (
                        w as int) < k && b % (w as int) < k))) || (spec_above(w, a, b) && (a % (
                        w as int) < j || (a % (w as int) == j && a / (w as int) < k && b / (
                        w as int) < k)))),
                decreases length - k,
            {
                let ghost before = adj@;
                proof {
                    lemma_row_major(w, w, j as nat, (k - 1) as nat);
                    lemma_row_major(w, w, j as nat, k as nat);
                    lemma_row_major(w, w, (k - 1) as nat, j as nat);
                    lemma_row_major(w, w, k as nat, j as nat);
                }
                adj.sym_set(j * length + (k - 1), j * length + k);
                let ghost between = adj@;
                adj.sym_set((k - 1) * length + j, k * length + j);
                proof {
                    let p = (j * w + (k - 1)) as int;
                    let q = (j * w + k) as int;
                    let r = ((k - 1) * w + j) as int;
                    let s = (k * w + j) as int;
                    assert forall|a: int, b: int| 0 <= a < n && 0 <= b < n
                        implies #[trigger] adj@[a][b]
                        == (a == b || (spec_beside(w, a, b) && (a / (w as int) < j || (a / (
                    w as int) == j && a % (w as int) < k + 1 && b % (w as int) < k + 1))) || (
                    spec_above(w, a, b) && (a % (w as int) < j || (a % (w as int) == j && a / (
                    w as int) < k + 1 && b / (w as int) < k + 1)))) by {
                        lemma_cell_of_number(w, w, a as nat);
                        lemma_cell_of_number(w, w, b as nat);
                        assert(between[a][b] == (before[a][b] || (a == p && b == q) || (a == q
                            && b == p)));
                        assert(adj@[a][b] == (between[a][b] || (a == r && b == s) || (a == s && b
                            == r)));
                    }
                }
                k += 1;
            }
            proof {
                assert forall|a: int, b: int| 0 <= a < n && 0 <= b < n implies #[trigger] adj@[a][b]
                    == (a == b || (spec_beside(w, a, b) && a / (w as int) < j + 1) || (spec_above(
                    w,
                    a,
                    b,
                ) && a % (w as int) < j + 1)) by {
                    lemma_cell_of_number(w, w, a as nat);
                    lemma_cell_of_number(w, w, b as nat);
                }
            }
            j += 1;
        }
        proof {
            let goal = spec_grid(w, w);
            assert forall|a: int| 0 <= a < n implies adj@[a] == goal[a] by {
                assert forall|b: int| 0 <= b < n implies adj@[a][b] == goal[a][b] by {
                    lemma_cell_of_number(w, w, a as nat);
                    lemma_cell_of_number(w, w, b as nat);
                }
                assert(adj@[a] =~= goal[a]);
            }
            assert(adj@ =~= goal);
        }
        let black_stones = BoolVec::falses(size);
        let white_stones = BoolVec::falses(size);
        let black_connections = BoolMat::falses(size, size);
        let white_connections = BoolMat::falses(size, size);
        Board { size, adj, black_stones, white_stones, black_connections, white_connections }
    }

    /// Place a stone at the point `i` among the given stones,
    /// and carry the connections through the adjacencies within the stones.
    pub fn place_stone(adj: &BoolMat, i: usize, stones: &mut BoolVec, connections: &mut BoolMat)
        requires
            adj.wf(),
            adj.height == adj.width,
            old(stones).wf(),
            old(stones)@.len() == adj.height,
            old(connections).wf(),
            old(connections).height == adj.height,
            old(connections).width == adj.height,
            i < adj.height,
        ensures
            final(stones).wf(),
            final(stones)@ == old(stones)@.update(i as int, true),
            final(connections).wf(),
            final(connections).height == adj.height,
            final(connections).width == adj.height,
            final(connections)@ == spec_joined(old(connections)@, adj@, final(stones)@),
    {
        stones.set(i);
        let diag = BoolMat::from_diag(stones);
        let restricted_adj = BoolMat::mult(&diag, &BoolMat::mult(adj, &diag));
        let new_connections = BoolMat::mult(
            connections,
            &BoolMat::mult(&restricted_adj, connections),
        );
        *connections = new_connections;
    }

    /// Place a stone of a player at the point `i`.
    pub fn place(&mut self, i: usize, col: Color)
        requires
            old(self).wf(),
            i < old(self).size,
        ensures
            final(self).wf(),
            final(self).size == old(self).size,
            final(self).adj == old(self).adj,
            final(self).spec_stones(col) == old(self).spec_stones(col).update(i as int, true),
            final(self).spec_connections(col) == spec_joined(
                old(self).spec_connections(col),
                old(self).adj@,
                final(self).spec_stones(col),
            ),
            final(self).spec_stones(col.spec_other()) == old(self).spec_stones(col.spec_other()),
            final(self).spec_connections(col.spec_other()) == old(self).spec_connections(
                col.spec_other(),
            ),
    {
        match col {
            Color::Black => Board::place_stone(
                &self.adj,
                i,
                &mut self.black_stones,
                &mut self.black_connections,
            ),
            Color::White => Board::place_stone(
                &self.adj,
                i,
                &mut self.white_stones,
                &mut self.white_connections,
            ),
        }
    }

    /// The stones that live: the points next to a point that is connected
    /// to a free point.
    pub fn living_stones(adj: &BoolMat, connections: &BoolMat, free: &BoolVec) -> (living: BoolVec)
        requires
            adj.wf(),
            adj.height == adj.width,
            connections.wf(),
            connections.height == adj.height,
            connections.width == adj.height,
            free.wf(),
            free@.len() == adj.height,
        ensures
            living.wf(),
            living@.len() == adj.height,
            living@ == spec_living(adj@, connections@, free@),
    {
        BoolMat::mult(adj, connections).eval(free)
    }

    /// Keep of the stones of a player those that live,
    /// and of the connections those that lead to them.
    pub fn kill(&mut self, col: Color)
        requires
            old(self).wf(),
        ensures
            final(self).wf(),
            final(self).size == old(self).size,
            final(self).adj == old(self).adj,
            final(self).spec_stones(col) == spec_living(
                old(self).adj@,
                old(self).spec_connections(col),
                spec_free(old(self).black_stones@, old(self).white_stones@),
            ),
            final(self).spec_connections(col) == spec_severed(
                old(self).spec_connections(col),
                final(self).spec_stones(col),
            ),
            final(self).spec_stones(col.spec_other()) == old(self).spec_stones(col.spec_other()),
            final(self).spec_connections(col.spec_other()) == old(self).spec_connections(
                col.spec_other(),
            ),
    {
        let free = BoolVec::union(&self.black_stones, &self.white_stones).complement();
        let living = match col {
            Color::Black => Board::living_stones(&self.adj, &self.black_connections, &free),
            Color::White => Board::living_stones(&self.adj, &self.white_connections, &free),
        };
        match col {
            Color::Black => {
                self.black_stones = living;
                self.black_connections = BoolMat::mult(
                    &self.black_connections,
                    &BoolMat::from_diag(&self.black_stones),
                )
            },
            Color::White => {
                self.white_stones = living;
                self.white_connections = BoolMat::mult(
                    &self.white_connections,
                    &BoolMat::from_diag(&self.white_stones),
                )
            },
        }
    }
}

} // verus!
