//! Go is a board game.
//! While it is usually played on a rectangular board
//! with a very specific structure,
//! it can theoretically be played on a wide variety of (undirected) graphs.
//! This module provides a suitable interface
//! which allows the rules to be evaluated
//! without knowledge of the exact board layout.

use crate::bool_mat::is_symmetric;
use crate::bool_mat::spec_sym_write;
use crate::bool_mat::BoolMat;
use crate::indexer;
use crate::indexer::lemma_cell_of_number;
use crate::indexer::lemma_row_major;
use crate::indexer::Indexer;
use vstd::prelude::*;

verus! {

/// This trait captures the information needed to play Go on a board.
pub trait Board: Sized {
    /// The interface for addressing the intersection point.
    /// In classical Go, this will in some way implement a square.
    type I: Indexer;

    /// Whether the board is sound: its adjacency matrix is well formed,
    /// relates the intersection points to each other, and is symmetric.
    spec fn wf(&self) -> bool;

    /// The adjacency matrix of the underlying graph.
    spec fn spec_adjacencies(&self) -> BoolMat<Self::I, Self::I>;

    /// The adjacency matrix of a sound board is a symmetric square matrix.
    proof fn lemma_adjacencies(&self)
        requires
            self.wf(),
        ensures
            self.spec_adjacencies().wf(),
            self.spec_adjacencies().spec_rows() == self.spec_adjacencies().spec_columns(),
            is_symmetric(self.spec_adjacencies()@),
    ;

    /// The adjacency matrix of the underlying graph.
    /// This should be symmetric.
    fn adjacencies(&self) -> (adj: &BoolMat<Self::I, Self::I>)
        ensures
            *adj == self.spec_adjacencies(),
    ;

    /// Whether an intersection point is marked as a star point.
    /// The boards will need to provide some way
    /// to know where to place a fixed handicap.
    fn is_hoshi(&self, i: <Self::I as Indexer>::Index) -> (hoshi: bool);
}

/// The most generic board: A graph.
/// All other boards could theoretically be implemented
/// using this as a basis.
#[derive(PartialEq, Eq, Debug)]
pub struct Graph<I: Indexer> {
    adj: BoolMat<I, I>,
}

impl<I: Indexer> Graph<I> {
    /// Make a board of a symmetric adjacency matrix.
    pub fn new(adj: BoolMat<I, I>) -> (graph: Graph<I>)
        requires
            adj.wf(),
            adj.spec_rows() == adj.spec_columns(),
            is_symmetric(adj@),
        ensures
            graph.wf(),
            graph.spec_adjacencies() == adj,
    {
        Graph { adj }
    }
}

impl<I> Board for Graph<I> where I: Indexer {
    type I = I;

    closed spec fn wf(&self) -> bool {
        &&& self.adj.wf()
        &&& self.adj.spec_rows() == self.adj.spec_columns()
        &&& is_symmetric(self.adj@)
    }

    closed spec fn spec_adjacencies(&self) -> BoolMat<I, I> {
        self.adj
    }

    proof fn lemma_adjacencies(&self) {
    }

    fn adjacencies(&self) -> (adj: &BoolMat<I, I>) {
        &self.adj
    }

    /// No star points are known on a graph.
    fn is_hoshi(&self, _i: I::Index) -> (hoshi: bool)
        ensures
            !hoshi,
    {
        false
    }
}

/// Whether two cells of a grid of the given width, numbered row by row,
/// are next to each other in one row.
pub open spec fn spec_beside(width: nat, a: int, b: int) -> bool {
    a / (width as int) == b / (width as int) && (a % (width as int) + 1 == b % (width as int) || b
        % (width as int) + 1 == a % (width as int))
}

/// Whether two cells of a grid of the given width, numbered row by row,
/// are next to each other in one column.
pub open spec fn spec_above(width: nat, a: int, b: int) -> bool {
    a % (width as int) == b % (width as int) && (a / (width as int) + 1 == b / (width as int) || b
        / (width as int) + 1 == a / (width as int))
}

/// The adjacency matrix of the rectangular grid: every cell is linked to
/// itself and to its horizontal and vertical neighbours, not to the diagonal
/// ones.
pub open spec fn spec_grid(height: nat, width: nat) -> Seq<Seq<bool>> {
    Seq::new(
        height * width,
        |a: int|
            Seq::new(
                height * width,
                |b: int| a == b || spec_beside(width, a, b) || spec_above(width, a, b),
            ),
    )
}

/// The grid is symmetric.
pub proof fn lemma_grid_symmetric(height: nat, width: nat)
    ensures
        is_symmetric(spec_grid(height, width)),
{
}

/// Rectangular boards with the classical line pattern.
/// ```none
/// ┼─┼─┼─┼
/// ┼─┼─┼─┼
/// ┼─┼─┼─┼
/// ```
#[derive(PartialEq, Eq, Debug)]
pub struct Rect {
    graph: Graph<indexer::Rect>,
}

/// Link two cells of a grid in both directions.
fn link(adj: &mut BoolMat<indexer::Rect, indexer::Rect>, a: (usize, usize), b: (usize, usize))
    requires
        old(adj).wf(),
        old(adj).spec_rows() == old(adj).spec_columns(),
        old(adj).spec_rows().spec_is_valid(a),
        old(adj).spec_rows().spec_is_valid(b),
    ensures
        final(adj).wf(),
        final(adj).spec_rows() == old(adj).spec_rows(),
        final(adj).spec_columns() == old(adj).spec_columns(),
        final(adj)@ == spec_sym_write(
            old(adj)@,
            old(adj).spec_rows().spec_to_num(a) as int,
            old(adj).spec_rows().spec_to_num(b) as int,
        ),
{
    adj.set(a, b, true);
    adj.set(b, a, true);
}

impl Rect {
    /// Create a new rectangular board with the given measurements.
    pub fn new(height: usize, width: usize) -> (rect: Rect)
        requires
            (height * width) * (height * width) <= usize::MAX,
        ensures
            rect.wf(),
            rect.spec_adjacencies()@ == spec_grid(height as nat, width as nat),
            rect.spec_adjacencies().spec_rows().spec_height() == height,
            rect.spec_adjacencies().spec_rows().spec_width() == width,
    {
        proof {
            assert(height * width <= usize::MAX) by (nonlinear_arith)
                requires
                    (height * width) * (height * width) <= usize::MAX,
            ;
        }
        let indexer = indexer::Rect::new(height, width);
        let ghost h = height as nat;
        let ghost w = width as nat;
        let ghost n = h * w;
        let mut adj = BoolMat::id_matrix(indexer);
        let mut j: usize = 0;
        while j < height
            invariant
                h == height,
                w == width,
                n == h * w,
                n <= usize::MAX,
                adj.wf(),
                adj.spec_rows() == indexer,
                adj.spec_columns() == indexer,
                indexer.spec_height() == h,
                indexer.spec_width() == w,
                j <= height,
                forall|a: int, b: int|
                    0 <= a < n && 0 <= b < n ==> #[trigger] adj@[a][b] == (a == b || (spec_beside(
                        w,
                        a,
                        b,
                    ) && a / (w as int) < j)),
            decreases height - j,
        {
            let mut k: usize = 1;
            while k < width
                invariant
                    h == height,
                    w == width,
                    n == h * w,
                    n <= usize::MAX,
                    adj.wf(),
                    adj.spec_rows() == indexer,
                    adj.spec_columns() == indexer,
                    indexer.spec_height() == h,
                    indexer.spec_width() == w,
                    j < height,
                    1 <= k,
                    forall|a: int, b: int|
                        0 <= a < n && 0 <= b < n ==> #[trigger] adj@[a][b] == (a == b || (
                        spec_beside(w, a, b) && (a / (w as int) < j || (a / (w as int) == j && a % (
                        w as int) < k && b % (w as int) < k)))),
                decreases width - k,
            {
                let ghost before = adj@;
                link(&mut adj, (j, k - 1), (j, k));
                proof {
                    let p = (j * w + (k - 1)) as int;
                    let q = (j * w + k) as int;
                    lemma_row_major(h, w, j as nat, (k - 1) as nat);
                    lemma_row_major(h, w, j as nat, k as nat);
                    assert forall|a: int, b: int| 0 <= a < n && 0 <= b < n
                        implies #[trigger] adj@[a][b]
                        == (a == b || (spec_beside(w, a, b) && (a / (w as int) < j || (a / (
                    w as int) == j && a % (w as int) < k + 1 && b % (w as int) < k + 1)))) by {
                        lemma_cell_of_number(h, w, a as nat);
                        lemma_cell_of_number(h, w, b as nat);
                        assert(adj@[a][b] == (before[a][b] || (a == p && b == q) || (a == q && b
                            == p)));
                    }
                }
                k += 1;
            }
            proof {
                assert forall|a: int, b: int| 0 <= a < n && 0 <= b < n implies #[trigger] adj@[a][b]
                    == (a == b || (spec_beside(w, a, b) && a / (w as int) < j + 1)) by {
                    lemma_cell_of_number(h, w, a as nat);
                    lemma_cell_of_number(h, w, b as nat);
                }
            }
            j += 1;
        }
        proof {
            assert forall|a: int, b: int| 0 <= a < n && 0 <= b < n
                implies #[trigger] adj@[a][b] == (a
                == b || spec_beside(w, a, b) || (spec_above(w, a, b) && a / (w as int) < 1 && b / (
            w as int) < 1)) by {
                lemma_cell_of_number(h, w, a as nat);
                lemma_cell_of_number(h, w, b as nat);
            }
        }
        let mut j: usize = 1;
        while j < height
            invariant
                h == height,
                w == width,
                n == h * w,
                n <= usize::MAX,
                adj.wf(),
                adj.spec_rows() == indexer,
                adj.spec_columns() == indexer,
                indexer.spec_height() == h,
                indexer.spec_width() == w,
                1 <= j,
                forall|a: int, b: int|
                    0 <= a < n && 0 <= b < n ==> #[trigger] adj@[a][b] == (a == b || spec_beside(
                        w,
                        a,
                        b,
                    ) || (spec_above(w, a, b) && a / (w as int) < j && b / (w as int) < j)),
            decreases height - j,
        {
            let mut k: usize = 0;
            while k < width
                invariant
                    h == height,
                    w == width,
                    n == h * w,
                    n <= usize::MAX,
                    adj.wf(),
                    adj.spec_rows() == indexer,
                    adj.spec_columns() == indexer,
                    indexer.spec_height() == h,
                    indexer.spec_width() == w,
                    1 <= j < height,
                    forall|a: int, b: int|
                        0 <= a < n && 0 <= b < n ==> #[trigger] adj@[a][b] == (a == b
                            || spec_beside(w, a, b) || (spec_above(w, a, b) && ((a / (w as int) < j
                            && b / (w as int) < j) || (a / (w as int) <= j && b / (w as int) <= j
                            && a % (w as int) < k)))),
                decreases width - k,
            {
                let ghost before = adj@;
                link(&mut adj, (j - 1, k), (j, k));
                proof {
                    let p = ((j - 1) * w + k) as int;
                    let q = (j * w + k) as int;
                    lemma_row_major(h, w, (j - 1) as nat, k as nat);
                    lemma_row_major(h, w, j as nat, k as nat);
                    assert forall|a: int, b: int| 0 <= a < n && 0 <= b < n
                        implies #[trigger] adj@[a][b]
                        == (a == b || spec_beside(w, a, b) || (spec_above(w, a, b) && ((a / (
                    w as int) < j && b / (w as int) < j) || (a / (w as int) <= j && b / (w as int)
                        <= j && a % (w as int) < k + 1)))) by {
                        lemma_cell_of_number(h, w, a as nat);
                        lemma_cell_of_number(h, w, b as nat);
                        assert(adj@[a][b] == (before[a][b] || (a == p && b == q) || (a == q && b
                            == p)));
                    }
                }
                k += 1;
            }
            proof {
                assert forall|a: int, b: int| 0 <= a < n && 0 <= b < n implies #[trigger] adj@[a][b]
                    == (a == b || spec_beside(w, a, b) || (spec_above(w, a, b) && a / (w as int) < j
                    + 1 && b / (w as int) < j + 1)) by {
                    lemma_cell_of_number(h, w, a as nat);
                    lemma_cell_of_number(h, w, b as nat);
                }
            }
            j += 1;
        }
        proof {
            let goal = spec_grid(h, w);
            assert forall|a: int| 0 <= a < n implies adj@[a] == goal[a] by {
                assert forall|b: int| 0 <= b < n implies adj@[a][b] == goal[a][b] by {
                    lemma_cell_of_number(h, w, a as nat);
                    lemma_cell_of_number(h, w, b as nat);
                }
                assert(adj@[a] =~= goal[a]);
            }
            assert(adj@ =~= goal);
            lemma_grid_symmetric(h, w);
        }
        let graph = Graph::new(adj);
        Rect { graph }
    }
}

impl Board for Rect {
    type I = indexer::Rect;

    closed spec fn wf(&self) -> bool {
        self.graph.wf()
    }

    closed spec fn spec_adjacencies(&self) -> BoolMat<Self::I, Self::I> {
        self.graph.spec_adjacencies()
    }

    proof fn lemma_adjacencies(&self) {
        self.graph.lemma_adjacencies();
    }

    fn adjacencies(&self) -> (adj: &BoolMat<Self::I, Self::I>) {
        self.graph.adjacencies()
    }

    /// No star points are known yet.
    fn is_hoshi(&self, _i: <Self::I as Indexer>::Index) -> (hoshi: bool)
        ensures
            !hoshi,
    {
        false
    }
}

/// Square boards with the classical line pattern.
#[derive(PartialEq, Eq, Debug)]
pub struct Square {
    rect: Rect,
}

impl Square {
    /// Create a new square board with the given length of its sides.
    pub fn new(length: usize) -> (square: Square)
        requires
            (length * length) * (length * length) <= usize::MAX,
        ensures
            square.wf(),
            square.spec_adjacencies()@ == spec_grid(length as nat, length as nat),
            square.spec_adjacencies().spec_rows().spec_height() == length,
            square.spec_adjacencies().spec_rows().spec_width() == length,
    {
        let rect = Rect::new(length, length);
        Square { rect }
    }
}

impl Board for Square {
    type I = indexer::Rect;

    closed spec fn wf(&self) -> bool {
        self.rect.wf()
    }

    closed spec fn spec_adjacencies(&self) -> BoolMat<Self::I, Self::I> {
        self.rect.spec_adjacencies()
    }

    proof fn lemma_adjacencies(&self) {
        self.rect.lemma_adjacencies();
    }

    fn adjacencies(&self) -> (adj: &BoolMat<Self::I, Self::I>) {
        self.rect.adjacencies()
    }

    /// No star points are known yet.
    fn is_hoshi(&self, _i: <Self::I as Indexer>::Index) -> (hoshi: bool)
        ensures
            !hoshi,
    {
        false
    }
}

} // verus!
