//! The state of a game of Go: the stones of both players,
//! the groups that they form, and which moves are legal.

use crate::board::Board;
use crate::bool_mat::has_shape;
use crate::bool_mat::is_reflexive;
use crate::bool_mat::is_symmetric;
use crate::bool_mat::is_transitive;
use crate::bool_mat::spec_apply;
use crate::bool_mat::spec_diagonal;
use crate::bool_mat::spec_dot;
use crate::bool_mat::spec_hit;
use crate::bool_mat::spec_identity;
use crate::bool_mat::spec_link;
use crate::bool_mat::spec_product;
use crate::bool_mat::BoolMat;
use crate::bool_vec::spec_complement;
use crate::bool_vec::spec_constant;
use crate::bool_vec::spec_intersection;
use crate::bool_vec::spec_union;
use crate::bool_vec::BoolVec;
use crate::indexer::Indexer;
use vstd::prelude::*;

verus! {

/// The adjacencies within a set of stones: the edges of the board
/// with both ends in the set.
pub open spec fn spec_restricted(adj: Seq<Seq<bool>>, stones: Seq<bool>) -> Seq<Seq<bool>> {
    spec_product(
        spec_diagonal(stones),
        spec_product(adj, spec_diagonal(stones), stones.len()),
        stones.len(),
    )
}

/// The connections of a player after a placement: the old connections,
/// carried through the adjacencies within the new set of stones.
pub open spec fn spec_joined(conn: Seq<Seq<bool>>, adj: Seq<Seq<bool>>, stones: Seq<bool>) -> Seq<
    Seq<bool>,
> {
    spec_product(
        conn,
        spec_product(spec_restricted(adj, stones), conn, stones.len()),
        stones.len(),
    )
}

/// The points that are connected to a point with a neighbour among the
/// free points.
pub open spec fn spec_survivors(conn: Seq<Seq<bool>>, adj: Seq<Seq<bool>>, free: Seq<bool>) -> Seq<
    bool,
> {
    spec_apply(spec_product(conn, adj, free.len()), free)
}

/// The stones that stay when the given points are removed
/// together with everything connected to them.
pub open spec fn spec_remaining(stones: Seq<bool>, conn: Seq<Seq<bool>>, zombies: Seq<bool>) -> Seq<
    bool,
> {
    spec_intersection(stones, spec_complement(spec_apply(conn, zombies)))
}

/// The connections that lead to one of the given stones.
pub open spec fn spec_severed(conn: Seq<Seq<bool>>, stones: Seq<bool>) -> Seq<Seq<bool>> {
    spec_product(conn, spec_diagonal(stones), stones.len())
}

/// The points that are free when the two players hold the given stones.
pub open spec fn spec_free(black: Seq<bool>, white: Seq<bool>) -> Seq<bool> {
    spec_complement(spec_union(black, white))
}

/// What a player holds on the board.
pub struct PlayerView {
    /// The points that the player occupies.
    pub stones: Seq<bool>,
    /// Which points the player has connected.
    pub connections: Seq<Seq<bool>>,
    /// The captures counted the American way.
    pub aga_captures: usize,
    /// The stones that the player has captured.
    pub captures: usize,
}

impl PlayerView {
    /// The player after a stone has been placed at the point numbered `n`.
    pub open spec fn place_stone(self, adj: Seq<Seq<bool>>, n: int) -> PlayerView {
        let stones = self.stones.update(n, true);
        PlayerView { stones, connections: spec_joined(self.connections, adj, stones), ..self }
    }

    /// The points of the player that have a liberty among the free points.
    pub open spec fn survivors(self, adj: Seq<Seq<bool>>, free: Seq<bool>) -> Seq<bool> {
        spec_survivors(self.connections, adj, free)
    }

    /// The player after the given points, and all that is connected to them,
    /// have been taken off the board.
    pub open spec fn kill(self, zombies: Seq<bool>) -> PlayerView {
        let stones = spec_remaining(self.stones, self.connections, zombies);
        PlayerView { stones, connections: spec_severed(self.connections, stones), ..self }
    }

    /// The player after everything without a liberty has been taken off the
    /// board.
    pub open spec fn kill_dead(self, adj: Seq<Seq<bool>>, liberties: Seq<bool>) -> PlayerView {
        self.kill(spec_complement(self.survivors(adj, liberties)))
    }
}

/// Placing a stone keeps what is recorded of the stones that are linked and
/// adjacent to themselves: each of their links stays, and each of them that
/// had a liberty among some free points still has one among the same points.
pub proof fn lemma_placement_keeps_liberties(
    player: PlayerView,
    adj: Seq<Seq<bool>>,
    n: int,
    free: Seq<bool>,
)
    requires
        0 <= n < player.stones.len(),
        free.len() == player.stones.len(),
        has_shape(player.connections, player.stones.len(), player.stones.len()),
        has_shape(adj, player.stones.len(), player.stones.len()),
    ensures
        player.place_stone(adj, n).stones[n],
        forall|a: int, b: int|
            0 <= a < player.stones.len() && 0 <= b < player.stones.len() && player.place_stone(
                adj,
                n,
            ).stones[a] && player.connections[a][a] && adj[a][a]
                && #[trigger] player.connections[a][b]
                ==> player.place_stone(adj, n).connections[a][b],
        forall|a: int|
            0 <= a < player.stones.len() && player.place_stone(adj, n).stones[a]
                && player.connections[a][a] && adj[a][a] && #[trigger] player.survivors(
                adj,
                free,
            )[a] ==> player.place_stone(adj, n).survivors(adj, free)[a],
{
    let size = player.stones.len();
    let conn = player.connections;
    let after = player.place_stone(adj, n);
    let stones = after.stones;
    let diag = spec_diagonal(stones);
    let adj_diag = spec_product(adj, diag, size);
    let restricted = spec_restricted(adj, stones);
    let restricted_conn = spec_product(restricted, conn, size);
    assert forall|a: int, b: int|
        0 <= a < size && 0 <= b < size && stones[a] && conn[a][a] && adj[a][a]
            && #[trigger] conn[a][b] implies after.connections[a][b] by {
        assert(spec_link(adj, diag, a, a, a));
        assert(spec_dot(adj, diag, a, a));
        assert(spec_link(diag, adj_diag, a, a, a));
        assert(spec_dot(diag, adj_diag, a, a));
        assert(restricted[a][a]);
        assert(spec_link(restricted, conn, a, a, b));
        assert(spec_dot(restricted, conn, a, b));
        assert(spec_link(conn, restricted_conn, a, a, b));
        assert(spec_dot(conn, restricted_conn, a, b));
    }
    assert forall|a: int|
        0 <= a < size && stones[a] && conn[a][a] && adj[a][a] && #[trigger] player.survivors(
            adj,
            free,
        )[a] implies after.survivors(adj, free)[a] by {
        let reach = spec_product(conn, adj, size);
        let reach_after = spec_product(after.connections, adj, size);
        let l = choose|l: int| 0 <= l < free.len() && #[trigger] spec_hit(reach, free, a, l);
        assert(spec_dot(conn, adj, a, l));
        let k = choose|k: int| 0 <= k < adj.len() && #[trigger] spec_link(conn, adj, a, k, l);
        assert(conn[a][k]);
        assert(after.connections[a][k]);
        assert(spec_link(after.connections, adj, a, k, l));
        assert(spec_dot(after.connections, adj, a, l));
        assert(spec_hit(reach_after, free, a, l));
    }
}

/// Where every point is connected to itself, as before the first stone,
/// a placement connects each stone to itself, if it is adjacent to itself,
/// and to the stones beside it.
pub proof fn lemma_placement_links_neighbours(player: PlayerView, adj: Seq<Seq<bool>>, n: int)
    requires
        0 <= n < player.stones.len(),
        has_shape(player.connections, player.stones.len(), player.stones.len()),
        has_shape(adj, player.stones.len(), player.stones.len()),
        is_reflexive(player.connections),
    ensures
        forall|a: int, b: int|
            0 <= a < player.stones.len() && 0 <= b < player.stones.len() && player.place_stone(
                adj,
                n,
            ).stones[a] && player.place_stone(adj, n).stones[b] && #[trigger] adj[a][b]
                ==> player.place_stone(adj, n).connections[a][b],
{
    let size = player.stones.len();
    let conn = player.connections;
    let after = player.place_stone(adj, n);
    let stones = after.stones;
    let diag = spec_diagonal(stones);
    let adj_diag = spec_product(adj, diag, size);
    let restricted = spec_restricted(adj, stones);
    let restricted_conn = spec_product(restricted, conn, size);
    assert forall|a: int, b: int|
        0 <= a < size && 0 <= b < size && stones[a] && stones[b] && #[trigger] adj[a][b]
            implies after.connections[a][b] by {
        assert(spec_link(adj, diag, a, b, b));
        assert(spec_dot(adj, diag, a, b));
        assert(spec_link(diag, adj_diag, a, a, b));
        assert(spec_dot(diag, adj_diag, a, b));
        assert(restricted[a][b]);
        assert(conn[b][b]);
        assert(spec_link(restricted, conn, a, b, b));
        assert(spec_dot(restricted, conn, a, b));
        assert(conn[a][a]);
        assert(spec_link(conn, restricted_conn, a, a, b));
        assert(spec_dot(conn, restricted_conn, a, b));
    }
}

/// Whether only stones are connected to anything.
pub open spec fn spec_supported(conn: Seq<Seq<bool>>, stones: Seq<bool>) -> bool {
    forall|a: int, b: int|
        0 <= a < stones.len() && 0 <= b < stones.len() && #[trigger] conn[a][b] ==> stones[a]
}

/// Where the connections are symmetric and transitive and connect stones
/// only, a group stays or goes as a whole, and after the kill no connection
/// touches a point without a stone.
pub proof fn lemma_kill_severs(player: PlayerView, zombies: Seq<bool>)
    requires
        zombies.len() == player.stones.len(),
        has_shape(player.connections, player.stones.len(), player.stones.len()),
        is_symmetric(player.connections),
        is_transitive(player.connections),
        spec_supported(player.connections, player.stones),
    ensures
        forall|a: int, b: int|
            0 <= a < player.stones.len() && 0 <= b < player.stones.len()
                && #[trigger] player.connections[a][b] ==> player.kill(zombies).stones[a]
                == player.kill(zombies).stones[b],
        forall|a: int, b: int|
            0 <= a < player.stones.len() && 0 <= b < player.stones.len() && #[trigger] player.kill(
                zombies,
            ).connections[a][b] ==> player.kill(zombies).stones[a] && player.kill(
                zombies,
            ).stones[b],
{
    let size = player.stones.len();
    let conn = player.connections;
    let stones = player.stones;
    let infected = spec_apply(conn, zombies);
    let after = player.kill(zombies);
    let diag = spec_diagonal(after.stones);
    assert forall|a: int, b: int| 0 <= a < size && 0 <= b < size && #[trigger] conn[a][b] implies (
    infected[a] ==> infected[b]) by {
        if infected[a] {
            let c = choose|c: int| 0 <= c < zombies.len()
                && #[trigger] spec_hit(conn, zombies, a, c);
            assert(conn[b][a]);
            assert(conn[a][c]);
            assert(conn[b][c]);
            assert(spec_hit(conn, zombies, b, c));
        }
    }
    assert forall|a: int, b: int| 0 <= a < size && 0 <= b < size && #[trigger] conn[a][b]
        implies after.stones[a]
        == after.stones[b] by {
        assert(conn[b][a]);
        assert(infected[a] == infected[b]);
        assert(stones[a] && stones[b]);
    }
    assert forall|a: int, b: int|
        0 <= a < size && 0 <= b < size && #[trigger] after.connections[a][b] implies after.stones[a]
        && after.stones[b] by {
        assert(spec_dot(conn, diag, a, b));
        let k = choose|k: int| 0 <= k < diag.len() && #[trigger] spec_link(conn, diag, a, k, b);
        assert(k == b);
        assert(conn[a][b]);
        assert(after.stones[b]);
        assert(after.stones[a] == after.stones[b]);
    }
}

/// The state of one player: the stones on the board
/// and the groups that they form.
pub struct PlayerState<'board, T: Board> {
    board: &'board T,
    stones: BoolVec<T::I>,
    connections: BoolMat<T::I, T::I>,
    aga_captures: usize,
    captures: usize,
}

impl<'board, T: Board> View for PlayerState<'board, T> {
    type V = PlayerView;

    closed spec fn view(&self) -> PlayerView {
        PlayerView {
            stones: self.stones@,
            connections: self.connections@,
            aga_captures: self.aga_captures,
            captures: self.captures,
        }
    }
}

impl<'board, T: Board> Clone for PlayerState<'board, T> {
    fn clone(&self) -> (copy: Self)
        ensures
            copy@ == self@,
            copy.spec_board() == self.spec_board(),
            self.wf() ==> copy.wf(),
    {
        PlayerState {
            board: self.board,
            stones: self.stones.clone(),
            connections: self.connections.clone(),
            aga_captures: self.aga_captures,
            captures: self.captures,
        }
    }
}

impl<'board, T> PlayerState<'board, T> where T: Board {
    /// The board that the player plays on.
    pub closed spec fn spec_board(&self) -> T {
        *self.board
    }

    /// The indexer of the intersection points of the board.
    pub open spec fn spec_indexer(&self) -> T::I {
        self.spec_board().spec_adjacencies().spec_rows()
    }

    /// The adjacency matrix of the board.
    pub open spec fn spec_adj(&self) -> Seq<Seq<bool>> {
        self.spec_board().spec_adjacencies()@
    }

    /// The number of intersection points of the board.
    pub open spec fn spec_size(&self) -> nat {
        self.spec_indexer().spec_range()
    }

    /// The vector and the matrix of the player are tied to the indexer of
    /// the board.
    pub closed spec fn tied(&self) -> bool {
        &&& self.stones.wf()
        &&& self.connections.wf()
        &&& self.stones.spec_indexer() == self.spec_indexer()
        &&& self.connections.spec_rows() == self.spec_indexer()
        &&& self.connections.spec_columns() == self.spec_indexer()
    }

    /// The state of a player is sound when the board is, and the stones and
    /// the connections are addressed as the points of the board are.
    pub open spec fn wf(&self) -> bool {
        &&& self.spec_board().wf()
        &&& self.tied()
        &&& self@.stones.len() == self.spec_size()
        &&& has_shape(self@.connections, self.spec_size(), self.spec_size())
    }

    /// Whether two states are equal: on equal boards, with the same stones,
    /// connections and captures.
    pub open spec fn spec_eq(&self, other: &Self) -> bool {
        &&& self.spec_board().spec_adjacencies().spec_eq(&other.spec_board().spec_adjacencies())
        &&& self@ == other@
    }

    /// The state of a player who has no stone on the board yet:
    /// every point is connected to itself and to nothing else.
    pub fn new(board: &'board T) -> (player: Self)
        requires
            board.wf(),
        ensures
            player.wf(),
            player.spec_board() == *board,
            player@.stones == spec_constant(player.spec_size(), false),
            player@.connections == spec_identity(player.spec_size()),
            player@.aga_captures == 0,
            player@.captures == 0,
    {
        proof {
            board.lemma_adjacencies();
        }
        let adj = board.adjacencies();
        let stones = BoolVec::falses(adj.rows().duplicate());
        let connections = BoolMat::id_matrix(adj.rows().duplicate());
        PlayerState { board, stones, connections, aga_captures: 0, captures: 0 }
    }

    /// The stones of the player.
    pub fn stones(&self) -> (stones: &BoolVec<T::I>)
        ensures
            stones@ == self@.stones,
            self.wf() ==> stones.wf() && stones.spec_indexer() == self.spec_indexer(),
    {
        &self.stones
    }

    /// The connections of the player.
    pub fn connections(&self) -> (connections: &BoolMat<T::I, T::I>)
        ensures
            connections@ == self@.connections,
            self.wf() ==> connections.wf() && connections.spec_rows() == self.spec_indexer()
                && connections.spec_columns() == self.spec_indexer(),
    {
        &self.connections
    }

    /// Place a stone on the point with the internal index `n`.
    pub fn place_stone_num(&mut self, n: usize)
        requires
            old(self).wf(),
            n < old(self).spec_size(),
        ensures
            final(self).wf(),
            final(self).spec_board() == old(self).spec_board(),
            final(self)@ == old(self)@.place_stone(old(self).spec_adj(), n as int),
    {
        proof {
            self.board.lemma_adjacencies();
        }
        self.stones.set_num(n, true);
        let diag = BoolMat::from_diag(&self.stones);
        let adj = self.board.adjacencies();
        // We restrict ourselves to the adjacencies within our stones.
        let adj = diag.mult(&adj.mult(&diag));
        let new_connections = self.connections.mult(&adj.mult(&self.connections));
        self.connections = new_connections;
    }

    /// Place a stone on a point.
    pub fn place_stone(&mut self, i: <T::I as Indexer>::Index)
        requires
            old(self).wf(),
            old(self).spec_indexer().spec_is_valid(i),
        ensures
            final(self).wf(),
            final(self).spec_board() == old(self).spec_board(),
            final(self)@ == old(self)@.place_stone(
                old(self).spec_adj(),
                old(self).spec_indexer().spec_to_num(i) as int,
            ),
    {
        let n = self.stones.indexer().to_num(i);
        self.place_stone_num(n);
    }

    /// The points that are connected to a point
    /// with a neighbour among the free points:
    /// the stones of the groups that have a liberty there.
    pub fn survivors(&self, free: &BoolVec<T::I>) -> (survivors: BoolVec<T::I>)
        requires
            self.wf(),
            free.wf(),
            free.spec_indexer() == self.spec_indexer(),
        ensures
            survivors.wf(),
            survivors.spec_indexer() == self.spec_indexer(),
            survivors@ == self@.survivors(self.spec_adj(), free@),
    {
        proof {
            self.board.lemma_adjacencies();
        }
        let adj = self.board.adjacencies();
        let conn = &self.connections;
        conn.mult(adj).eval(free)
    }

    /// Take the given points off the board,
    /// together with all that is connected to them.
    pub fn kill(&mut self, zombies: &BoolVec<T::I>)
        requires
            old(self).wf(),
            zombies.wf(),
            zombies.spec_indexer() == old(self).spec_indexer(),
        ensures
            final(self).wf(),
            final(self).spec_board() == old(self).spec_board(),
            final(self)@ == old(self)@.kill(zombies@),
    {
        proof {
            self.board.lemma_adjacencies();
        }
        // The zombies infect everything in contact with them
        let zombies = self.connections.eval(zombies);
        // Retain all those that have not become zombies
        self.stones = self.stones.intersection(&zombies.complement());
        // Keep only the connections of the surviving groups
        self.connections = self.connections.mult(&BoolMat::from_diag(&self.stones));
    }

    /// Take everything off the board that has no liberty among the given
    /// points.
    pub fn kill_dead(&mut self, liberties: &BoolVec<T::I>)
        requires
            old(self).wf(),
            liberties.wf(),
            liberties.spec_indexer() == old(self).spec_indexer(),
        ensures
            final(self).wf(),
            final(self).spec_board() == old(self).spec_board(),
            final(self)@ == old(self)@.kill_dead(old(self).spec_adj(), liberties@),
    {
        let dead = self.survivors(liberties).complement();
        self.kill(&dead);
    }

    /// Decide whether two states are equal.
    pub fn equals(&self, other: &Self) -> (b: bool)
        requires
            self.wf(),
            other.wf(),
        ensures
            b == self.spec_eq(other),
    {
        proof {
            self.board.lemma_adjacencies();
            other.board.lemma_adjacencies();
        }
        self.board.adjacencies().equals(other.board.adjacencies()) && self.stones.equals(
            &other.stones,
        ) && self.connections.equals(&other.connections) && self.aga_captures
            == other.aga_captures && self.captures == other.captures
    }
}

/// The two players.
#[derive(Clone, Copy, PartialEq, Eq, Structural, Debug)]
pub enum Color {
    Black,
    White,
}

impl Color {
    /// The opponent of a player.
    pub open spec fn spec_other(self) -> Color {
        match self {
            Color::Black => Color::White,
            Color::White => Color::Black,
        }
    }

    /// The opponent of a player.
    pub fn other(&self) -> (other: Color)
        ensures
            other == self.spec_other(),
    {
        match self {
            Color::Black => Color::White,
            Color::White => Color::Black,
        }
    }
}

/// What both players hold on the board, and whose turn it is.
pub struct GameView {
    pub black: PlayerView,
    pub white: PlayerView,
    pub to_move: Color,
}

impl GameView {
    /// What a player holds.
    pub open spec fn player(self, color: Color) -> PlayerView {
        match color {
            Color::Black => self.black,
            Color::White => self.white,
        }
    }

    /// The game with the holdings of one player replaced.
    pub open spec fn with_player(self, color: Color, player: PlayerView) -> GameView {
        match color {
            Color::Black => GameView { black: player, ..self },
            Color::White => GameView { white: player, ..self },
        }
    }

    /// The points that neither player occupies.
    pub open spec fn free(self) -> Seq<bool> {
        spec_free(self.black.stones, self.white.stones)
    }

    /// The game after a player has placed a stone at the point numbered `n`.
    /// Nothing is taken off the board yet, and the turn stays.
    pub open spec fn place_stone(self, adj: Seq<Seq<bool>>, n: int, color: Color) -> GameView {
        self.with_player(color, self.player(color).place_stone(adj, n))
    }

    /// The game after the stones of a player that have no liberty have been
    /// taken off the board.
    pub open spec fn kill_dead(self, adj: Seq<Seq<bool>>, color: Color) -> GameView {
        self.with_player(color, self.player(color).kill_dead(adj, self.free()))
    }

    /// Whether the opponent of the player who has just placed a stone
    /// loses something: not all of the opponent's stones have a liberty.
    pub open spec fn kills_something(self, adj: Seq<Seq<bool>>, color: Color) -> bool {
        let other = self.player(color.spec_other());
        other.survivors(adj, self.free()) != other.stones
    }

    /// Whether the player who has just placed a stone has killed stones of
    /// their own and none of the opponent.
    pub open spec fn is_suicide(self, adj: Seq<Seq<bool>>, color: Color) -> bool {
        let player = self.player(color);
        !self.kills_something(adj, color) && player.survivors(adj, self.free()) != player.stones
    }

    /// Whether a player may place a stone at the point numbered `n`:
    /// the point is free,
    /// and the placement is no suicide unless suicide is allowed.
    pub open spec fn legal_placement(
        self,
        adj: Seq<Seq<bool>>,
        n: int,
        color: Color,
        suicide_allowed: bool,
    ) -> bool {
        self.free()[n] && (!self.place_stone(adj, n, color).is_suicide(adj, color)
            || suicide_allowed)
    }

    /// The game after a player has placed a stone at the point numbered `n`
    /// and the stones without a liberty have been taken off the board,
    /// first those of the opponent and then those of the player.
    pub open spec fn play(self, adj: Seq<Seq<bool>>, n: int, color: Color) -> GameView {
        self.place_stone(adj, n, color).kill_dead(adj, color.spec_other()).kill_dead(adj, color)
    }
}

/// The state of a game: the states of the two players
/// and whose turn it is.
pub struct GameState<'board, T: Board> {
    black: PlayerState<'board, T>,
    white: PlayerState<'board, T>,
    to_move: Color,
}

impl<'board, T: Board> View for GameState<'board, T> {
    type V = GameView;

    closed spec fn view(&self) -> GameView {
        GameView { black: self.black@, white: self.white@, to_move: self.to_move }
    }
}

impl<'board, T: Board> Clone for GameState<'board, T> {
    fn clone(&self) -> (copy: Self)
        ensures
            copy@ == self@,
            copy.spec_board() == self.spec_board(),
            self.wf() ==> copy.wf(),
    {
        GameState { black: self.black.clone(), white: self.white.clone(), to_move: self.to_move }
    }
}

/// What a player does on their turn.
pub enum Action<T: Board> {
    Pass,
    Resign,
    Place(<T::I as Indexer>::Index),
}

/// An action together with the player who takes it.
pub struct Move<T: Board> {
    pub player: Color,
    pub action: Action<T>,
}

/// The rules that decide on a move by the state of the game alone.
#[derive(Clone, Copy)]
pub struct LocalRules {
    pub suicide_allowed: bool,
    pub alternate_play: bool,
}

/// The rules of a game.
#[derive(Clone, Copy)]
pub struct Rules {
    pub local_rules: LocalRules,
    pub superko: bool,
    /// This is twice the value of komi to allow for half points
    pub bikomi: usize,
    pub fixed_handicap: bool,
}

impl<'board, T: Board> GameState<'board, T> {
    /// The board that the game is played on.
    pub closed spec fn spec_board(&self) -> T {
        self.black.spec_board()
    }

    /// The indexer of the intersection points of the board.
    pub open spec fn spec_indexer(&self) -> T::I {
        self.spec_board().spec_adjacencies().spec_rows()
    }

    /// The adjacency matrix of the board.
    pub open spec fn spec_adj(&self) -> Seq<Seq<bool>> {
        self.spec_board().spec_adjacencies()@
    }

    /// The number of intersection points of the board.
    pub open spec fn spec_size(&self) -> nat {
        self.spec_indexer().spec_range()
    }

    /// Both players are in a sound state on the same board.
    pub closed spec fn players_wf(&self) -> bool {
        &&& self.black.wf()
        &&& self.white.wf()
        &&& self.white.spec_board() == self.black.spec_board()
    }

    /// The state of a game is sound when the states of both players are,
    /// on one board.
    pub open spec fn wf(&self) -> bool {
        &&& self.players_wf()
        &&& self.spec_board().wf()
        &&& self@.black.stones.len() == self.spec_size()
        &&& self@.white.stones.len() == self.spec_size()
        &&& has_shape(self@.black.connections, self.spec_size(), self.spec_size())
        &&& has_shape(self@.white.connections, self.spec_size(), self.spec_size())
    }

    /// Whether two states are equal: on equal boards, with both players in
    /// equal states and the same player to move.
    pub open spec fn spec_eq(&self, other: &Self) -> bool {
        &&& self.spec_board().spec_adjacencies().spec_eq(&other.spec_board().spec_adjacencies())
        &&& self@ == other@
    }

    /// The state of a game before the first move.
    pub fn new(board: &'board T, to_move: Color) -> (state: Self)
        requires
            board.wf(),
        ensures
            state.wf(),
            state.spec_board() == *board,
            state@.black.stones == spec_constant(state.spec_size(), false),
            state@.white.stones == spec_constant(state.spec_size(), false),
            state@.black.connections == spec_identity(state.spec_size()),
            state@.white.connections == spec_identity(state.spec_size()),
            state@.black.aga_captures == 0,
            state@.black.captures == 0,
            state@.white.aga_captures == 0,
            state@.white.captures == 0,
            state@.to_move == to_move,
    {
        GameState { black: PlayerState::new(board), white: PlayerState::new(board), to_move }
    }

    /// The player whose turn it is.
    pub fn to_move(&self) -> (color: Color)
        ensures
            color == self@.to_move,
    {
        self.to_move
    }

    /// The points that neither player occupies.
    pub fn free(&self) -> (free: BoolVec<T::I>)
        requires
            self.wf(),
        ensures
            free.wf(),
            free.spec_indexer() == self.spec_indexer(),
            free@ == self@.free(),
    {
        let black = &self.black.stones;
        let white = &self.white.stones;
        BoolVec::union(black, white).complement()
    }

    /// Take the stones of a player that have no liberty off the board.
    pub fn kill_dead(&mut self, color: Color)
        requires
            old(self).wf(),
        ensures
            final(self).wf(),
            final(self).spec_board() == old(self).spec_board(),
            final(self)@ == old(self)@.kill_dead(old(self).spec_adj(), color),
    {
        let liberties = self.free();
        self.player_state(color).kill_dead(&liberties);
    }

    /// The state of one of the players.
    pub fn player_state(&mut self, color: Color) -> (player: &mut PlayerState<'board, T>)
        ensures
            player@ == old(self)@.player(color),
            old(self).wf() ==> player.wf() && player.spec_board() == old(self).spec_board(),
            final(self)@ == old(self)@.with_player(color, final(player)@),
            old(self).wf() && final(player).wf() && final(player).spec_board() == old(
                self,
            ).spec_board() ==> final(self).wf() && final(self).spec_board() == old(
                self,
            ).spec_board(),
    {
        match color {
            Color::Black => &mut self.black,
            Color::White => &mut self.white,
        }
    }

    /// Place a stone of a player on the point with the internal index `n`.
    pub fn place_stone_num(&mut self, n: usize, color: Color)
        requires
            old(self).wf(),
            n < old(self).spec_size(),
        ensures
            final(self).wf(),
            final(self).spec_board() == old(self).spec_board(),
            final(self)@ == old(self)@.place_stone(old(self).spec_adj(), n as int, color),
    {
        self.player_state(color).place_stone_num(n);
    }

    /// Place a stone of a player on a point.
    pub fn place_stone(&mut self, i: <T::I as Indexer>::Index, color: Color)
        requires
            old(self).wf(),
            old(self).spec_indexer().spec_is_valid(i),
        ensures
            final(self).wf(),
            final(self).spec_board() == old(self).spec_board(),
            final(self)@ == old(self)@.place_stone(
                old(self).spec_adj(),
                old(self).spec_indexer().spec_to_num(i) as int,
                color,
            ),
    {
        let n = self.black.stones.indexer().to_num(i);
        self.place_stone_num(n, color);
    }

    /// Decide whether a player may place a stone
    /// on the point with the internal index `n`.
    pub fn legal_placement_num(&self, n: usize, player_color: Color, rules: LocalRules) -> (legal:
        bool)
        requires
            self.wf(),
            n < self.spec_size(),
        ensures
            legal == self@.legal_placement(
                self.spec_adj(),
                n as int,
                player_color,
                rules.suicide_allowed,
            ),
    {
        let mut future = self.clone();
        future.place_stone_num(n, player_color);
        let liberties = future.free();
        let (player, other) = match player_color {
            Color::Black => (&future.black, &future.white),
            Color::White => (&future.white, &future.black),
        };
        let is_free = self.free().get_num(n);
        let kills_something = !other.survivors(&liberties).equals(&other.stones);
        let is_suicide = !kills_something && !player.survivors(&liberties).equals(&player.stones);
        is_free && (!is_suicide || rules.suicide_allowed)
    }

    /// Decide whether a player may place a stone on a point.
    pub fn legal_placement(
        &self,
        i: <T::I as Indexer>::Index,
        player_color: Color,
        rules: LocalRules,
    ) -> (legal: bool)
        requires
            self.wf(),
            self.spec_indexer().spec_is_valid(i),
        ensures
            legal == self@.legal_placement(
                self.spec_adj(),
                self.spec_indexer().spec_to_num(i) as int,
                player_color,
                rules.suicide_allowed,
            ),
    {
        let n = self.black.stones.indexer().to_num(i);
        self.legal_placement_num(n, player_color, rules)
    }

    /// Whether a move is legal by the state of the game alone.
    pub open spec fn spec_legal_move(&self, mov: Move<T>, rules: LocalRules) -> bool {
        let has_turn = !rules.alternate_play || mov.player == self@.to_move;
        let legal_action = match mov.action {
            Action::Pass => true,
            Action::Resign => true,
            Action::Place(i) => self@.legal_placement(
                self.spec_adj(),
                self.spec_indexer().spec_to_num(i) as int,
                mov.player,
                rules.suicide_allowed,
            ),
        };
        has_turn && legal_action
    }

    /// Whether a move can be asked about: a placement names a point of the
    /// board.
    pub open spec fn spec_on_board(&self, mov: Move<T>) -> bool {
        match mov.action {
            Action::Place(i) => self.spec_indexer().spec_is_valid(i),
            _ => true,
        }
    }

    /// Decide whether a move is legal by the state of the game alone.
    /// Passing and resigning are always legal actions;
    /// where the players must alternate, only the player to move may act.
    pub fn legal_move(&self, mov: Move<T>, rules: LocalRules) -> (legal: bool)
        requires
            self.wf(),
            self.spec_on_board(mov),
        ensures
            legal == self.spec_legal_move(mov, rules),
    {
        let has_turn = !rules.alternate_play || mov.player == self.to_move;
        let legal_action = match mov.action {
            Action::Pass => true,
            Action::Resign => true,
            Action::Place(i) => self.legal_placement(i, mov.player, rules),
        };
        has_turn && legal_action
    }

    /// Decide whether two states are equal.
    pub fn equals(&self, other: &Self) -> (b: bool)
        requires
            self.wf(),
            other.wf(),
        ensures
            b == self.spec_eq(other),
    {
        self.black.equals(&other.black) && self.white.equals(&other.white) && self.to_move
            == other.to_move
    }
}

/// A state of a game together with the states that came before it.
pub struct GameNode<'a, 'board, T: Board> {
    state: GameState<'board, T>,
    prev_node: Option<&'a GameNode<'a, 'board, T>>,
    last_move: Option<Move<T>>,
    white_ghosts: BoolVec<T::I>,
    black_ghosts: BoolVec<T::I>,
}

impl<'a, 'board, T: Board> GameNode<'a, 'board, T> {
    /// The state of the game at this node.
    pub closed spec fn spec_state(&self) -> GameState<'board, T> {
        self.state
    }

    /// The node that this one follows, if it is not the first.
    pub closed spec fn spec_prev_node(&self) -> Option<&'a GameNode<'a, 'board, T>> {
        self.prev_node
    }

    /// The number of nodes that came before this one.
    pub open spec fn spec_depth(&self) -> nat
        decreases self,
    {
        match self.spec_prev_node() {
            None => 0,
            Some(prev) => 1 + prev.spec_depth(),
        }
    }

    /// The states of this node and of all nodes before it are sound.
    pub open spec fn wf(&self) -> bool
        decreases self,
    {
        self.spec_state().wf() && match self.spec_prev_node() {
            None => true,
            Some(prev) => prev.wf(),
        }
    }

    /// Whether a state equal to the given one has occurred
    /// at a node before this one.
    pub open spec fn spec_occurred(&self, state: &GameState<'board, T>) -> bool
        decreases self,
    {
        match self.spec_prev_node() {
            None => false,
            Some(prev) => prev.spec_state().spec_eq(state) || prev.spec_occurred(state),
        }
    }

    /// Whether a move would bring back a state of the game that has occurred
    /// at a node before this one: only a placement can.
    pub open spec fn spec_repeats(&self, mov: Move<T>) -> bool {
        match mov.action {
            Action::Place(i) => exists|next: GameState<'board, T>|
                {
                    &&& #[trigger] self.spec_occurred(&next)
                    &&& next.spec_board().spec_adjacencies().spec_eq(
                        &self.spec_state().spec_board().spec_adjacencies(),
                    )
                    &&& next@ == self.spec_state()@.play(
                        self.spec_state().spec_adj(),
                        self.spec_state().spec_indexer().spec_to_num(i) as int,
                        mov.player,
                    )
                },
            _ => false,
        }
    }

    /// The move that led to this node, if it is not the first.
    pub closed spec fn spec_last_move(&self) -> Option<Move<T>> {
        self.last_move
    }

    /// The points that are marked for white at this node.
    pub closed spec fn spec_white_ghosts(&self) -> BoolVec<T::I> {
        self.white_ghosts
    }

    /// The points that are marked for black at this node.
    pub closed spec fn spec_black_ghosts(&self) -> BoolVec<T::I> {
        self.black_ghosts
    }

    /// Make the node of a state that follows the given node,
    /// or that is the first of a game.
    pub fn new(
        state: GameState<'board, T>,
        prev_node: Option<&'a GameNode<'a, 'board, T>>,
        last_move: Option<Move<T>>,
        white_ghosts: BoolVec<T::I>,
        black_ghosts: BoolVec<T::I>,
    ) -> (node: Self)
        requires
            state.wf(),
            match prev_node {
                None => true,
                Some(prev) => prev.wf(),
            },
        ensures
            node.wf(),
            node.spec_state() == state,
            node.spec_prev_node() == prev_node,
            node.spec_last_move() == last_move,
            node.spec_white_ghosts() == white_ghosts,
            node.spec_black_ghosts() == black_ghosts,
    {
        GameNode { state, prev_node, last_move, white_ghosts, black_ghosts }
    }

    /// The state of the game at this node.
    pub fn state(&self) -> (state: &GameState<'board, T>)
        ensures
            *state == self.spec_state(),
    {
        &self.state
    }

    /// The node that this one follows, if it is not the first.
    pub fn prev_node(&self) -> (prev: Option<&'a GameNode<'a, 'board, T>>)
        ensures
            prev == self.spec_prev_node(),
    {
        self.prev_node
    }

    /// The move that led to this node, if it is not the first.
    pub fn last_move(&self) -> (last: &Option<Move<T>>)
        ensures
            *last == self.spec_last_move(),
    {
        &self.last_move
    }

    /// The points that are marked for white at this node.
    pub fn white_ghosts(&self) -> (ghosts: &BoolVec<T::I>)
        ensures
            *ghosts == self.spec_white_ghosts(),
    {
        &self.white_ghosts
    }

    /// The points that are marked for black at this node.
    pub fn black_ghosts(&self) -> (ghosts: &BoolVec<T::I>)
        ensures
            *ghosts == self.spec_black_ghosts(),
    {
        &self.black_ghosts
    }

    /// Decide whether a state equal to the given one has occurred
    /// at a node before this one.
    pub fn occurred(&self, state: &GameState<'board, T>) -> (found: bool)
        requires
            self.wf(),
            state.wf(),
        ensures
            found == self.spec_occurred(state),
        decreases self,
    {
        match self.prev_node {
            None => false,
            Some(prev) => {
                assert(prev.wf());
                prev.state.equals(state) || prev.occurred(state)
            },
        }
    }

    /// Decide whether a move is legal: by the state of the game,
    /// and since it does not bring back a state that has occurred before.
    pub fn legal_move(&self, mov: Move<T>, rules: Rules) -> (legal: bool)
        requires
            self.wf(),
            self.spec_state().spec_on_board(mov),
        ensures
            legal == (self.spec_state().spec_legal_move(mov, rules.local_rules)
                && !self.spec_repeats(mov)),
    {
        let has_turn = !rules.local_rules.alternate_play || mov.player == self.state.to_move;
        match mov.action {
            Action::Place(i) => {
                let n = self.state.black.stones.indexer().to_num(i);
                let locally_legal = has_turn && self.state.legal_placement_num(
                    n,
                    mov.player,
                    rules.local_rules,
                );
                let mut next_state = self.state.clone();
                next_state.place_stone_num(n, mov.player);
                next_state.kill_dead(mov.player.other());
                next_state.kill_dead(mov.player);
                let ko = self.occurred(&next_state);
                proof {
                    if self.spec_repeats(mov) {
                        let other = choose|next: GameState<'board, T>|
                            {
                                &&& #[trigger] self.spec_occurred(&next)
                                &&& next.spec_board().spec_adjacencies().spec_eq(
                                    &self.spec_state().spec_board().spec_adjacencies(),
                                )
                                &&& next@ == self.spec_state()@.play(
                                    self.spec_state().spec_adj(),
                                    self.spec_state().spec_indexer().spec_to_num(i) as int,
                                    mov.player,
                                )
                            };
                        self.lemma_occurred_of_equal(&other, &next_state);
                    }
                }
                locally_legal && !ko
            },
            _ => has_turn,
        }
    }

    /// Whether a state has occurred depends on what the state equals only.
    pub proof fn lemma_occurred_of_equal(
        &self,
        first: &GameState<'board, T>,
        second: &GameState<'board, T>,
    )
        requires
            first.spec_eq(second),
        ensures
            self.spec_occurred(first) == self.spec_occurred(second),
        decreases self,
    {
        match self.spec_prev_node() {
            None => {},
            Some(prev) => {
                prev.lemma_occurred_of_equal(first, second);
            },
        }
    }
}

} // verus!
