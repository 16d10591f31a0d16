use gorrosion::board::Rect;
use gorrosion::board::Square;
use gorrosion::bool_vec::BoolVec;
use gorrosion::game::Action;
use gorrosion::game::Color;
use gorrosion::game::GameNode;
use gorrosion::game::GameState;
use gorrosion::game::LocalRules;
use gorrosion::game::Move;
use gorrosion::game::PlayerState;
use gorrosion::game::Rules;
use gorrosion::indexer;

const STRICT: LocalRules = LocalRules {
    suicide_allowed: false,
    alternate_play: true,
};

const LENIENT: LocalRules = LocalRules {
    suicide_allowed: true,
    alternate_play: false,
};

fn rules(local_rules: LocalRules) -> Rules {
    Rules {
        local_rules,
        superko: true,
        bikomi: 13,
        fixed_handicap: false,
    }
}

fn node<'a, 'board, T: gorrosion::board::Board<I = indexer::Rect>>(
    state: GameState<'board, T>,
    prev_node: Option<&'a GameNode<'a, 'board, T>>,
    height: usize,
    width: usize,
) -> GameNode<'a, 'board, T> {
    let none = || BoolVec::falses(indexer::Rect::new(height, width));
    GameNode::new(state, prev_node, None, none(), none())
}

fn count(v: &BoolVec<indexer::Rect>) -> usize {
    (0..v.len()).filter(|n| v.get_num(*n)).count()
}

fn place(player: Color, at: (usize, usize)) -> Move<Rect> {
    Move {
        player,
        action: Action::Place(at),
    }
}

fn place_on_square(player: Color, at: (usize, usize)) -> Move<Square> {
    Move {
        player,
        action: Action::Place(at),
    }
}

#[test]
fn other_color() {
    assert_eq!(Color::Black.other(), Color::White);
    assert_eq!(Color::White.other(), Color::Black);
}

#[test]
fn single_stone_on_an_empty_board() {
    let board = Square::new(9);
    let mut state = GameState::new(&board, Color::Black);
    assert_eq!(count(&state.free()), 81);
    assert!(state.legal_placement((4, 4), Color::Black, STRICT));
    state.place_stone((4, 4), Color::Black);
    assert!(state.player_state(Color::Black).stones()[(4, 4)]);
    assert_eq!(count(state.player_state(Color::Black).stones()), 1);
    assert_eq!(count(state.player_state(Color::White).stones()), 0);
    let free = state.free();
    assert_eq!(count(&free), 80);
    assert!(!free[(4, 4)]);
    assert!(!state.legal_placement((4, 4), Color::White, STRICT));
    assert!(!state.legal_placement((4, 4), Color::White, LENIENT));
}

#[test]
fn first_stone_is_connected_to_itself_alone() {
    let board = Rect::new(2, 2);
    let mut player = PlayerState::new(&board);
    player.place_stone((0, 1));
    assert_eq!(count(player.stones()), 1);
    let conn = player.connections();
    for a in 0..4usize {
        for b in 0..4usize {
            assert_eq!(conn.get_num(a, b), a == 1 && b == 1);
        }
    }
    let mut free = BoolVec::trues(indexer::Rect::new(2, 2));
    free.set((0, 1), false);
    let survivors = player.survivors(&free);
    assert!(survivors[(0, 1)]);
    assert_eq!(count(&survivors), 1);
}

#[test]
fn capturing_the_last_liberty_is_legal() {
    let board = Square::new(9);
    let mut state = GameState::new(&board, Color::Black);
    state.place_stone((0, 0), Color::White);
    state.place_stone((0, 1), Color::Black);
    assert!(state.legal_placement((1, 0), Color::Black, STRICT));
    assert!(state.legal_move(place_on_square(Color::Black, (1, 0)), STRICT));
}

#[test]
fn killing_takes_the_stone_off_the_board() {
    let board = Square::new(9);
    let mut state = GameState::new(&board, Color::Black);
    state.place_stone((0, 0), Color::White);
    state.place_stone((0, 1), Color::Black);
    state.place_stone((1, 0), Color::Black);
    state.kill_dead(Color::White);
    assert_eq!(count(state.player_state(Color::White).stones()), 0);
    assert_eq!(count(state.player_state(Color::Black).stones()), 2);
    assert!(state.free()[(0, 0)]);
    state.kill_dead(Color::Black);
    assert_eq!(count(state.player_state(Color::Black).stones()), 2);
}

#[test]
fn filling_the_own_last_liberty() {
    let board = Rect::new(1, 4);
    let mut state = GameState::new(&board, Color::White);
    state.place_stone((0, 1), Color::Black);
    assert!(!state.legal_placement((0, 0), Color::White, STRICT));
    assert!(state.legal_placement((0, 0), Color::White, LENIENT));
    assert!(!state.legal_move(place(Color::White, (0, 0)), STRICT));
    assert!(state.legal_move(place(Color::White, (0, 0)), LENIENT));
    assert!(state.legal_placement((0, 3), Color::White, STRICT));
}

#[test]
fn only_the_player_to_move_may_act_where_players_alternate() {
    let board = Rect::new(3, 3);
    let state = GameState::new(&board, Color::White);
    assert_eq!(state.to_move(), Color::White);
    let pass = |player| Move::<Rect> {
        player,
        action: Action::Pass,
    };
    let resign = |player| Move::<Rect> {
        player,
        action: Action::Resign,
    };
    assert!(state.legal_move(pass(Color::White), STRICT));
    assert!(!state.legal_move(pass(Color::Black), STRICT));
    assert!(state.legal_move(pass(Color::Black), LENIENT));
    assert!(state.legal_move(resign(Color::White), STRICT));
    assert!(!state.legal_move(resign(Color::Black), STRICT));
    assert!(state.legal_move(place(Color::White, (1, 1)), STRICT));
    assert!(!state.legal_move(place(Color::Black, (1, 1)), STRICT));
    assert!(state.legal_move(place(Color::Black, (1, 1)), LENIENT));
}

#[test]
fn a_rejected_move_leaves_the_state_untouched() {
    let board = Rect::new(1, 3);
    let mut state = GameState::new(&board, Color::White);
    state.place_stone((0, 1), Color::Black);
    let before = state.clone();
    assert!(!state.legal_move(place(Color::White, (0, 0)), STRICT));
    assert!(state.equals(&before));
}

#[test]
fn a_move_that_brings_back_an_earlier_state_is_illegal() {
    let board = Square::new(9);
    let mut current = GameState::new(&board, Color::Black);
    current.place_stone((0, 0), Color::White);
    current.place_stone((0, 1), Color::Black);
    current.place_stone((1, 0), Color::Black);
    current.kill_dead(Color::White);
    current.kill_dead(Color::Black);
    assert!(current.legal_move(place_on_square(Color::White, (0, 0)), LENIENT));

    let mut repeated = current.clone();
    repeated.place_stone((0, 0), Color::White);
    repeated.kill_dead(Color::Black);
    repeated.kill_dead(Color::White);

    let fresh = node(GameState::new(&board, Color::Black), None, 9, 9);
    let after_fresh = node(current.clone(), Some(&fresh), 9, 9);
    assert!(!after_fresh.occurred(&repeated));
    assert!(after_fresh.legal_move(place_on_square(Color::White, (0, 0)), rules(LENIENT)));

    let first = node(repeated.clone(), None, 9, 9);
    let second = node(GameState::new(&board, Color::Black), Some(&first), 9, 9);
    let third = node(current.clone(), Some(&second), 9, 9);
    assert!(third.occurred(&repeated));
    assert!(!third.legal_move(place_on_square(Color::White, (0, 0)), rules(LENIENT)));
    assert!(third.legal_move(place_on_square(Color::White, (5, 5)), rules(LENIENT)));
    assert!(third.state().equals(&current));
    assert!(third.prev_node().is_some());
    assert!(first.prev_node().is_none());
    assert!(third.last_move().is_none());
    assert_eq!(count(third.white_ghosts()), 0);
    assert_eq!(count(third.black_ghosts()), 0);
}

#[test]
fn passing_never_repeats_a_state() {
    let board = Rect::new(2, 2);
    let root = node(GameState::new(&board, Color::Black), None, 2, 2);
    let next = node(GameState::new(&board, Color::Black), Some(&root), 2, 2);
    assert!(next.occurred(next.state()));
    let pass = Move::<Rect> {
        player: Color::Black,
        action: Action::Pass,
    };
    assert!(next.legal_move(pass, rules(STRICT)));
    let resign = Move::<Rect> {
        player: Color::White,
        action: Action::Resign,
    };
    assert!(!next.legal_move(resign, rules(STRICT)));
}

#[test]
fn placing_keeps_the_liberties_of_a_stone() {
    let board = Square::new(5);
    let mut player = PlayerState::new(&board);
    player.place_stone((2, 2));
    let mut free = BoolVec::trues(indexer::Rect::new(5, 5));
    free.set((2, 2), false);
    let before = player.survivors(&free);
    assert!(before[(2, 2)]);
    assert_eq!(count(&before), 1);
    player.place_stone((0, 0));
    assert!(player.stones()[(0, 0)]);
    assert!(player.stones()[(2, 2)]);
    assert!(player.connections().get_num(12, 12));
    let after = player.survivors(&free);
    assert!(after[(2, 2)]);
}

#[test]
fn killing_a_stone_takes_what_is_connected_to_it() {
    let board = Square::new(5);
    let mut player = PlayerState::new(&board);
    player.place_stone((2, 2));
    let mut zombies = BoolVec::falses(indexer::Rect::new(5, 5));
    zombies.set((2, 2), true);
    player.kill(&zombies);
    assert_eq!(count(player.stones()), 0);
    for a in 0..25usize {
        for b in 0..25usize {
            assert!(!player.connections().get_num(a, b));
        }
    }
}

#[test]
fn a_stone_with_a_liberty_is_not_killed() {
    let board = Square::new(5);
    let mut player = PlayerState::new(&board);
    player.place_stone((2, 2));
    let mut liberties = BoolVec::falses(indexer::Rect::new(5, 5));
    liberties.set((2, 3), true);
    player.kill_dead(&liberties);
    assert_eq!(count(player.stones()), 1);
    assert!(player.stones()[(2, 2)]);
    assert!(player.connections().get_num(12, 12));
    let none = BoolVec::falses(indexer::Rect::new(5, 5));
    player.kill_dead(&none);
    assert_eq!(count(player.stones()), 0);
}

#[test]
fn states_differ_by_stones_and_by_the_player_to_move() {
    let board = Rect::new(2, 3);
    let black = GameState::new(&board, Color::Black);
    let white = GameState::new(&board, Color::White);
    assert!(black.equals(&GameState::new(&board, Color::Black)));
    assert!(!black.equals(&white));
    let mut played = GameState::new(&board, Color::Black);
    played.place_stone((1, 2), Color::White);
    assert!(!played.equals(&black));
    assert!(played.equals(&played.clone()));
    let other_board = Rect::new(3, 2);
    assert!(!black.equals(&GameState::new(&other_board, Color::Black)));
}
