use reversi::bits::count_bits;
use reversi::direction::{DIAGONAL, HORIZONTAL, VERTICAL};
use reversi::{
    pre_compute_weight, BitBoard, Coordinate, Direction, Game, GameError, SquareState, Turn,
};

fn at(i: u8) -> Coordinate {
    Coordinate::from(i).ok().unwrap()
}

fn legal_squares(game: &Game, turn: Turn) -> Vec<u8> {
    let mut squares = Vec::new();
    for i in 0..64u8 {
        if game.is_legal(at(i), turn) {
            squares.push(i);
        }
    }
    squares
}

fn play(game: &Game, square: u8) -> Game {
    game.move_disc(at(square)).ok().unwrap()
}

#[test]
fn opposite_swaps_players() {
    assert_eq!(Turn::Black.opposite(), Turn::White);
    assert_eq!(Turn::White.opposite(), Turn::Black);
}

#[test]
fn coordinate_round_trips_through_mask() {
    for i in 0..64u8 {
        let c = at(i);
        assert_eq!(c.to_int(), i);
        assert_eq!(c.to_mask(), 1u64 << (63 - i));
        assert_eq!(Coordinate::from_bit(c.to_mask()).to_int(), i);
    }
    assert_eq!(at(0).to_mask(), 0x8000_0000_0000_0000);
    assert_eq!(at(63).to_mask(), 1);
}

#[test]
fn from_bit_takes_highest_bit() {
    assert_eq!(Coordinate::from_bit(0b1011).to_int(), 60);
    assert_eq!(Coordinate::from_bit(u64::MAX).to_int(), 0);
}

#[test]
fn next_wraps_after_last_square() {
    assert_eq!(at(0).next().to_int(), 1);
    assert_eq!(at(62).next().to_int(), 63);
    assert_eq!(at(63).next().to_int(), 0);
}

#[test]
fn from_rejects_off_board_index() {
    assert_eq!(Coordinate::from(0).ok().unwrap().to_int(), 0);
    assert_eq!(Coordinate::from(63).ok().unwrap().to_int(), 63);
    assert_eq!(Coordinate::from(64).err(), Some(GameError::InvalidCoordinate));
    assert_eq!(Coordinate::from(200).err(), Some(GameError::InvalidCoordinate));
}

#[test]
fn search_with_shared_table_matches_search() {
    let table = pre_compute_weight();
    let mut game = Game::initial();
    while !game.status().end {
        let chosen = game.search_with(&table).unwrap();
        assert_eq!(chosen, game.search().unwrap());
        game = game.move_disc(chosen).ok().unwrap();
    }
    assert_eq!(game.search_with(&table), None);
}

#[test]
fn from_position_rejects_off_board_index() {
    assert_eq!(Coordinate::from_position(63).ok().unwrap().to_int(), 63);
    assert_eq!(Coordinate::from_position(0).ok().unwrap().to_int(), 0);
    assert_eq!(Coordinate::from_position(64).err(), Some(GameError::InvalidCoordinate));
    assert_eq!(Coordinate::from_position(255).err(), Some(GameError::InvalidCoordinate));
}

#[test]
fn direction_masks_and_shifts() {
    assert_eq!(VERTICAL, 0x00FF_FFFF_FFFF_FF00);
    assert_eq!(HORIZONTAL, 0x7E7E_7E7E_7E7E_7E7E);
    assert_eq!(DIAGONAL, 0x007E_7E7E_7E7E_7E00);
    assert_eq!(Direction::Up.to_mask(), VERTICAL);
    assert_eq!(Direction::Down.to_mask(), VERTICAL);
    assert_eq!(Direction::Left.to_mask(), HORIZONTAL);
    assert_eq!(Direction::Right.to_mask(), HORIZONTAL);
    assert_eq!(Direction::UpLeft.to_mask(), DIAGONAL);
    assert_eq!(Direction::DownRight.to_mask(), DIAGONAL);
    let bit = 1u64 << 20;
    assert_eq!(Direction::Up.to_shift(bit), 1u64 << 28);
    assert_eq!(Direction::Down.to_shift(bit), 1u64 << 12);
    assert_eq!(Direction::Left.to_shift(bit), 1u64 << 21);
    assert_eq!(Direction::Right.to_shift(bit), 1u64 << 19);
    assert_eq!(Direction::UpLeft.to_shift(bit), 1u64 << 29);
    assert_eq!(Direction::UpRight.to_shift(bit), 1u64 << 27);
    assert_eq!(Direction::DownLeft.to_shift(bit), 1u64 << 13);
    assert_eq!(Direction::DownRight.to_shift(bit), 1u64 << 11);
}

#[test]
fn count_bits_counts_set_bits() {
    assert_eq!(count_bits(0), 0);
    assert_eq!(count_bits(u64::MAX), 64);
    assert_eq!(count_bits(0x0000_0008_1000_0000), 2);
    assert_eq!(count_bits(0b1011_0001), 4);
}

#[test]
fn weight_table_sums_row_weights() {
    let table = pre_compute_weight();
    assert_eq!(table.lookup(0, 0), 0);
    assert_eq!(table.lookup(0, 0b0000_0001), 100);
    assert_eq!(table.lookup(0, 0b1000_0001), 200);
    assert_eq!(table.lookup(0, 0xFF), 170);
    assert_eq!(table.lookup(1, 0b0000_0010), -80);
    assert_eq!(table.lookup(2, 0b1000_0000), -20);
    assert_eq!(table.lookup(5, 0b0000_0001), 20);
    assert_eq!(table.lookup(3, 0xFF), 10);
}

#[test]
fn initial_black_has_four_moves_each_flipping_one() {
    let game = Game::initial();
    assert_eq!(legal_squares(&game, Turn::Black), vec![19, 26, 37, 44]);
    assert_eq!(legal_squares(&game, Turn::White), vec![20, 29, 34, 43]);
    let states = game.to_vec();
    for square in [19usize, 26, 37, 44] {
        assert_eq!(states[square], SquareState::Legal(1));
    }
    for square in [19u8, 26, 37, 44] {
        let next = play(&game, square);
        assert_eq!(next.count_disc(Turn::Black), 4);
        assert_eq!(next.count_disc(Turn::White), 1);
    }
}

#[test]
fn initial_square_states() {
    let states = Game::initial().to_vec();
    assert_eq!(states.len(), 64);
    let mut black = 0;
    let mut white = 0;
    let mut legal = 0;
    let mut empty = 0;
    for (i, state) in states.iter().enumerate() {
        let expected = match i {
            28 | 35 => SquareState::Black,
            27 | 36 => SquareState::White,
            19 | 26 | 37 | 44 => SquareState::Legal(1),
            _ => SquareState::Empty,
        };
        assert_eq!(*state, expected);
        match state {
            SquareState::Black => black += 1,
            SquareState::White => white += 1,
            SquareState::Legal(1) => legal += 1,
            SquareState::Empty => empty += 1,
            SquareState::Legal(_) => panic!("unexpected flip count"),
        }
    }
    assert_eq!((black, white, legal, empty), (2, 2, 4, 56));
}

#[test]
fn initial_status_and_counts() {
    let game = Game::initial();
    let status = game.status();
    assert_eq!(status.turn, Turn::Black);
    assert!(!status.pass);
    assert!(!status.end);
    assert_eq!(status.winner, None);
    assert_eq!(game.count_disc(Turn::Black), 2);
    assert_eq!(game.count_disc(Turn::White), 2);
}

#[test]
fn illegal_move_is_refused_and_game_unchanged() {
    let game = Game::initial();
    let before = game.to_vec();
    for square in [0u8, 27, 28, 20, 63] {
        assert_eq!(game.move_disc(at(square)).err(), Some(GameError::IllegalMove));
    }
    assert_eq!(game.to_vec(), before);
    assert_eq!(game.status().turn, Turn::Black);
}

#[test]
fn move_flips_and_hands_turn_over() {
    let game = Game::initial();
    let next = play(&game, 19);
    let states = next.to_vec();
    assert_eq!(states[19], SquareState::Black);
    assert_eq!(states[27], SquareState::Black);
    assert_eq!(states[35], SquareState::Black);
    assert_eq!(states[36], SquareState::White);
    assert_eq!(next.status().turn, Turn::White);
    assert!(!next.status().pass);
    assert_eq!(legal_squares(&next, Turn::White), vec![18, 20, 34]);
}

#[test]
fn disc_total_grows_by_one_per_move() {
    let mut game = Game::initial();
    while !game.status().end {
        let before_total = game.count_disc(Turn::Black) + game.count_disc(Turn::White);
        let mover = game.status().turn;
        let mover_before = game.count_disc(mover);
        let opp_before = game.count_disc(mover.opposite());
        let square = game.search().unwrap();
        let captured = match game.to_vec()[square.to_int() as usize] {
            SquareState::Legal(n) => n,
            _ => panic!("search returned a square that is not legal"),
        };
        assert!(captured >= 1);
        game = game.move_disc(square).ok().unwrap();
        assert_eq!(game.count_disc(Turn::Black) + game.count_disc(Turn::White), before_total + 1);
        assert_eq!(game.count_disc(mover), mover_before + captured + 1);
        assert_eq!(game.count_disc(mover.opposite()), opp_before - captured);
    }
}

#[test]
fn discs_never_share_a_square() {
    let mut game = Game::initial();
    while !game.status().end {
        let states = game.to_vec();
        let black = states.iter().filter(|s| **s == SquareState::Black).count() as u32;
        let white = states.iter().filter(|s| **s == SquareState::White).count() as u32;
        assert_eq!(black, game.count_disc(Turn::Black));
        assert_eq!(white, game.count_disc(Turn::White));
        let board = game.board();
        assert_eq!(board.count_disc(Turn::Black), black);
        game = game.move_disc(game.search().unwrap()).ok().unwrap();
    }
}

#[test]
fn search_picks_best_lowest_square_from_start() {
    let game = Game::initial();
    assert_eq!(game.search().unwrap().to_int(), 19);
    let table = pre_compute_weight();
    for square in [19u8, 26, 37, 44] {
        assert_eq!(game.predict(&table, at(square)), 1);
    }
    assert_eq!(game.predict(&table, at(0)), i16::MIN);
}

#[test]
fn search_result_is_always_legal() {
    let mut game = Game::initial();
    while !game.status().end {
        let mover = game.status().turn;
        let square = game.search().unwrap();
        assert!(game.is_legal(square, mover));
        game = game.move_disc(square).ok().unwrap();
    }
    assert_eq!(game.search().map(|c| c.to_int()), None);
    for i in 0..64u8 {
        assert!(!game.is_legal(at(i), Turn::Black));
        assert!(!game.is_legal(at(i), Turn::White));
    }
}

#[test]
fn self_play_to_the_end() {
    let mut game = Game::initial();
    let mut moves = Vec::new();
    while !game.status().end {
        let square = game.search().unwrap();
        moves.push(square.to_int());
        game = game.move_disc(square).ok().unwrap();
    }
    assert_eq!(
        moves,
        vec![
            19, 18, 17, 11, 3, 20, 21, 12, 5, 2, 45, 4, 1, 22, 23, 25, 32, 30, 39, 42, 29, 37,
            44, 38, 47, 13, 34, 53, 61, 26, 50
        ]
    );
    assert_eq!(game.count_disc(Turn::Black), 35);
    assert_eq!(game.count_disc(Turn::White), 0);
    let status = game.status();
    assert!(status.end);
    assert!(!status.pass);
    assert_eq!(status.winner, Some(Turn::Black));
    assert!(game.board().is_end());
    assert_eq!(game.board().get_winner(), Some(Turn::Black));
    assert_eq!(game.move_disc(at(0)).err(), Some(GameError::IllegalMove));
}

#[test]
fn end_only_when_neither_player_can_move() {
    let mut game = Game::initial();
    loop {
        let board = game.board();
        let black_can = board.is_able_to_move(Turn::Black);
        let white_can = board.is_able_to_move(Turn::White);
        assert_eq!(game.status().end, !black_can && !white_can);
        assert_eq!(board.is_end(), !black_can && !white_can);
        if game.status().end {
            break;
        }
        game = game.move_disc(game.search().unwrap()).ok().unwrap();
    }
}

#[test]
fn evaluate_is_antisymmetric() {
    let table = pre_compute_weight();
    let mut game = Game::initial();
    let board = game.board();
    assert_eq!(board.evaluate(&table, Turn::Black), 0);
    assert_eq!(board.evaluate(&table, Turn::White), 0);
    while !game.status().end {
        let board = game.board();
        assert_eq!(board.evaluate(&table, Turn::Black), -board.evaluate(&table, Turn::White));
        game = game.move_disc(game.search().unwrap()).ok().unwrap();
    }
    let board = game.board();
    assert_eq!(board.evaluate(&table, Turn::Black), -board.evaluate(&table, Turn::White));
}

#[test]
fn evaluate_after_first_move() {
    let table = pre_compute_weight();
    let next = play(&Game::initial(), 19).board();
    assert_eq!(next.evaluate(&table, Turn::Black), 1);
    assert_eq!(next.evaluate(&table, Turn::White), -1);
}

#[test]
fn bitboard_move_matches_game_move() {
    let board = BitBoard::new();
    let moved = board.move_disc(at(26), Turn::Black);
    assert!(moved.is_black(at(26)));
    assert!(moved.is_black(at(27)));
    assert!(!moved.is_white(at(27)));
    assert!(moved.is_white(at(36)));
    assert_eq!(moved.get_square_state(at(18), Turn::White), SquareState::Legal(1));
    assert_eq!(moved.get_square_state(at(0), Turn::White), SquareState::Empty);
    assert_eq!(moved.to_vec(Turn::White), play(&Game::initial(), 26).to_vec());
    assert_eq!(moved.get_winner(), None);
}

#[test]
fn game_from_board_starts_with_black() {
    let game = Game::from(BitBoard::new());
    assert_eq!(game.status().turn, Turn::Black);
    assert!(!game.status().end);
    assert_eq!(game.to_vec(), Game::initial().to_vec());
}
