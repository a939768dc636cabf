use reversi::{Coordinate, Game, SquareState, Turn};

#[derive(Clone, Copy, PartialEq, Debug)]
enum Cell {
    Empty,
    Disc(Turn),
}

const STEPS: [(i32, i32); 8] = [
    (-1, -1),
    (-1, 0),
    (-1, 1),
    (0, -1),
    (0, 1),
    (1, -1),
    (1, 0),
    (1, 1),
];

fn at(i: u8) -> Coordinate {
    Coordinate::from(i).ok().unwrap()
}

fn cells_of(game: &Game) -> [Cell; 64] {
    let mut cells = [Cell::Empty; 64];
    for (i, state) in game.to_vec().iter().enumerate() {
        cells[i] = match state {
            SquareState::Black => Cell::Disc(Turn::Black),
            SquareState::White => Cell::Disc(Turn::White),
            _ => Cell::Empty,
        };
    }
    cells
}

/// The squares captured by `turn` playing `square`, walking each line square by square.
fn naive_flips(cells: &[Cell; 64], square: usize, turn: Turn) -> Vec<usize> {
    let mut captured = Vec::new();
    if cells[square] != Cell::Empty {
        return captured;
    }
    let (row, col) = ((square / 8) as i32, (square % 8) as i32);
    for (dr, dc) in STEPS {
        let mut line = Vec::new();
        let (mut r, mut c) = (row + dr, col + dc);
        while (0..8).contains(&r) && (0..8).contains(&c) {
            let i = (r * 8 + c) as usize;
            match cells[i] {
                Cell::Disc(t) if t == turn.opposite() => line.push(i),
                Cell::Disc(_) => {
                    captured.extend(line.iter().copied());
                    break;
                }
                Cell::Empty => break,
            }
            r += dr;
            c += dc;
        }
    }
    captured
}

fn naive_legal(cells: &[Cell; 64], turn: Turn) -> Vec<usize> {
    (0..64).filter(|&i| !naive_flips(cells, i, turn).is_empty()).collect()
}

struct Lcg(u64);

impl Lcg {
    fn next(&mut self, bound: usize) -> usize {
        self.0 = self.0.wrapping_mul(6364136223846793005).wrapping_add(1442695040888963407);
        ((self.0 >> 33) as usize) % bound
    }
}

#[test]
fn engine_agrees_with_naive_board_over_random_games() {
    let mut rng = Lcg(12345);
    for _ in 0..300 {
        let mut game = Game::initial();
        loop {
            let cells = cells_of(&game);
            let status = game.status();
            let turn = status.turn;
            let legal = naive_legal(&cells, turn);
            let other = naive_legal(&cells, turn.opposite());
            assert_eq!(status.end, legal.is_empty() && other.is_empty());
            let states = game.to_vec();
            for i in 0..64 {
                let flips = naive_flips(&cells, i, turn);
                let is_legal = game.is_legal(at(i as u8), turn);
                assert_eq!(is_legal, !flips.is_empty());
                assert_eq!(
                    game.is_legal(at(i as u8), turn.opposite()),
                    other.contains(&i)
                );
                if is_legal {
                    assert_eq!(states[i], SquareState::Legal(flips.len() as u32));
                }
            }
            if status.end {
                break;
            }
            let square = legal[rng.next(legal.len())];
            let mut expected = cells;
            expected[square] = Cell::Disc(turn);
            for i in naive_flips(&cells, square, turn) {
                expected[i] = Cell::Disc(turn);
            }
            game = game.move_disc(at(square as u8)).ok().unwrap();
            assert_eq!(cells_of(&game), expected);
            let next = game.status();
            let opponent_can = !naive_legal(&expected, turn.opposite()).is_empty();
            let mover_can = !naive_legal(&expected, turn).is_empty();
            if next.end {
                assert!(!opponent_can && !mover_can);
            } else if opponent_can {
                assert_eq!(next.turn, turn.opposite());
                assert!(!next.pass);
            } else {
                assert_eq!(next.turn, turn);
                assert!(next.pass);
            }
        }
    }
}
