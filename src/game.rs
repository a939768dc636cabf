use vstd::prelude::*;
use crate::bitboard::{BitBoard, SquareState};
use crate::bits::popcount;
use crate::coordinate::Coordinate;
use crate::turn::Turn;
use crate::weights::{pre_compute_weight, WeightTable};
use crate::GameError;

verus! {

/// Whose move it is and how the game stands, as reported to a caller.
#[derive(PartialEq, Eq, Structural, Clone, Copy, Debug)]
pub struct GameStatus {
    /// The player to move.
    pub turn: Turn,
    /// Whether the other player was just skipped for want of a legal move.
    pub pass: bool,
    /// Whether neither player can move any more.
    pub end: bool,
    /// The player with more discs once the game is over; `None` on a draw or
    /// while it goes on.
    pub winner: Option<Turn>,
}

/// A game in progress: the board, whose move it is, and whether the game has
/// ended.
#[derive(PartialEq, Eq, Clone, Copy, Debug)]
pub struct Game {
    board: BitBoard,
    turn: Turn,
    pass: bool,
    end: bool,
    winner: Option<Turn>,
}

impl Game {
    #[verifier::type_invariant]
    spec fn inv(self) -> bool {
        &&& self.end == self.board.is_end_spec()
        &&& self.winner == self.board.winner_spec()
        &&& !self.end ==> self.board.legal(self.turn) != 0
        &&& self.pass ==> !self.end
    }

    /// The board.
    pub closed spec fn board_spec(self) -> BitBoard {
        self.board
    }

    /// The player to move.
    pub closed spec fn turn_spec(self) -> Turn {
        self.turn
    }

    /// Whether the last move skipped the other player.
    pub closed spec fn pass_spec(self) -> bool {
        self.pass
    }

    /// Whether the game is over.
    pub closed spec fn end_spec(self) -> bool {
        self.end
    }

    /// The winner of a finished game.
    pub closed spec fn winner_spec(self) -> Option<Turn> {
        self.winner
    }

    /// Whether this game stands as it must once `board` is reached with `mover`
    /// having just moved (or, for a fresh game, with Black about to move, when
    /// `mover` is White): over if neither player can move; else the other player
    /// moves if able, and `mover` moves again, with a pass, if not.
    pub open spec fn settled_after(self, board: BitBoard, mover: Turn) -> bool {
        &&& self.board_spec() == board
        &&& self.end_spec() == board.is_end_spec()
        &&& self.winner_spec() == board.winner_spec()
        &&& board.is_end_spec() ==> self.turn_spec() == mover.opposite_spec() && !self.pass_spec()
        &&& !board.is_end_spec() && board.legal(mover.opposite_spec()) != 0 ==> self.turn_spec()
            == mover.opposite_spec() && !self.pass_spec()
        &&& !board.is_end_spec() && board.legal(mover.opposite_spec()) == 0 ==> self.turn_spec()
            == mover && self.pass_spec()
    }

    /// The game state once `board` is reached with `mover` having just moved.
    fn change_turn(board: BitBoard, mover: Turn) -> (r: Game)
        ensures
            r.settled_after(board, mover),
    {
        let next = mover.opposite();
        if board.is_end() {
            Game { board, turn: next, pass: false, end: true, winner: board.get_winner() }
        } else if board.is_able_to_move(next) {
            Game { board, turn: next, pass: false, end: false, winner: None }
        } else {
            proof {
                assert(board.legal(mover) != 0) by {
                    assert(next.opposite_spec() == mover);
                }
            }
            Game { board, turn: mover, pass: true, end: false, winner: None }
        }
    }

    /// A game on `board` with Black to move; if Black cannot move White moves
    /// instead, and if neither can the game is already over.
    pub fn from(board: BitBoard) -> (r: Game)
        ensures
            r.settled_after(board, Turn::White),
    {
        Game::change_turn(board, Turn::White)
    }

    /// A new game from the standard starting position, Black to move.
    pub fn initial() -> (r: Game)
        ensures
            r.board_spec().black() == crate::bitboard::START_BLACK,
            r.board_spec().white() == crate::bitboard::START_WHITE,
            r.board_spec().legal(Turn::Black) == 0x0000_1020_0408_0000u64,
            r.board_spec().legal(Turn::White) == 0x0000_0804_2010_0000u64,
            r.turn_spec() == Turn::Black,
            !r.pass_spec(),
            !r.end_spec(),
            r.winner_spec() == None::<Turn>,
    {
        Game::from(BitBoard::new())
    }

    /// The board.
    pub fn board(&self) -> (r: BitBoard)
        ensures
            r == self.board_spec(),
            r.black() & r.white() == 0,
    {
        self.board.disjoint();
        self.board
    }

    /// Whose move it is, whether a pass just happened, whether the game is over
    /// and who won.
    pub fn status(&self) -> (r: GameStatus)
        ensures
            r.turn == self.turn_spec(),
            r.pass == self.pass_spec(),
            r.end == self.end_spec(),
            r.winner == self.winner_spec(),
    {
        GameStatus { turn: self.turn, pass: self.pass, end: self.end, winner: self.winner }
    }

    /// Whether `coordinate` is a legal move of `turn` on this game's board.
    pub fn is_legal(&self, coordinate: Coordinate, turn: Turn) -> (r: bool)
        ensures
            r == self.board_spec().legal_at(coordinate.index(), turn),
    {
        self.board.is_legal(coordinate, turn)
    }

    /// The number of discs of `turn`.
    pub fn count_disc(&self, turn: Turn) -> (r: u32)
        ensures
            r == popcount(self.board_spec().own(turn)),
    {
        self.board.count_disc(turn)
    }

    /// What every square shows to the player to move, in index order.
    pub fn to_vec(&self) -> (r: Vec<SquareState>)
        ensures
            r@.len() == 64,
            forall|i: int|
                0 <= i < 64 ==> r@[i] == self.board_spec().square_state(i, self.turn_spec()),
    {
        self.board.to_vec(self.turn)
    }

    /// Plays `coordinate` for the player to move. A square that is not one of
    /// that player's legal moves is refused with `IllegalMove`; otherwise the
    /// board takes the move and the turn passes on as `settled_after` says.
    pub fn move_disc(&self, coordinate: Coordinate) -> (r: Result<Game, GameError>)
        ensures
            r is Err <==> !self.board_spec().legal_at(coordinate.index(), self.turn_spec()),
            r is Err ==> r == Err::<Game, GameError>(GameError::IllegalMove),
            r matches Ok(g) ==> self.board_spec().is_move_result(
                coordinate.index(),
                self.turn_spec(),
                g.board_spec(),
            ) && g.settled_after(g.board_spec(), self.turn_spec()),
    {
        if !self.board.is_legal(coordinate, self.turn) {
            return Err(GameError::IllegalMove);
        }
        let board = self.board.move_disc(coordinate, self.turn);
        Ok(Game::change_turn(board, self.turn))
    }

    /// The evaluation for the player to move of the board after playing
    /// `coordinate`, or the least value if it is not a legal move.
    pub fn predict(&self, weights: &WeightTable, coordinate: Coordinate) -> (r: i16)
        ensures
            self.board_spec().legal_at(coordinate.index(), self.turn_spec()) ==> r
                == self.board_spec().predict_spec(coordinate.index(), self.turn_spec()),
            !self.board_spec().legal_at(coordinate.index(), self.turn_spec()) ==> r == i16::MIN,
    {
        if !self.board.is_legal(coordinate, self.turn) {
            return i16::MIN;
        }
        let board = self.board.move_disc(coordinate, self.turn);
        board.evaluate(weights, self.turn)
    }

    /// The legal move of the player to move whose resulting board evaluates
    /// best for that player, the lowest square among equals; `None` when the
    /// player has no legal move; the boards are scored with `weights`.
    pub fn search_with(&self, weights: &WeightTable) -> (r: Option<Coordinate>)
        ensures
            r is None <==> forall|i: int|
                0 <= i < 64 ==> !self.board_spec().legal_at(i, self.turn_spec()),
            r matches Some(c) ==> {
                &&& self.board_spec().legal_at(c.index(), self.turn_spec())
                &&& forall|j: int|
                    0 <= j < 64 && self.board_spec().legal_at(j, self.turn_spec()) ==> (
                    #[trigger] self.board_spec().predict_spec(j, self.turn_spec()))
                        <= self.board_spec().predict_spec(c.index(), self.turn_spec())
                &&& forall|j: int|
                    0 <= j < c.index() && self.board_spec().legal_at(j, self.turn_spec()) ==> (
                    #[trigger] self.board_spec().predict_spec(j, self.turn_spec()))
                        < self.board_spec().predict_spec(c.index(), self.turn_spec())
            },
    {
        let ghost board = self.board_spec();
        let ghost turn = self.turn_spec();
        let mut best: Option<Coordinate> = None;
        let mut max: i16 = i16::MIN;
        let mut i: u8 = 0;
        while i < 64
            invariant
                i <= 64,
                board == self.board_spec(),
                turn == self.turn_spec(),
                best is None ==> forall|j: int| 0 <= j < i ==> !board.legal_at(j, turn),
                best matches Some(c) ==> {
                    &&& 0 <= c.index() < i
                    &&& board.legal_at(c.index(), turn)
                    &&& board.predict_spec(c.index(), turn) == max
                    &&& forall|j: int|
                        0 <= j < i && board.legal_at(j, turn) ==> (#[trigger] board.predict_spec(
                            j,
                            turn,
                        )) <= max
                    &&& forall|j: int|
                        0 <= j < c.index() && board.legal_at(j, turn) ==> (
                        #[trigger] board.predict_spec(j, turn)) < max
                },
            decreases 64 - i,
        {
            let coordinate = Coordinate::new(i);
            if self.board.is_legal(coordinate, self.turn) {
                let score = self.predict(weights, coordinate);
                if best.is_none() || score > max {
                    max = score;
                    best = Some(coordinate);
                }
            }
            i = i + 1;
        }
        best
    }

    /// The legal move of the player to move whose resulting board evaluates
    /// best for that player, the lowest square among equals; `None` when the
    /// player has no legal move. Builds a fresh weight table; a caller that
    /// searches repeatedly keeps one table and calls `search_with`.
    pub fn search(&self) -> (r: Option<Coordinate>)
        ensures
            r is None <==> forall|i: int|
                0 <= i < 64 ==> !self.board_spec().legal_at(i, self.turn_spec()),
            r matches Some(c) ==> {
                &&& self.board_spec().legal_at(c.index(), self.turn_spec())
                &&& forall|j: int|
                    0 <= j < 64 && self.board_spec().legal_at(j, self.turn_spec()) ==> (
                    #[trigger] self.board_spec().predict_spec(j, self.turn_spec()))
                        <= self.board_spec().predict_spec(c.index(), self.turn_spec())
                &&& forall|j: int|
                    0 <= j < c.index() && self.board_spec().legal_at(j, self.turn_spec()) ==> (
                    #[trigger] self.board_spec().predict_spec(j, self.turn_spec()))
                        < self.board_spec().predict_spec(c.index(), self.turn_spec())
            },
    {
        let weights = pre_compute_weight();
        self.search_with(&weights)
    }
}

} // verus!
