use vstd::prelude::*;
use crate::bits::{
    count_bits, lemma_and_commutes, lemma_popcount_remove, lemma_popcount_square,
    lemma_popcount_positive, lemma_popcount_union, lemma_zero_iff_no_square, popcount,
};
use crate::coordinate::{has_square, square_mask, Coordinate};
use crate::direction::Direction;
use crate::turn::Turn;
use crate::weights::{lemma_row_split, lemma_score_below_bounds, score, score_below, WeightTable};

verus! {

/// One step of ray growth: `acc` together with the squares of `m` one step
/// beyond it in direction `d`.
pub open spec fn extend(acc: u64, m: u64, d: Direction) -> u64 {
    acc | (m & d.shift_spec(acc))
}

/// The opponent discs reachable from `own` in direction `d` by an unbroken line
/// of opponent discs that stays clear of the edges across `d`. Six steps cover
/// the longest line that fits between two squares of a row.
pub open spec fn ray(own: u64, opp: u64, d: Direction) -> u64 {
    let m = opp & d.mask_spec();
    let first = m & d.shift_spec(own);
    extend(extend(extend(extend(extend(first, m, d), m, d), m, d), m, d), m, d)
}

/// The discs captured in direction `d` by a disc placed on `moved`: the line of
/// opponent discs from `moved`, kept only if one step beyond it there is a disc
/// of the mover's.
pub open spec fn bracketed(own: u64, opp: u64, moved: u64, d: Direction) -> u64 {
    let r = ray(moved, opp, d);
    if own & d.shift_spec(r) != 0 {
        r
    } else {
        0
    }
}

/// The discs captured by a disc placed on `moved`, over all eight directions.
pub open spec fn flips(own: u64, opp: u64, moved: u64) -> u64 {
    bracketed(own, opp, moved, Direction::Up) | bracketed(own, opp, moved, Direction::Down)
        | bracketed(own, opp, moved, Direction::Left) | bracketed(own, opp, moved, Direction::Right)
        | bracketed(own, opp, moved, Direction::UpLeft) | bracketed(own, opp, moved, Direction::UpRight)
        | bracketed(own, opp, moved, Direction::DownLeft) | bracketed(own, opp, moved, Direction::DownRight)
}

/// The squares one step beyond a line of opponent discs that starts at one of
/// the mover's discs, in direction `d`.
pub open spec fn reach(own: u64, opp: u64, d: Direction) -> u64 {
    d.shift_spec(ray(own, opp, d))
}

/// `reach` over all eight directions.
pub open spec fn reach_all(own: u64, opp: u64) -> u64 {
    reach(own, opp, Direction::Up) | reach(own, opp, Direction::Down)
        | reach(own, opp, Direction::Left) | reach(own, opp, Direction::Right)
        | reach(own, opp, Direction::UpLeft) | reach(own, opp, Direction::UpRight)
        | reach(own, opp, Direction::DownLeft) | reach(own, opp, Direction::DownRight)
}

/// The legal moves of the player holding `own` against `opp`: the empty squares
/// that close a line of opponent discs started at one of the player's discs.
pub open spec fn legal_moves(own: u64, opp: u64) -> u64 {
    !(own | opp) & reach_all(own, opp)
}

/// What a square shows to the player to move.
#[derive(PartialEq, Eq, Structural, Clone, Copy, Debug)]
pub enum SquareState {
    Black,
    White,
    /// An empty square where the player to move may play, capturing this many discs.
    Legal(u32),
    Empty,
}

/// The positions of both players' discs and the legal moves of each.
#[derive(PartialEq, Eq, Clone, Copy, Debug)]
pub struct BitBoard {
    board_black: u64,
    board_white: u64,
    legal_black: u64,
    legal_white: u64,
}

/// Black's starting discs: the two center squares of one diagonal.
pub const START_BLACK: u64 = 0x0000_0008_1000_0000;

/// White's starting discs: the two center squares of the other diagonal.
pub const START_WHITE: u64 = 0x0000_0010_0800_0000;

impl BitBoard {
    #[verifier::type_invariant]
    spec fn inv(self) -> bool {
        &&& self.board_black & self.board_white == 0
        &&& self.legal_black == legal_moves(self.board_black, self.board_white)
        &&& self.legal_white == legal_moves(self.board_white, self.board_black)
    }

    /// Black's discs.
    pub closed spec fn black(self) -> u64 {
        self.board_black
    }

    /// White's discs.
    pub closed spec fn white(self) -> u64 {
        self.board_white
    }

    /// The discs of `turn`.
    pub open spec fn own(self, turn: Turn) -> u64 {
        match turn {
            Turn::Black => self.black(),
            Turn::White => self.white(),
        }
    }

    /// The discs of the opponent of `turn`.
    pub open spec fn opp(self, turn: Turn) -> u64 {
        self.own(turn.opposite_spec())
    }

    /// The legal moves of `turn`.
    pub open spec fn legal(self, turn: Turn) -> u64 {
        legal_moves(self.own(turn), self.opp(turn))
    }

    /// Whether square `i` is a legal move of `turn`.
    pub open spec fn legal_at(self, i: int, turn: Turn) -> bool {
        has_square(self.legal(turn), i)
    }

    /// Whether neither player has a legal move.
    pub open spec fn is_end_spec(self) -> bool {
        self.legal(Turn::Black) == 0 && self.legal(Turn::White) == 0
    }

    /// The discs `turn` captures by playing square `i`.
    pub open spec fn flips_at(self, i: int, turn: Turn) -> u64 {
        flips(self.own(turn), self.opp(turn), square_mask(i))
    }

    /// The mover's discs after `turn` plays square `i`.
    pub open spec fn own_after(self, i: int, turn: Turn) -> u64 {
        self.own(turn) | square_mask(i) | self.flips_at(i, turn)
    }

    /// The opponent's discs after `turn` plays square `i`.
    pub open spec fn opp_after(self, i: int, turn: Turn) -> u64 {
        self.opp(turn) ^ self.flips_at(i, turn)
    }

    /// Whether `next` is this board after `turn` plays square `i`.
    pub open spec fn is_move_result(self, i: int, turn: Turn, next: BitBoard) -> bool {
        next.own(turn) == self.own_after(i, turn) && next.opp(turn) == self.opp_after(i, turn)
    }

    /// The evaluation for `turn` of the board after `turn` plays square `i`.
    pub open spec fn predict_spec(self, i: int, turn: Turn) -> int {
        score(self.own_after(i, turn)) - score(self.opp_after(i, turn))
    }

    /// What square `i` shows to `turn`.
    pub open spec fn square_state(self, i: int, turn: Turn) -> SquareState {
        if has_square(self.black(), i) {
            SquareState::Black
        } else if has_square(self.white(), i) {
            SquareState::White
        } else if self.legal_at(i, turn) {
            SquareState::Legal(popcount(self.flips_at(i, turn)) as u32)
        } else {
            SquareState::Empty
        }
    }

    /// The winner of a finished game: the player with strictly more discs.
    pub open spec fn winner_spec(self) -> Option<Turn> {
        if !self.is_end_spec() {
            None
        } else if popcount(self.black()) > popcount(self.white()) {
            Some(Turn::Black)
        } else if popcount(self.black()) < popcount(self.white()) {
            Some(Turn::White)
        } else {
            None
        }
    }

    /// The positional evaluation of the board for `turn`: the score of its discs
    /// less the score of the opponent's.
    pub open spec fn evaluate_spec(self, turn: Turn) -> int {
        score(self.own(turn)) - score(self.opp(turn))
    }

    /// Casts a ray from each disc of `own` through the discs of `opponent` in
    /// direction `direction`.
    fn lookup(own: u64, opponent: u64, direction: Direction) -> (r: u64)
        ensures
            r == ray(own, opponent, direction),
    {
        let mask = opponent & direction.to_mask();
        let mut result = mask & direction.to_shift(own);
        result = result | (mask & direction.to_shift(result));
        result = result | (mask & direction.to_shift(result));
        result = result | (mask & direction.to_shift(result));
        result = result | (mask & direction.to_shift(result));
        result = result | (mask & direction.to_shift(result));
        result
    }

    /// The discs captured in `direction` by a disc placed on `moved`.
    fn bracket(own: u64, opponent: u64, moved: u64, direction: Direction) -> (r: u64)
        ensures
            r == bracketed(own, opponent, moved, direction),
    {
        let result = BitBoard::lookup(moved, opponent, direction);
        if own & direction.to_shift(result) == 0 {
            0
        } else {
            result
        }
    }

    /// The discs captured by a disc placed on `moved`.
    fn capture(own: u64, opponent: u64, moved: u64) -> (r: u64)
        ensures
            r == flips(own, opponent, moved),
    {
        let mut result = BitBoard::bracket(own, opponent, moved, Direction::Up);
        result = result | BitBoard::bracket(own, opponent, moved, Direction::Down);
        result = result | BitBoard::bracket(own, opponent, moved, Direction::Left);
        result = result | BitBoard::bracket(own, opponent, moved, Direction::Right);
        result = result | BitBoard::bracket(own, opponent, moved, Direction::UpLeft);
        result = result | BitBoard::bracket(own, opponent, moved, Direction::UpRight);
        result = result | BitBoard::bracket(own, opponent, moved, Direction::DownLeft);
        result = result | BitBoard::bracket(own, opponent, moved, Direction::DownRight);
        result
    }

    /// The legal moves of the player holding `own` against `opponent`.
    fn make_legal_board(own: u64, opponent: u64) -> (r: u64)
        ensures
            r == legal_moves(own, opponent),
    {
        let blank = !(own | opponent);
        let mut result = Direction::Up.to_shift(BitBoard::lookup(own, opponent, Direction::Up));
        result = result | Direction::Down.to_shift(BitBoard::lookup(own, opponent, Direction::Down));
        result = result | Direction::Left.to_shift(BitBoard::lookup(own, opponent, Direction::Left));
        result = result | Direction::Right.to_shift(BitBoard::lookup(own, opponent, Direction::Right));
        result = result | Direction::UpLeft.to_shift(
            BitBoard::lookup(own, opponent, Direction::UpLeft),
        );
        result = result | Direction::UpRight.to_shift(
            BitBoard::lookup(own, opponent, Direction::UpRight),
        );
        result = result | Direction::DownLeft.to_shift(
            BitBoard::lookup(own, opponent, Direction::DownLeft),
        );
        result = result | Direction::DownRight.to_shift(
            BitBoard::lookup(own, opponent, Direction::DownRight),
        );
        blank & result
    }

    /// The board with the given discs and the legal moves they leave each player.
    fn from_discs(black: u64, white: u64) -> (r: BitBoard)
        requires
            black & white == 0,
        ensures
            r.black() == black,
            r.white() == white,
    {
        BitBoard {
            board_black: black,
            board_white: white,
            legal_black: BitBoard::make_legal_board(black, white),
            legal_white: BitBoard::make_legal_board(white, black),
        }
    }

    /// The standard starting position.
    pub fn new() -> (r: BitBoard)
        ensures
            r.black() == START_BLACK,
            r.white() == START_WHITE,
            r.black() & r.white() == 0,
            r.legal(Turn::Black) == 0x0000_1020_0408_0000u64,
            r.legal(Turn::White) == 0x0000_0804_2010_0000u64,
    {
        assert(START_BLACK & START_WHITE == 0) by (bit_vector);
        assert(legal_moves(START_BLACK, START_WHITE) == 0x0000_1020_0408_0000u64) by (bit_vector);
        assert(legal_moves(START_WHITE, START_BLACK) == 0x0000_0804_2010_0000u64) by (bit_vector);
        BitBoard::from_discs(START_BLACK, START_WHITE)
    }

    /// The two players' discs never share a square.
    pub(crate) fn disjoint(&self)
        ensures
            self.black() & self.white() == 0,
    {
        proof {
            use_type_invariant(self);
        }
    }

    /// The discs `turn` would capture by playing `coordinate`.
    fn enumerate_flip(&self, coordinate: Coordinate, turn: Turn) -> (r: u64)
        ensures
            r == self.flips_at(coordinate.index(), turn),
    {
        let moved = coordinate.to_mask();
        match turn {
            Turn::Black => BitBoard::capture(self.board_black, self.board_white, moved),
            Turn::White => BitBoard::capture(self.board_white, self.board_black, moved),
        }
    }

    /// Plays `coordinate` for `turn`, which must be one of its legal moves: the
    /// square and every captured disc become the mover's, and the legal moves of
    /// both players are recomputed.
    pub fn move_disc(&self, coordinate: Coordinate, turn: Turn) -> (r: BitBoard)
        requires
            self.legal_at(coordinate.index(), turn),
        ensures
            self.is_move_result(coordinate.index(), turn, r),
            r.evaluate_spec(turn) == self.predict_spec(coordinate.index(), turn),
            r.black() & r.white() == 0,
            popcount(r.own(turn)) == popcount(self.own(turn)) + popcount(
                self.flips_at(coordinate.index(), turn),
            ) + 1,
            popcount(r.opp(turn)) == popcount(self.opp(turn)) - popcount(
                self.flips_at(coordinate.index(), turn),
            ),
            popcount(r.black()) + popcount(r.white()) == popcount(self.black()) + popcount(
                self.white(),
            ) + 1,
    {
        proof {
            use_type_invariant(self);
        }
        let moved = coordinate.to_mask();
        let flip = self.enumerate_flip(coordinate, turn);
        let ghost own = self.own(turn);
        let ghost opp = self.opp(turn);
        proof {
            lemma_and_commutes(own, opp);
            lemma_legal_square_empty(
                (63 - coordinate.index()) as u64,
                own,
                opp,
                reach_all(own, opp),
            );
            lemma_and_commutes(own, moved);
            lemma_and_commutes(opp, moved);
            lemma_move_disjoint(own, opp, coordinate.index(), flip);
        }
        match turn {
            Turn::Black => BitBoard::from_discs(self.board_black | moved | flip, self.board_white ^ flip),
            Turn::White => BitBoard::from_discs(self.board_black ^ flip, self.board_white | moved | flip),
        }
    }

    /// Whether `coordinate` is a legal move of `turn`.
    pub fn is_legal(&self, coordinate: Coordinate, turn: Turn) -> (r: bool)
        ensures
            r == self.legal_at(coordinate.index(), turn),
    {
        proof {
            use_type_invariant(self);
        }
        let mask = coordinate.to_mask();
        match turn {
            Turn::Black => self.legal_black & mask != 0,
            Turn::White => self.legal_white & mask != 0,
        }
    }

    /// Whether neither player has a legal move.
    pub fn is_end(&self) -> (r: bool)
        ensures
            r == self.is_end_spec(),
    {
        proof {
            use_type_invariant(self);
        }
        self.legal_black == 0 && self.legal_white == 0
    }

    /// Whether `turn` has a legal move.
    pub fn is_able_to_move(&self, turn: Turn) -> (r: bool)
        ensures
            r == (self.legal(turn) != 0),
    {
        proof {
            use_type_invariant(self);
        }
        match turn {
            Turn::Black => self.legal_black != 0,
            Turn::White => self.legal_white != 0,
        }
    }

    /// The number of discs of `turn`.
    pub fn count_disc(&self, turn: Turn) -> (r: u32)
        ensures
            r == popcount(self.own(turn)),
    {
        match turn {
            Turn::Black => count_bits(self.board_black),
            Turn::White => count_bits(self.board_white),
        }
    }

    /// The winner once neither player can move: the one with more discs, or
    /// `None` on a draw or while the game goes on.
    pub fn get_winner(&self) -> (r: Option<Turn>)
        ensures
            r == self.winner_spec(),
    {
        if !self.is_end() {
            return None;
        }
        let black_count = count_bits(self.board_black);
        let white_count = count_bits(self.board_white);
        if black_count > white_count {
            Some(Turn::Black)
        } else if black_count < white_count {
            Some(Turn::White)
        } else {
            None
        }
    }

    /// Whether Black has a disc on `coordinate`.
    pub fn is_black(&self, coordinate: Coordinate) -> (r: bool)
        ensures
            r == has_square(self.black(), coordinate.index()),
    {
        self.board_black & coordinate.to_mask() != 0
    }

    /// Whether White has a disc on `coordinate`.
    pub fn is_white(&self, coordinate: Coordinate) -> (r: bool)
        ensures
            r == has_square(self.white(), coordinate.index()),
    {
        self.board_white & coordinate.to_mask() != 0
    }

    /// What `coordinate` shows to `turn`.
    pub fn get_square_state(&self, coordinate: Coordinate, turn: Turn) -> (r: SquareState)
        ensures
            r == self.square_state(coordinate.index(), turn),
    {
        if self.is_black(coordinate) {
            SquareState::Black
        } else if self.is_white(coordinate) {
            SquareState::White
        } else if self.is_legal(coordinate, turn) {
            SquareState::Legal(count_bits(self.enumerate_flip(coordinate, turn)))
        } else {
            SquareState::Empty
        }
    }

    /// What every square shows to `turn`, in index order.
    pub fn to_vec(&self, turn: Turn) -> (r: Vec<SquareState>)
        ensures
            r@.len() == 64,
            forall|i: int| 0 <= i < 64 ==> r@[i] == self.square_state(i, turn),
    {
        let mut states: Vec<SquareState> = Vec::new();
        let mut i: u8 = 0;
        while i < 64
            invariant
                i <= 64,
                states@.len() == i,
                forall|j: int| 0 <= j < i ==> states@[j] == self.square_state(j, turn),
            decreases 64 - i,
        {
            states.push(self.get_square_state(Coordinate::new(i), turn));
            i = i + 1;
        }
        states
    }

    /// The positional evaluation of the board for `turn`, row by row from `weights`.
    pub fn evaluate(&self, weights: &WeightTable, turn: Turn) -> (r: i16)
        ensures
            r == self.evaluate_spec(turn),
    {
        let board_black = self.board_black;
        let board_white = self.board_white;
        let mut black_score: i16 = 0;
        let mut white_score: i16 = 0;
        let mut row: usize = 0;
        while row < 8
            invariant
                row <= 8,
                board_black == self.black(),
                board_white == self.white(),
                black_score == score_below(board_black, 8 * row),
                white_score == score_below(board_white, 8 * row),
            decreases 8 - row,
        {
            proof {
                lemma_row_split(board_black, row as int);
                lemma_row_split(board_white, row as int);
                lemma_score_below_bounds(board_black, 8 * row + 8);
                lemma_score_below_bounds(board_white, 8 * row + 8);
            }
            let shift = (row * 8) as u64;
            let black = (board_black >> shift) & 0xffu64;
            let white = (board_white >> shift) & 0xffu64;
            assert(black < 256 && white < 256) by (bit_vector)
                requires
                    black == (board_black >> shift) & 0xffu64,
                    white == (board_white >> shift) & 0xffu64,
            ;
            black_score = black_score + weights.lookup(row, black);
            white_score = white_score + weights.lookup(row, white);
            row = row + 1;
        }
        proof {
            lemma_score_below_bounds(board_black, 64);
            lemma_score_below_bounds(board_white, 64);
        }
        match turn {
            Turn::Black => black_score - white_score,
            Turn::White => white_score - black_score,
        }
    }
}

proof fn lemma_within_ray_step(acc: u64, opp: u64, dm: u64, x: u64)
    by (bit_vector)
    ensures
        ((opp & dm) & x) & !(opp & dm) == 0,
        acc & !(opp & dm) == 0 ==> (acc | ((opp & dm) & x)) & !(opp & dm) == 0,
        acc & !(opp & dm) == 0 ==> acc & !opp == 0,
{
}

proof fn lemma_union_within(a: u64, c: u64, bound: u64)
    by (bit_vector)
    ensures
        a & !bound == 0 && c & !bound == 0 ==> (a | c) & !bound == 0,
        0u64 & !bound == 0,
{
}

/// A ray only runs over the opponent's discs.
pub proof fn lemma_ray_within(own: u64, opp: u64, d: Direction)
    ensures
        ray(own, opp, d) & !opp == 0,
{
    let m = opp & d.mask_spec();
    let r1 = m & d.shift_spec(own);
    lemma_within_ray_step(0, opp, d.mask_spec(), d.shift_spec(own));
    let r2 = extend(r1, m, d);
    lemma_within_ray_step(r1, opp, d.mask_spec(), d.shift_spec(r1));
    let r3 = extend(r2, m, d);
    lemma_within_ray_step(r2, opp, d.mask_spec(), d.shift_spec(r2));
    let r4 = extend(r3, m, d);
    lemma_within_ray_step(r3, opp, d.mask_spec(), d.shift_spec(r3));
    let r5 = extend(r4, m, d);
    lemma_within_ray_step(r4, opp, d.mask_spec(), d.shift_spec(r4));
    let r6 = extend(r5, m, d);
    lemma_within_ray_step(r5, opp, d.mask_spec(), d.shift_spec(r5));
    lemma_within_ray_step(r6, opp, d.mask_spec(), 0);
}

/// Only the opponent's discs are captured.
pub proof fn lemma_flips_within(own: u64, opp: u64, moved: u64)
    ensures
        flips(own, opp, moved) & !opp == 0,
{
    lemma_ray_within(moved, opp, Direction::Up);
    lemma_ray_within(moved, opp, Direction::Down);
    lemma_ray_within(moved, opp, Direction::Left);
    lemma_ray_within(moved, opp, Direction::Right);
    lemma_ray_within(moved, opp, Direction::UpLeft);
    lemma_ray_within(moved, opp, Direction::UpRight);
    lemma_ray_within(moved, opp, Direction::DownLeft);
    lemma_ray_within(moved, opp, Direction::DownRight);
    let b1 = bracketed(own, opp, moved, Direction::Up);
    let b2 = bracketed(own, opp, moved, Direction::Down);
    let b3 = bracketed(own, opp, moved, Direction::Left);
    let b4 = bracketed(own, opp, moved, Direction::Right);
    let b5 = bracketed(own, opp, moved, Direction::UpLeft);
    let b6 = bracketed(own, opp, moved, Direction::UpRight);
    let b7 = bracketed(own, opp, moved, Direction::DownLeft);
    let b8 = bracketed(own, opp, moved, Direction::DownRight);
    lemma_union_within(0, 0, opp);
    lemma_union_within(b1, b2, opp);
    lemma_union_within(b1 | b2, b3, opp);
    lemma_union_within(b1 | b2 | b3, b4, opp);
    lemma_union_within(b1 | b2 | b3 | b4, b5, opp);
    lemma_union_within(b1 | b2 | b3 | b4 | b5, b6, opp);
    lemma_union_within(b1 | b2 | b3 | b4 | b5 | b6, b7, opp);
    lemma_union_within(b1 | b2 | b3 | b4 | b5 | b6 | b7, b8, opp);
}

proof fn lemma_legal_square_empty(k: u64, own: u64, opp: u64, reached: u64)
    by (bit_vector)
    requires
        k < 64,
        (!(own | opp) & reached) & (1u64 << k) != 0,
    ensures
        (1u64 << k) & (own | opp) == 0,
        (1u64 << k) & own == 0,
        (1u64 << k) & opp == 0,
{
}

proof fn lemma_move_bits(own: u64, opp: u64, moved: u64, flip: u64)
    by (bit_vector)
    requires
        own & opp == 0,
        moved & own == 0,
        moved & opp == 0,
        flip & !opp == 0,
    ensures
        (own | moved | flip) & (opp ^ flip) == 0,
        (opp ^ flip) & (own | moved | flip) == 0,
        own & moved == 0,
        (own | moved) & flip == 0,
{
}

/// Playing a legal square keeps the two players' discs apart, and moves exactly
/// the played square and the captured discs to the mover.
proof fn lemma_move_disjoint(own: u64, opp: u64, i: int, flip: u64)
    requires
        own & opp == 0,
        0 <= i < 64,
        !has_square(own, i),
        !has_square(opp, i),
        flip == flips(own, opp, square_mask(i)),
    ensures
        (own | square_mask(i) | flip) & (opp ^ flip) == 0,
        (opp ^ flip) & (own | square_mask(i) | flip) == 0,
        popcount(own | square_mask(i) | flip) == popcount(own) + popcount(flip) + 1,
        popcount(opp ^ flip) == popcount(opp) - popcount(flip),
{
    let moved = square_mask(i);
    lemma_and_commutes(own, moved);
    lemma_and_commutes(opp, moved);
    lemma_flips_within(own, opp, moved);
    lemma_move_bits(own, opp, moved, flip);
    lemma_popcount_union(own, moved);
    lemma_popcount_square(i);
    lemma_popcount_union(own | moved, flip);
    lemma_popcount_remove(opp, flip);
}

/// Evaluation is antisymmetric: a board is worth to Black exactly what it
/// costs White.
pub proof fn lemma_evaluate_antisymmetric(board: BitBoard)
    ensures
        board.evaluate_spec(Turn::Black) == -board.evaluate_spec(Turn::White),
{
}

/// The game is over exactly when a scan of all 64 squares finds no legal move
/// for either player.
pub proof fn lemma_end_iff_full_scan(board: BitBoard)
    ensures
        board.is_end_spec() <==> forall|i: int|
            0 <= i < 64 ==> !board.legal_at(i, Turn::Black) && !board.legal_at(i, Turn::White),
{
    let lb = board.legal(Turn::Black);
    let lw = board.legal(Turn::White);
    lemma_zero_iff_no_square(lb);
    lemma_zero_iff_no_square(lw);
    if forall|i: int| 0 <= i < 64 ==> !board.legal_at(i, Turn::Black) && !board.legal_at(i, Turn::White) {
        assert forall|i: int| 0 <= i < 64 implies !#[trigger] has_square(lb, i) by {
            assert(!board.legal_at(i, Turn::Black));
        }
        assert forall|i: int| 0 <= i < 64 implies !#[trigger] has_square(lw, i) by {
            assert(!board.legal_at(i, Turn::White));
        }
    }
}

/// Placing a disc on an empty square and capturing `k` discs gives the mover
/// `k + 1` more discs, takes `k` from the opponent, adds exactly one disc to the
/// board, and leaves the two players' discs apart. Every legal move is on an
/// empty square (`lemma_legal_on_empty`).
pub proof fn lemma_move_counts(board: BitBoard, i: int, turn: Turn, next: BitBoard)
    requires
        board.black() & board.white() == 0,
        0 <= i < 64,
        !has_square(board.black(), i),
        !has_square(board.white(), i),
        board.is_move_result(i, turn, next),
    ensures
        popcount(next.own(turn)) == popcount(board.own(turn)) + popcount(board.flips_at(i, turn)) + 1,
        popcount(next.opp(turn)) == popcount(board.opp(turn)) - popcount(board.flips_at(i, turn)),
        popcount(next.black()) + popcount(next.white()) == popcount(board.black()) + popcount(
            board.white(),
        ) + 1,
        next.black() & next.white() == 0,
{
    let own = board.own(turn);
    let opp = board.opp(turn);
    lemma_and_commutes(own, opp);
    lemma_and_commutes(next.own(turn), next.opp(turn));
    lemma_move_disjoint(own, opp, i, board.flips_at(i, turn));
}

proof fn lemma_blank_part(own: u64, opp: u64, reached: u64)
    by (bit_vector)
    ensures
        (!(own | opp) & reached) & (own | opp) == 0,
        own | opp == opp | own,
{
}

/// Legal moves lie on empty squares only.
pub proof fn lemma_legal_on_empty(board: BitBoard, turn: Turn)
    ensures
        board.legal(turn) & (board.black() | board.white()) == 0,
{
    let own = board.own(turn);
    let opp = board.opp(turn);
    lemma_blank_part(own, opp, reach_all(own, opp));
}

proof fn lemma_reach_iff_bracketed(own: u64, opp: u64, t: u64, k: u64)
    by (bit_vector)
    requires
        k < 64,
        t == 1u64 << k,
        own & opp == 0,
        t & own == 0,
        t & opp == 0,
    ensures
        (reach(own, opp, Direction::Up) & t != 0) == (bracketed(own, opp, t, Direction::Down) != 0),
        (reach(own, opp, Direction::Down) & t != 0) == (bracketed(own, opp, t, Direction::Up) != 0),
        (reach(own, opp, Direction::Left) & t != 0) == (bracketed(own, opp, t, Direction::Right) != 0),
        (reach(own, opp, Direction::Right) & t != 0) == (bracketed(own, opp, t, Direction::Left) != 0),
        (reach(own, opp, Direction::UpLeft) & t != 0) == (bracketed(own, opp, t, Direction::DownRight) != 0),
        (reach(own, opp, Direction::UpRight) & t != 0) == (bracketed(own, opp, t, Direction::DownLeft) != 0),
        (reach(own, opp, Direction::DownLeft) & t != 0) == (bracketed(own, opp, t, Direction::UpRight) != 0),
        (reach(own, opp, Direction::DownRight) & t != 0) == (bracketed(own, opp, t, Direction::UpLeft) != 0),
{
}

proof fn lemma_union_meets(t: u64, a1: u64, a2: u64, a3: u64, a4: u64, a5: u64, a6: u64, a7: u64, a8: u64)
    by (bit_vector)
    ensures
        ((a1 | a2 | a3 | a4 | a5 | a6 | a7 | a8) & t != 0) == (a1 & t != 0 || a2 & t != 0
            || a3 & t != 0 || a4 & t != 0 || a5 & t != 0 || a6 & t != 0 || a7 & t != 0 || a8 & t
            != 0),
        ((a1 | a2 | a3 | a4 | a5 | a6 | a7 | a8) != 0) == (a1 != 0 || a2 != 0 || a3 != 0 || a4
            != 0 || a5 != 0 || a6 != 0 || a7 != 0 || a8 != 0),
{
}

proof fn lemma_empty_square_meets(own: u64, opp: u64, reached: u64, t: u64)
    by (bit_vector)
    requires
        t & own == 0,
        t & opp == 0,
    ensures
        ((!(own | opp) & reached) & t != 0) == (reached & t != 0),
{
}

/// An empty square is a legal move exactly when playing it captures at least
/// one disc.
pub proof fn lemma_legal_iff_flips(board: BitBoard, i: int, turn: Turn)
    requires
        board.black() & board.white() == 0,
        0 <= i < 64,
        !has_square(board.black(), i),
        !has_square(board.white(), i),
    ensures
        board.legal_at(i, turn) <==> board.flips_at(i, turn) != 0,
{
    let own = board.own(turn);
    let opp = board.opp(turn);
    let t = square_mask(i);
    lemma_and_commutes(own, opp);
    lemma_and_commutes(board.black(), t);
    lemma_and_commutes(board.white(), t);
    lemma_reach_iff_bracketed(own, opp, t, (63 - i) as u64);
    lemma_empty_square_meets(own, opp, reach_all(own, opp), t);
    lemma_union_meets(
        t,
        reach(own, opp, Direction::Up),
        reach(own, opp, Direction::Down),
        reach(own, opp, Direction::Left),
        reach(own, opp, Direction::Right),
        reach(own, opp, Direction::UpLeft),
        reach(own, opp, Direction::UpRight),
        reach(own, opp, Direction::DownLeft),
        reach(own, opp, Direction::DownRight),
    );
    lemma_union_meets(
        t,
        bracketed(own, opp, t, Direction::Up),
        bracketed(own, opp, t, Direction::Down),
        bracketed(own, opp, t, Direction::Left),
        bracketed(own, opp, t, Direction::Right),
        bracketed(own, opp, t, Direction::UpLeft),
        bracketed(own, opp, t, Direction::UpRight),
        bracketed(own, opp, t, Direction::DownLeft),
        bracketed(own, opp, t, Direction::DownRight),
    );
}

/// Every legal move captures at least one disc, so a `Legal(n)` square always
/// has `n >= 1`.
pub proof fn lemma_legal_square_captures(board: BitBoard, i: int, turn: Turn)
    requires
        board.black() & board.white() == 0,
        0 <= i < 64,
        board.legal_at(i, turn),
    ensures
        board.flips_at(i, turn) != 0,
        popcount(board.flips_at(i, turn)) >= 1,
{
    let own = board.own(turn);
    let opp = board.opp(turn);
    let t = square_mask(i);
    lemma_legal_square_empty((63 - i) as u64, own, opp, reach_all(own, opp));
    lemma_and_commutes(board.black(), t);
    lemma_and_commutes(board.white(), t);
    lemma_legal_iff_flips(board, i, turn);
    lemma_popcount_positive(board.flips_at(i, turn));
}

} // verus!
