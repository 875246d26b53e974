use super::piece_type::PieceType;
use crate::board::chess_board::{path_clear, piece_on, ChessBoard};
use vstd::math::abs;
use vstd::prelude::*;

verus! {

/// The two sides of a game.
#[derive(Clone, Copy, PartialEq, Eq, Debug, Structural)]
pub enum PieceColor {
    White,
    Black,
}

/// A piece: what it is and whose it is. Pieces are values; a square's piece
/// is replaced or removed, never changed in place.
#[derive(Clone, Copy, Debug, PartialEq, Eq, Structural)]
pub struct Piece {
    pub piece_type: PieceType,
    pub color: PieceColor,
}

/// Whether a (row, column) pair names one of the 64 squares. Row 0 is Black's
/// back rank, row 7 is White's; columns 0 to 7 are the files a to h.
pub open spec fn on_board(sq: (int, int)) -> bool {
    0 <= sq.0 < 8 && 0 <= sq.1 < 8
}

/// A pair of machine integers read as a (row, column) pair of mathematical
/// integers.
pub open spec fn coords(sq: (i32, i32)) -> (int, int) {
    (sq.0 as int, sq.1 as int)
}

/// A displacement along a diagonal, at most seven squares long.
pub open spec fn diagonal_step(dr: int, dc: int) -> bool {
    dr != 0 && abs(dr) <= 7 && abs(dr) == abs(dc)
}

/// A displacement along a rank or a file, at most seven squares long.
pub open spec fn straight_step(dr: int, dc: int) -> bool {
    ||| dr == 0 && dc != 0 && abs(dc) <= 7
    ||| dc == 0 && dr != 0 && abs(dr) <= 7
}

/// A knight's jump.
pub open spec fn knight_step(dr: int, dc: int) -> bool {
    ||| abs(dr) == 1 && abs(dc) == 2
    ||| abs(dr) == 2 && abs(dc) == 1
}

/// A step to one of the eight neighbouring squares.
pub open spec fn king_step(dr: int, dc: int) -> bool {
    abs(dr) <= 1 && abs(dc) <= 1 && !(dr == 0 && dc == 0)
}

impl PieceColor {
    /// The row direction in which this side's pawns advance.
    pub open spec fn forward(self) -> int {
        match self {
            PieceColor::White => -1,
            PieceColor::Black => 1,
        }
    }

    /// The row on which this side's pawns start.
    pub open spec fn pawn_row(self) -> int {
        match self {
            PieceColor::White => 6,
            PieceColor::Black => 1,
        }
    }

    /// The other side.
    pub open spec fn spec_opponent(self) -> PieceColor {
        match self {
            PieceColor::White => PieceColor::Black,
            PieceColor::Black => PieceColor::White,
        }
    }

    /// The other side.
    #[verifier::when_used_as_spec(spec_opponent)]
    pub fn opponent(self) -> (other: PieceColor)
        ensures
            other == self.spec_opponent(),
    {
        match self {
            PieceColor::White => PieceColor::Black,
            PieceColor::Black => PieceColor::White,
        }
    }
}

/// Appends (row, col) to `moves` when it lies on the board, and leaves
/// `moves` alone when it does not.
fn push_if_on_board(moves: &mut Vec<(i32, i32)>, row: i64, col: i64)
    ensures
        on_board((row as int, col as int)) ==> final(moves)@ == old(moves)@.push(
            (row as i32, col as i32),
        ),
        !on_board((row as int, col as int)) ==> final(moves)@ == old(moves)@,
        forall|x: (i32, i32)| #[trigger]
            final(moves)@.contains(x) <==> old(moves)@.contains(x) || (on_board(
                (row as int, col as int),
            ) && coords(x) == (row as int, col as int)),
        old(moves)@.no_duplicates() && !old(moves)@.contains((row as i32, col as i32))
            ==> final(moves)@.no_duplicates(),
{
    if 0 <= row && row < 8 && 0 <= col && col < 8 {
        let sq = (row as i32, col as i32);
        moves.push(sq);
        proof {
            let before = old(moves)@;
            let after = moves@;
            assert(after == before.push(sq));
            assert forall|x: (i32, i32)| #[trigger]
                after.contains(x) <==> before.contains(x) || coords(x) == (
                    row as int,
                    col as int,
                ) by {
                if before.contains(x) {
                    let i = choose|i: int| 0 <= i < before.len() && before[i] == x;
                    assert(after[i] == x);
                }
                if coords(x) == (row as int, col as int) {
                    assert(x == sq);
                    assert(after[before.len() as int] == x);
                }
            }
        }
    }
}

/// A pawn's candidate squares: one step forward, two steps forward from its
/// starting row, and the two forward diagonals.
fn pawn_moves(color: PieceColor, r: i64, c: i64) -> (moves: Vec<(i32, i32)>)
    requires
        i32::MIN <= r <= i32::MAX,
        i32::MIN <= c <= i32::MAX,
    ensures
        forall|to: (i32, i32)| #[trigger]
            moves@.contains(to) <==> on_board(coords(to)) && {
                ||| to.0 - r == color.forward() && -1 <= to.1 - c <= 1
                ||| to.0 - r == 2 * color.forward() && to.1 - c == 0 && r == color.pawn_row()
            },
        moves@.no_duplicates(),
{
    let mut moves: Vec<(i32, i32)> = Vec::new();
    let forward: i64 = if color == PieceColor::White {
        -1
    } else {
        1
    };
    push_if_on_board(&mut moves, r + forward, c);
    if (r == 6 && color == PieceColor::White) || (r == 1 && color == PieceColor::Black) {
        push_if_on_board(&mut moves, r + forward * 2, c);
    }
    push_if_on_board(&mut moves, r + forward, c - 1);
    push_if_on_board(&mut moves, r + forward, c + 1);
    moves
}

/// The eight squares a knight's jump away.
fn knight_moves(r: i64, c: i64) -> (moves: Vec<(i32, i32)>)
    requires
        i32::MIN <= r <= i32::MAX,
        i32::MIN <= c <= i32::MAX,
    ensures
        forall|to: (i32, i32)| #[trigger]
            moves@.contains(to) <==> on_board(coords(to)) && knight_step(to.0 - r, to.1 - c),
        moves@.no_duplicates(),
{
    let mut moves: Vec<(i32, i32)> = Vec::new();
    push_if_on_board(&mut moves, r - 2, c - 1);
    push_if_on_board(&mut moves, r - 2, c + 1);
    push_if_on_board(&mut moves, r - 1, c - 2);
    push_if_on_board(&mut moves, r - 1, c + 2);
    assert(forall|to: (i32, i32)| #[trigger]
        moves@.contains(to) <==> on_board(coords(to)) && knight_step(to.0 - r, to.1 - c) && to.0
            - r < 0);
    push_if_on_board(&mut moves, r + 1, c - 2);
    push_if_on_board(&mut moves, r + 1, c + 2);
    push_if_on_board(&mut moves, r + 2, c - 1);
    push_if_on_board(&mut moves, r + 2, c + 1);
    moves
}

/// The eight neighbouring squares.
fn king_moves(r: i64, c: i64) -> (moves: Vec<(i32, i32)>)
    requires
        i32::MIN <= r <= i32::MAX,
        i32::MIN <= c <= i32::MAX,
    ensures
        forall|to: (i32, i32)| #[trigger]
            moves@.contains(to) <==> on_board(coords(to)) && king_step(to.0 - r, to.1 - c),
        moves@.no_duplicates(),
{
    let mut moves: Vec<(i32, i32)> = Vec::new();
    push_if_on_board(&mut moves, r - 1, c - 1);
    push_if_on_board(&mut moves, r - 1, c);
    push_if_on_board(&mut moves, r - 1, c + 1);
    push_if_on_board(&mut moves, r, c - 1);
    assert(forall|to: (i32, i32)| #[trigger]
        moves@.contains(to) <==> on_board(coords(to)) && king_step(to.0 - r, to.1 - c) && (to.0
            - r < 0 || (to.0 - r == 0 && to.1 - c < 0)));
    push_if_on_board(&mut moves, r, c + 1);
    push_if_on_board(&mut moves, r + 1, c - 1);
    push_if_on_board(&mut moves, r + 1, c);
    push_if_on_board(&mut moves, r + 1, c + 1);
    moves
}

/// The squares up to seven steps away along the diagonals, along the rank
/// and file, or along both.
fn line_moves(r: i64, c: i64, diagonals: bool, straights: bool) -> (moves: Vec<(i32, i32)>)
    requires
        i32::MIN <= r <= i32::MAX,
        i32::MIN <= c <= i32::MAX,
    ensures
        forall|to: (i32, i32)| #[trigger]
            moves@.contains(to) <==> on_board(coords(to)) && {
                ||| diagonals && diagonal_step(to.0 - r, to.1 - c)
                ||| straights && straight_step(to.0 - r, to.1 - c)
            },
        moves@.no_duplicates(),
{
    let mut moves: Vec<(i32, i32)> = Vec::new();
    let mut i: i64 = -7;
    while i < 8
        invariant
            -7 <= i <= 8,
            i32::MIN <= r <= i32::MAX,
            i32::MIN <= c <= i32::MAX,
            moves@.no_duplicates(),
            forall|to: (i32, i32)| #[trigger]
                moves@.contains(to) <==> on_board(coords(to)) && {
                    ||| diagonals && diagonal_step(to.0 - r, to.1 - c) && to.0 - r < i
                    ||| straights && straight_step(to.0 - r, to.1 - c) && (to.0 - r) + (to.1 - c)
                        < i
                },
        decreases 8 - i,
    {
        if i != 0 {
            if diagonals {
                push_if_on_board(&mut moves, r + i, c + i);
                push_if_on_board(&mut moves, r + i, c - i);
            }
            if straights {
                push_if_on_board(&mut moves, r + i, c);
                push_if_on_board(&mut moves, r, c + i);
            }
        }
        i += 1;
    }
    moves
}

/// Whether `sq` is one of the squares listed in `squares`.
pub fn contains_square(squares: &Vec<(i32, i32)>, sq: (i32, i32)) -> (found: bool)
    ensures
        found == squares@.contains(sq),
{
    let mut i: usize = 0;
    while i < squares.len()
        invariant
            i <= squares.len(),
            forall|j: int| 0 <= j < i ==> squares@[j] != sq,
        decreases squares.len() - i,
    {
        let here = squares[i];
        if here.0 == sq.0 && here.1 == sq.1 {
            return true;
        }
        i += 1;
    }
    false
}

impl Piece {
    /// Whether this piece, standing on `from`, can move to `to` by its
    /// geometry alone: other pieces and the edges of the board are ignored.
    ///
    /// A pawn steps one row forward, straight or to either side, and two rows
    /// straight forward from its starting row. Castling is not part of a
    /// king's geometry.
    pub open spec fn reaches(self, from: (int, int), to: (int, int)) -> bool {
        let dr = to.0 - from.0;
        let dc = to.1 - from.1;
        match self.piece_type {
            PieceType::Pawn => {
                ||| dr == self.color.forward() && -1 <= dc <= 1
                ||| dr == 2 * self.color.forward() && dc == 0 && from.0 == self.color.pawn_row()
            },
            PieceType::Knight => knight_step(dr, dc),
            PieceType::Bishop => diagonal_step(dr, dc),
            PieceType::Rook => straight_step(dr, dc),
            PieceType::Queen => diagonal_step(dr, dc) || straight_step(dr, dc),
            PieceType::King => king_step(dr, dc),
        }
    }

    /// The squares of the board that this piece reaches from `from` by its
    /// geometry, whatever else stands on the board. Squares off the board
    /// are left out; the origin itself is never among them.
    pub fn get_raw_moves(&self, from: (i32, i32)) -> (moves: Vec<(i32, i32)>)
        ensures
            forall|to: (i32, i32)| #[trigger]
                moves@.contains(to) <==> on_board(coords(to)) && self.reaches(
                    coords(from),
                    coords(to),
                ),
            moves@.no_duplicates(),
            !moves@.contains(from),
    {
        let r: i64 = from.0 as i64;
        let c: i64 = from.1 as i64;
        match self.piece_type {
            PieceType::Pawn => pawn_moves(self.color, r, c),
            PieceType::Knight => knight_moves(r, c),
            PieceType::Bishop => line_moves(r, c, true, false),
            PieceType::Rook => line_moves(r, c, false, true),
            PieceType::Queen => line_moves(r, c, true, true),
            PieceType::King => king_moves(r, c),
        }
    }

    /// Whether the pieces on the board let this piece, standing on `from`,
    /// move to `to`. The move must lie within the piece's geometry and end on
    /// the board. A pawn moves straight only onto an empty square (over an
    /// empty square, when it moves two), and sideways only onto an enemy. Any
    /// other piece may not land on a piece of its own side and, unless it is
    /// a knight, needs a clear path. Whose turn it is, castling, capturing in
    /// passing and the safety of the king are not considered here.
    pub open spec fn spec_valid_move(
        self,
        cells: Seq<Option<Piece>>,
        from: (int, int),
        to: (int, int),
    ) -> bool {
        let target = piece_on(cells, to);
        &&& on_board(to)
        &&& self.reaches(from, to)
        &&& if self.piece_type == PieceType::Pawn {
            if to.1 == from.1 {
                &&& target is None
                &&& to.0 - from.0 == 2 * self.color.forward() ==> piece_on(
                    cells,
                    (from.0 + self.color.forward(), from.1),
                ) is None
            } else {
                target matches Some(other) && other.color != self.color
            }
        } else {
            &&& !(target matches Some(other) && other.color == self.color)
            &&& self.piece_type == PieceType::Knight || path_clear(cells, from, to)
        }
    }

    /// The squares to which this piece, standing on `from`, may move given
    /// the pieces on `board`: its raw moves without those that the board
    /// forbids. The origin is never among them, nor a square off the board.
    pub fn get_valid_moves(&self, from: (i32, i32), board: &ChessBoard) -> (moves: Vec<(i32, i32)>)
        requires
            board.wf(),
        ensures
            forall|to: (i32, i32)| #[trigger]
                moves@.contains(to) <==> self.spec_valid_move(board@, coords(from), coords(to)),
            moves@.no_duplicates(),
            !moves@.contains(from),
            forall|to: (i32, i32)| #[trigger] moves@.contains(to) ==> on_board(coords(to)),
    {
        let raw_moves = self.get_raw_moves(from);
        let mut moves: Vec<(i32, i32)> = Vec::new();
        let mut i: usize = 0;
        proof {
            board.lemma_wf_len();
        }
        while i < raw_moves.len()
            invariant
                i <= raw_moves.len(),
                board.wf(),
                board@.len() == 64,
                raw_moves@.no_duplicates(),
                forall|to: (i32, i32)| #[trigger]
                    raw_moves@.contains(to) <==> on_board(coords(to)) && self.reaches(
                        coords(from),
                        coords(to),
                    ),
                moves@.no_duplicates(),
                forall|j: int|
                    0 <= j < moves.len() ==> self.spec_valid_move(
                        board@,
                        coords(from),
                        coords(#[trigger] moves@[j]),
                    ) && exists|k: int| 0 <= k < i && raw_moves@[k] == moves@[j],
                forall|k: int|
                    0 <= k < i && self.spec_valid_move(
                        board@,
                        coords(from),
                        coords(#[trigger] raw_moves@[k]),
                    ) ==> moves@.contains(raw_moves@[k]),
            decreases raw_moves.len() - i,
        {
            let to = raw_moves[i];
            assert(raw_moves@.contains(to));
            if self.allowed_by_board(from, to, board) {
                let ghost before = moves@;
                moves.push(to);
                proof {
                    assert(moves@[before.len() as int] == to);
                    assert forall|k: int|
                        0 <= k < i + 1 && self.spec_valid_move(
                            board@,
                            coords(from),
                            coords(#[trigger] raw_moves@[k]),
                        ) implies moves@.contains(raw_moves@[k]) by {
                        if k < i {
                            let j = choose|j: int|
                                0 <= j < before.len() && before[j] == raw_moves@[k];
                            assert(moves@[j] == raw_moves@[k]);
                        }
                    }
                }
            }
            i += 1;
        }
        proof {
            assert forall|to: (i32, i32)|
                self.spec_valid_move(board@, coords(from), coords(to)) implies #[trigger]
                moves@.contains(to) by {
                assert(raw_moves@.contains(to));
                let k = choose|k: int| 0 <= k < raw_moves@.len() && raw_moves@[k] == to;
                assert(moves@.contains(raw_moves@[k]));
            }
        }
        moves
    }

    /// Decides for one raw move whether the board allows it.
    fn allowed_by_board(&self, from: (i32, i32), to: (i32, i32), board: &ChessBoard) -> (ok: bool)
        requires
            board.wf(),
            on_board(coords(to)),
            self.reaches(coords(from), coords(to)),
        ensures
            ok == self.spec_valid_move(board@, coords(from), coords(to)),
    {
        proof {
            board.lemma_wf_len();
        }
        let to_idx = (to.0 * 8 + to.1) as usize;
        let target = board.get_piece_at(to_idx);
        if self.piece_type == PieceType::Pawn {
            let forward: i32 = if self.color == PieceColor::White {
                -1
            } else {
                1
            };
            if to.1 == from.1 {
                if to.0 - from.0 == forward * 2 {
                    let intermediate_idx = ((from.0 + forward) * 8 + from.1) as usize;
                    return target.is_none() && board.get_piece_at(intermediate_idx).is_none();
                }
                return target.is_none();
            }
            return match target {
                Some(target_piece) => target_piece.color != self.color,
                None => false,
            };
        }
        if let Some(target_piece) = target {
            if target_piece.color == self.color {
                return false;
            }
        }
        if self.piece_type == PieceType::Knight {
            return true;
        }
        board.is_path_clear(from, to)
    }

    /// Whether the pieces on `board` let this piece move from `from` to `to`.
    pub fn is_valid_move(&self, from: (i32, i32), to: (i32, i32), board: &ChessBoard) -> (ok: bool)
        requires
            board.wf(),
        ensures
            ok == self.spec_valid_move(board@, coords(from), coords(to)),
    {
        let moves = self.get_valid_moves(from, board);
        contains_square(&moves, to)
    }
}

} // verus!
