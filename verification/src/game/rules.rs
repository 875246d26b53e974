use super::game_state::GameStatus;
use super::notation::{move_text, recorded};
use crate::board::chess_board::{cell, path_clear, piece_on, relocated};
use crate::pieces::piece::{on_board, Piece, PieceColor};
use crate::pieces::piece_type::PieceType;
use vstd::math::abs;
use vstd::prelude::*;

verus! {

/// A game state as plain values: the fields of a `GameState`, with the move
/// record as a sequence of texts.
pub struct GameSnapshot {
    pub current_turn: PieceColor,
    pub status: GameStatus,
    pub last_move: Option<((usize, usize), (usize, usize))>,
    pub white_can_castle_kingside: bool,
    pub white_can_castle_queenside: bool,
    pub black_can_castle_kingside: bool,
    pub black_can_castle_queenside: bool,
    pub move_history: Seq<Seq<char>>,
}

/// A (row, column) pair of machine integers as mathematical integers.
pub open spec fn square(sq: (usize, usize)) -> (int, int) {
    (sq.0 as int, sq.1 as int)
}

/// The back rank of a side.
pub open spec fn home_row(color: PieceColor) -> int {
    match color {
        PieceColor::White => 7,
        PieceColor::Black => 0,
    }
}

/// The row on which a side's pawns are promoted.
pub open spec fn far_row(color: PieceColor) -> int {
    match color {
        PieceColor::White => 0,
        PieceColor::Black => 7,
    }
}

/// Whether `sq` holds a piece of the given side.
pub open spec fn holds_side(cells: Seq<Option<Piece>>, sq: (int, int), color: PieceColor) -> bool {
    piece_on(cells, sq) matches Some(piece) && piece.color == color
}

/// Whether `sq` holds a piece of the given kind.
pub open spec fn holds_kind(cells: Seq<Option<Piece>>, sq: (int, int), kind: PieceType) -> bool {
    piece_on(cells, sq) matches Some(piece) && piece.piece_type == kind
}

/// Whether the piece on `from`, if there is one, bears on `target`: a pawn
/// on its two forward diagonals only, a knight wherever it jumps, every
/// other piece along its geometry as far as the path is clear.
pub open spec fn bears_on(cells: Seq<Option<Piece>>, from: (int, int), target: (int, int)) -> bool {
    match piece_on(cells, from) {
        Some(piece) => on_board(target) && match piece.piece_type {
            PieceType::Pawn => target.0 - from.0 == piece.color.forward() && abs(
                target.1 - from.1,
            ) == 1,
            PieceType::Knight => piece.reaches(from, target),
            _ => piece.reaches(from, target) && path_clear(cells, from, target),
        },
        None => false,
    }
}

/// Whether `from` holds an enemy of `defending` that bears on `target`.
pub open spec fn attacker_on(
    cells: Seq<Option<Piece>>,
    from: (int, int),
    target: (int, int),
    defending: PieceColor,
) -> bool {
    &&& on_board(from)
    &&& piece_on(cells, from) matches Some(piece) && piece.color != defending
    &&& bears_on(cells, from, target)
}

/// Whether some enemy of `defending` bears on `target`.
pub open spec fn square_attacked(
    cells: Seq<Option<Piece>>,
    target: (int, int),
    defending: PieceColor,
) -> bool {
    exists|from: (int, int)| #[trigger] attacker_on(cells, from, target, defending)
}

/// The first cell at or after `start` that holds the king of `color`.
pub open spec fn king_from(cells: Seq<Option<Piece>>, color: PieceColor, start: int) -> Option<int>
    decreases 64 - start,
{
    if start < 0 || start >= 64 {
        None
    } else if cells[start] == Some(Piece { piece_type: PieceType::King, color }) {
        Some(start)
    } else {
        king_from(cells, color, start + 1)
    }
}

/// The square of the king of `color`: the first one in row-major order,
/// should a board hold several, and `None` should it hold none.
pub open spec fn king_square(cells: Seq<Option<Piece>>, color: PieceColor) -> Option<(int, int)> {
    match king_from(cells, color, 0) {
        Some(idx) => Some((idx / 8, idx % 8)),
        None => None,
    }
}

/// Whether the king of `color` is attacked. A side without a king is never
/// in check.
pub open spec fn in_check(cells: Seq<Option<Piece>>, color: PieceColor) -> bool {
    king_square(cells, color) matches Some(king) && square_attacked(cells, king, color)
}

/// Whether the move from `from` to `to`, carried out in full on the board,
/// would leave the mover's own king attacked.
pub open spec fn leaves_king_attacked(
    last_move: Option<((usize, usize), (usize, usize))>,
    cells: Seq<Option<Piece>>,
    from: (int, int),
    to: (int, int),
) -> bool {
    piece_on(cells, from) matches Some(piece) && in_check(
        cells_after_move(last_move, cells, from, to),
        piece.color,
    )
}

/// Whether a king stands on `from` and `to` lies two files away on the same
/// row: the shape of a castling move.
pub open spec fn castling_shape(
    cells: Seq<Option<Piece>>,
    from: (int, int),
    to: (int, int),
) -> bool {
    &&& piece_on(cells, from) matches Some(piece) && piece.piece_type == PieceType::King
    &&& from.0 == to.0
    &&& abs(to.1 - from.1) == 2
}

/// Whether a pawn on `from` may capture in passing by moving to `to`: the
/// last move was a two-row advance of an enemy pawn that ended beside
/// `from`, and `to` is the square that pawn passed over.
pub open spec fn en_passant(
    last_move: Option<((usize, usize), (usize, usize))>,
    cells: Seq<Option<Piece>>,
    from: (int, int),
    to: (int, int),
) -> bool {
    &&& piece_on(cells, from) matches Some(piece)
    &&& piece.piece_type == PieceType::Pawn
    &&& last_move matches Some((last_from, last_to))
    &&& piece_on(cells, square(last_to)) matches Some(passed)
    &&& passed.piece_type == PieceType::Pawn
    &&& passed.color != piece.color
    &&& last_from.1 == last_to.1
    &&& last_to.0 - last_from.0 == 2 * passed.color.forward()
    &&& last_from.0 == passed.color.pawn_row()
    &&& last_to.0 == from.0
    &&& last_to.1 == to.1
    &&& to.0 == from.0 + piece.color.forward()
    &&& abs(to.1 - from.1) == 1
}

impl GameSnapshot {
    /// Whether the side `color` still has the right to castle on the given
    /// wing.
    pub open spec fn may_castle(self, color: PieceColor, kingside: bool) -> bool {
        match color {
            PieceColor::White => if kingside {
                self.white_can_castle_kingside
            } else {
                self.white_can_castle_queenside
            },
            PieceColor::Black => if kingside {
                self.black_can_castle_kingside
            } else {
                self.black_can_castle_queenside
            },
        }
    }

    /// Whether the king on `from` may castle to `to`. The king stands on its
    /// home square and moves two files along its back rank; the right to
    /// castle on that wing is still held; the rook of that wing stands in
    /// its corner and every square between king and rook is empty; and the
    /// enemy attacks neither the king's square, nor the one it crosses, nor
    /// the one it lands on.
    pub open spec fn castling_ok(
        self,
        cells: Seq<Option<Piece>>,
        from: (int, int),
        to: (int, int),
    ) -> bool {
        &&& piece_on(cells, from) matches Some(king)
        &&& king.piece_type == PieceType::King
        &&& from == (home_row(king.color), 4int)
        &&& to.0 == from.0
        &&& to.1 == 6 || to.1 == 2
        &&& self.may_castle(king.color, to.1 == 6)
        &&& piece_on(cells, rook_corner(from.0, to.1 == 6)) == Some(
            Piece { piece_type: PieceType::Rook, color: king.color },
        )
        &&& path_clear(cells, from, rook_corner(from.0, to.1 == 6))
        &&& !square_attacked(cells, from, king.color)
        &&& !square_attacked(cells, (from.0, (from.1 + to.1) / 2), king.color)
        &&& !square_attacked(cells, to, king.color)
    }

    /// Whether the side to move may move the piece on `from` to `to`.
    ///
    /// Both squares lie on the board, `from` holds a piece of the side to
    /// move, and `to` lies within that piece's geometry or the move has the
    /// shape of castling. A king may not step onto an attacked square; a
    /// move in the shape of castling must meet `castling_ok`, and any other
    /// move of the king may not end on a piece of its side. A pawn moves
    /// straight only onto an empty square (and over an empty square when it
    /// moves two), and sideways only onto an enemy or in passing. Any other
    /// piece may not land on a piece of its side and, unless it is a knight,
    /// needs a clear path. Lastly, whatever the piece, the move must not
    /// leave the mover's own king attacked.
    #[verifier::opaque]
    pub open spec fn legal(
        self,
        cells: Seq<Option<Piece>>,
        from: (int, int),
        to: (int, int),
    ) -> bool {
        &&& on_board(from)
        &&& on_board(to)
        &&& piece_on(cells, from) matches Some(piece)
        &&& piece.color == self.current_turn
        &&& piece.reaches(from, to) || castling_shape(cells, from, to)
        &&& match piece.piece_type {
            PieceType::King => {
                &&& !square_attacked(cells, to, piece.color)
                &&& if castling_shape(cells, from, to) {
                    self.castling_ok(cells, from, to)
                } else {
                    !holds_side(cells, to, piece.color)
                }
            },
            PieceType::Pawn => {
                if to.1 == from.1 {
                    &&& piece_on(cells, to) is None
                    &&& abs(to.0 - from.0) == 2 ==> piece_on(
                        cells,
                        (from.0 + piece.color.forward(), from.1),
                    ) is None
                } else {
                    ||| en_passant(self.last_move, cells, from, to)
                    ||| holds_side(cells, to, piece.color.opponent())
                }
            },
            _ => {
                &&& !holds_side(cells, to, piece.color)
                &&& piece.piece_type == PieceType::Knight || path_clear(cells, from, to)
            },
        }
        &&& !leaves_king_attacked(self.last_move, cells, from, to)
    }

    /// A legal move starts and ends on the board, on different squares, and
    /// moves a piece of the side to move.
    pub proof fn lemma_legal_move_is_on_board(
        self,
        cells: Seq<Option<Piece>>,
        from: (int, int),
        to: (int, int),
    )
        requires
            self.legal(cells, from, to),
        ensures
            on_board(from),
            on_board(to),
            from != to,
            holds_side(cells, from, self.current_turn),
    {
        reveal(GameSnapshot::legal);
    }

    /// The state after the side to move has made the legal move from `from`
    /// to `to`: the turn passes to the other side, the move is remembered as
    /// the last one, castling rights that the move ends are given up, the
    /// standing is that of the side now to move on the new board, and the
    /// move is entered in the record.
    #[verifier::opaque]
    pub open spec fn after_move(
        self,
        cells: Seq<Option<Piece>>,
        from: (usize, usize),
        to: (usize, usize),
    ) -> GameSnapshot {
        let piece = piece_on(cells, square(from))->0;
        let moved = GameSnapshot {
            current_turn: self.current_turn.opponent(),
            status: self.status,
            last_move: Some((from, to)),
            white_can_castle_kingside: self.white_can_castle_kingside && keeps_right(
                cells,
                square(from),
                square(to),
                PieceColor::White,
                true,
            ),
            white_can_castle_queenside: self.white_can_castle_queenside && keeps_right(
                cells,
                square(from),
                square(to),
                PieceColor::White,
                false,
            ),
            black_can_castle_kingside: self.black_can_castle_kingside && keeps_right(
                cells,
                square(from),
                square(to),
                PieceColor::Black,
                true,
            ),
            black_can_castle_queenside: self.black_can_castle_queenside && keeps_right(
                cells,
                square(from),
                square(to),
                PieceColor::Black,
                false,
            ),
            move_history: self.move_history,
        };
        let next_cells = cells_after_move(self.last_move, cells, square(from), square(to));
        let status = moved.standing(next_cells);
        let text = move_text(
            piece,
            square(from),
            square(to),
            captures(self.last_move, cells, square(from), square(to)),
            castling_shape(cells, square(from), square(to)),
            promotes(cells, square(from), square(to)),
            status,
        );
        GameSnapshot {
            status,
            move_history: recorded(self.move_history, piece.color, text),
            ..moved
        }
    }

    /// Recognises the state after a move by its parts: `moved` is the state
    /// with the turn passed on, the move remembered and the castling rights
    /// brought up to date, and `done` adds to it the new standing and the
    /// entry in the record.
    pub proof fn lemma_after_move(
        self,
        cells: Seq<Option<Piece>>,
        from: (usize, usize),
        to: (usize, usize),
        moved: GameSnapshot,
        done: GameSnapshot,
    )
        requires
            piece_on(cells, square(from)) matches Some(piece) && done.move_history == recorded(
                self.move_history,
                piece.color,
                move_text(
                    piece,
                    square(from),
                    square(to),
                    captures(self.last_move, cells, square(from), square(to)),
                    castling_shape(cells, square(from), square(to)),
                    promotes(cells, square(from), square(to)),
                    done.status,
                ),
            ),
            moved.current_turn == self.current_turn.opponent(),
            moved.status == self.status,
            moved.last_move == Some((from, to)),
            moved.white_can_castle_kingside == (self.white_can_castle_kingside && keeps_right(
                cells,
                square(from),
                square(to),
                PieceColor::White,
                true,
            )),
            moved.white_can_castle_queenside == (self.white_can_castle_queenside && keeps_right(
                cells,
                square(from),
                square(to),
                PieceColor::White,
                false,
            )),
            moved.black_can_castle_kingside == (self.black_can_castle_kingside && keeps_right(
                cells,
                square(from),
                square(to),
                PieceColor::Black,
                true,
            )),
            moved.black_can_castle_queenside == (self.black_can_castle_queenside && keeps_right(
                cells,
                square(from),
                square(to),
                PieceColor::Black,
                false,
            )),
            moved.move_history == self.move_history,
            done.status == moved.standing(
                cells_after_move(self.last_move, cells, square(from), square(to)),
            ),
            done.current_turn == moved.current_turn,
            done.last_move == moved.last_move,
            done.white_can_castle_kingside == moved.white_can_castle_kingside,
            done.white_can_castle_queenside == moved.white_can_castle_queenside,
            done.black_can_castle_kingside == moved.black_can_castle_kingside,
            done.black_can_castle_queenside == moved.black_can_castle_queenside,
        ensures
            done == self.after_move(cells, from, to),
    {
        reveal(GameSnapshot::after_move);
    }

    /// The state and the board after an attempt to move from `from` to `to`:
    /// what the move makes of them if it is legal, and the two as they were
    /// if it is not.
    pub open spec fn attempt(
        self,
        cells: Seq<Option<Piece>>,
        from: (usize, usize),
        to: (usize, usize),
    ) -> (GameSnapshot, Seq<Option<Piece>>) {
        if self.legal(cells, square(from), square(to)) {
            (
                self.after_move(cells, from, to),
                cells_after_move(self.last_move, cells, square(from), square(to)),
            )
        } else {
            (self, cells)
        }
    }

    /// The state and the board after a whole series of attempts, made one
    /// after the other.
    pub open spec fn play(
        self,
        cells: Seq<Option<Piece>>,
        attempts: Seq<((usize, usize), (usize, usize))>,
    ) -> (GameSnapshot, Seq<Option<Piece>>)
        decreases attempts.len(),
    {
        if attempts.len() == 0 {
            (self, cells)
        } else {
            let (state, board) = self.play(cells, attempts.drop_last());
            state.attempt(board, attempts.last().0, attempts.last().1)
        }
    }

    /// Whether the side to move has any legal move at all.
    pub open spec fn has_legal_move(self, cells: Seq<Option<Piece>>) -> bool {
        exists|from: (int, int), to: (int, int)| #[trigger] self.legal(cells, from, to)
    }

    /// How the game stands for the side to move: checkmate when it is in
    /// check and has no legal move, check when it is in check and has one,
    /// stalemate when it is not in check and has none, in progress otherwise.
    pub open spec fn standing(self, cells: Seq<Option<Piece>>) -> GameStatus {
        if in_check(cells, self.current_turn) {
            if self.has_legal_move(cells) {
                GameStatus::Check
            } else {
                GameStatus::Checkmate
            }
        } else {
            if self.has_legal_move(cells) {
                GameStatus::InProgress
            } else {
                GameStatus::Stalemate
            }
        }
    }
}

/// Whether the move takes a piece: one stands on `to`, or a pawn is taken in
/// passing.
pub open spec fn captures(
    last_move: Option<((usize, usize), (usize, usize))>,
    cells: Seq<Option<Piece>>,
    from: (int, int),
    to: (int, int),
) -> bool {
    piece_on(cells, to) is Some || en_passant(last_move, cells, from, to)
}

/// Whether the move brings a pawn to the far row, where it becomes a queen.
pub open spec fn promotes(cells: Seq<Option<Piece>>, from: (int, int), to: (int, int)) -> bool {
    piece_on(cells, from) matches Some(piece) && piece.piece_type == PieceType::Pawn && to.0
        == far_row(piece.color)
}

/// Whether a move from `from` to `to` leaves the right of `color` to castle
/// on the given wing as it is. The right ends when the king of `color`
/// moves, when a rook leaves the corner of that wing, and when a rook
/// standing in that corner is taken.
pub open spec fn keeps_right(
    cells: Seq<Option<Piece>>,
    from: (int, int),
    to: (int, int),
    color: PieceColor,
    kingside: bool,
) -> bool {
    let corner = rook_corner(home_row(color), kingside);
    &&& piece_on(cells, from) != Some(Piece { piece_type: PieceType::King, color })
    &&& !(from == corner && holds_kind(cells, from, PieceType::Rook))
    &&& !(to == corner && holds_kind(cells, to, PieceType::Rook))
}

/// The board after the legal move from `from` to `to`. In castling the rook
/// goes from its corner to the square that the king crosses. In a capture in
/// passing the pawn beside `from`, in the file of `to`, is removed. Then the
/// piece goes from `from` to `to`, and a pawn that reaches the far row is
/// replaced by a queen of its side.
pub open spec fn cells_after_move(
    last_move: Option<((usize, usize), (usize, usize))>,
    cells: Seq<Option<Piece>>,
    from: (int, int),
    to: (int, int),
) -> Seq<Option<Piece>> {
    let piece = piece_on(cells, from)->0;
    let kingside = to.1 == 6;
    let castled = if castling_shape(cells, from, to) {
        relocated(
            cells,
            cell(rook_corner(from.0, kingside)),
            cell(
                (
                    from.0,
                    if kingside {
                        5int
                    } else {
                        3int
                    },
                ),
            ),
        )
    } else {
        cells
    };
    let taken = if en_passant(last_move, cells, from, to) {
        castled.update(cell((from.0, to.1)), None)
    } else {
        castled
    };
    let moved = relocated(taken, cell(from), cell(to));
    if promotes(cells, from, to) {
        moved.update(cell(to), Some(Piece { piece_type: PieceType::Queen, color: piece.color }))
    } else {
        moved
    }
}

/// The corner in which the rook of the given wing starts on the given row.
pub open spec fn rook_corner(row: int, kingside: bool) -> (int, int) {
    (
        row,
        if kingside {
            7int
        } else {
            0int
        },
    )
}

} // verus!
