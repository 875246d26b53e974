use super::game_state::starting_state;
use super::rules::{
    attacker_on, bears_on, castling_shape, cells_after_move, en_passant, holds_kind, holds_side,
    home_row, in_check, keeps_right, king_from, king_square, rook_corner, square,
    square_attacked, GameSnapshot,
};
use crate::board::chess_board::{
    aligned, cell, path_clear, path_square, piece_on, relocated, span, starting_piece,
    starting_position,
};
use crate::pieces::piece::{on_board, Piece, PieceColor};
use crate::pieces::piece_type::PieceType;
use vstd::prelude::*;

verus! {

impl GameSnapshot {
    /// A legal move passes the turn to the other side, is remembered as the
    /// last move, and leaves the game standing as the side now to move finds
    /// it on the new board.
    pub proof fn lemma_move_passes_turn(
        self,
        cells: Seq<Option<Piece>>,
        from: (usize, usize),
        to: (usize, usize),
    )
        requires
            self.legal(cells, square(from), square(to)),
        ensures
            self.attempt(cells, from, to).0.current_turn == self.current_turn.opponent(),
            self.attempt(cells, from, to).0.current_turn != self.current_turn,
            self.attempt(cells, from, to).0.last_move == Some((from, to)),
            self.attempt(cells, from, to).0.status == self.attempt(cells, from, to).0.standing(
                self.attempt(cells, from, to).1,
            ),
    {
        reveal(GameSnapshot::after_move);
        let (after, board) = self.attempt(cells, from, to);
        let moved = GameSnapshot { status: self.status, move_history: self.move_history, ..after };
        moved.lemma_standing_ignores_record(after, board);
    }

    /// How the game stands depends on whose turn it is, on the last move and
    /// on the castling rights, and on nothing else in the state.
    pub proof fn lemma_standing_ignores_record(self, other: GameSnapshot, cells: Seq<Option<Piece>>)
        requires
            self.current_turn == other.current_turn,
            self.last_move == other.last_move,
            self.white_can_castle_kingside == other.white_can_castle_kingside,
            self.white_can_castle_queenside == other.white_can_castle_queenside,
            self.black_can_castle_kingside == other.black_can_castle_kingside,
            self.black_can_castle_queenside == other.black_can_castle_queenside,
        ensures
            forall|from: (int, int), to: (int, int)|
                self.legal(cells, from, to) == other.legal(cells, from, to),
            self.has_legal_move(cells) == other.has_legal_move(cells),
            self.standing(cells) == other.standing(cells),
    {
        reveal(GameSnapshot::legal);
        assert forall|from: (int, int), to: (int, int)|
            self.legal(cells, from, to) == other.legal(cells, from, to) by {
            assert(self.castling_ok(cells, from, to) == other.castling_ok(cells, from, to));
        }
        if self.has_legal_move(cells) {
            let (from, to) = choose|from: (int, int), to: (int, int)| #[trigger]
                self.legal(cells, from, to);
            assert(other.legal(cells, from, to));
        }
        if other.has_legal_move(cells) {
            let (from, to) = choose|from: (int, int), to: (int, int)| #[trigger]
                other.legal(cells, from, to);
            assert(self.legal(cells, from, to));
        }
    }

    /// A move that is not legal changes nothing: not the board, nor the
    /// turn, the castling rights, the last move or the record.
    pub proof fn lemma_rejected_move_changes_nothing(
        self,
        cells: Seq<Option<Piece>>,
        from: (usize, usize),
        to: (usize, usize),
    )
        requires
            !self.legal(cells, square(from), square(to)),
        ensures
            self.attempt(cells, from, to) == (self, cells),
    {
    }

    /// An attempt to move never brings back a castling right: a right held
    /// afterwards was held before, and it is kept only by a move that
    /// `keeps_right` lets it survive.
    pub proof fn lemma_attempt_keeps_no_lost_right(
        self,
        cells: Seq<Option<Piece>>,
        from: (usize, usize),
        to: (usize, usize),
        color: PieceColor,
        kingside: bool,
    )
        ensures
            self.attempt(cells, from, to).0.may_castle(color, kingside) ==> self.may_castle(
                color,
                kingside,
            ),
            self.legal(cells, square(from), square(to)) ==> self.attempt(
                cells,
                from,
                to,
            ).0.may_castle(color, kingside) == (self.may_castle(color, kingside) && keeps_right(
                cells,
                square(from),
                square(to),
                color,
                kingside,
            )),
    {
        reveal(GameSnapshot::after_move);
    }

    /// Over a whole game no castling right ever comes back: whatever is
    /// attempted, in whatever order, a right held at the end was held at the
    /// start.
    pub proof fn lemma_castling_rights_never_return(
        self,
        cells: Seq<Option<Piece>>,
        attempts: Seq<((usize, usize), (usize, usize))>,
        color: PieceColor,
        kingside: bool,
    )
        ensures
            self.play(cells, attempts).0.may_castle(color, kingside) ==> self.may_castle(
                color,
                kingside,
            ),
        decreases attempts.len(),
    {
        if attempts.len() > 0 {
            let (state, board) = self.play(cells, attempts.drop_last());
            self.lemma_castling_rights_never_return(cells, attempts.drop_last(), color, kingside);
            state.lemma_attempt_keeps_no_lost_right(
                board,
                attempts.last().0,
                attempts.last().1,
                color,
                kingside,
            );
        }
    }

    /// The move record only grows: after an attempt to move it has at least
    /// as many entries as before, and each entry that was there begins as it
    /// did before. (A move of Black adds to the newest entry; every other
    /// entry is left as it was.)
    pub proof fn lemma_record_only_grows(
        self,
        cells: Seq<Option<Piece>>,
        from: (usize, usize),
        to: (usize, usize),
    )
        ensures
            self.attempt(cells, from, to).0.move_history.len() >= self.move_history.len(),
            forall|i: int|
                0 <= i < self.move_history.len() ==> (#[trigger] self.move_history[i]).is_prefix_of(
                    self.attempt(cells, from, to).0.move_history[i],
                ),
            forall|i: int|
                0 <= i < self.move_history.len() - 1 ==> #[trigger] self.move_history[i]
                    == self.attempt(cells, from, to).0.move_history[i],
    {
        reveal(GameSnapshot::after_move);
    }

    /// Over a whole game the move record only grows.
    pub proof fn lemma_record_is_append_only(
        self,
        cells: Seq<Option<Piece>>,
        attempts: Seq<((usize, usize), (usize, usize))>,
    )
        ensures
            self.play(cells, attempts).0.move_history.len() >= self.move_history.len(),
            forall|i: int|
                0 <= i < self.move_history.len() ==> (#[trigger] self.move_history[i]).is_prefix_of(
                    self.play(cells, attempts).0.move_history[i],
                ),
        decreases attempts.len(),
    {
        if attempts.len() > 0 {
            let (state, board) = self.play(cells, attempts.drop_last());
            self.lemma_record_is_append_only(cells, attempts.drop_last());
            state.lemma_record_only_grows(board, attempts.last().0, attempts.last().1);
            let done = self.play(cells, attempts).0;
            assert forall|i: int| 0 <= i < self.move_history.len() implies (
            #[trigger] self.move_history[i]).is_prefix_of(done.move_history[i]) by {
                assert(self.move_history[i].is_prefix_of(state.move_history[i]));
                assert(state.move_history[i].is_prefix_of(done.move_history[i]));
            }
        }
    }

    /// Once a side has castled or otherwise moved its king, it holds no
    /// castling right any more.
    pub proof fn lemma_king_move_ends_both_rights(
        self,
        cells: Seq<Option<Piece>>,
        from: (usize, usize),
        to: (usize, usize),
    )
        requires
            self.legal(cells, square(from), square(to)),
            holds_kind(cells, square(from), PieceType::King),
        ensures
            !self.attempt(cells, from, to).0.may_castle(self.current_turn, true),
            !self.attempt(cells, from, to).0.may_castle(self.current_turn, false),
    {
        reveal(GameSnapshot::after_move);
        reveal(GameSnapshot::legal);
    }
}

/// The search for a king from cell `start` on finds the first cell, at or
/// after `start`, that holds the king of `color`, and finds none exactly
/// when no such cell holds it.
pub proof fn lemma_king_from_finds_the_first(
    cells: Seq<Option<Piece>>,
    color: PieceColor,
    start: int,
)
    requires
        0 <= start <= 64,
    ensures
        match king_from(cells, color, start) {
            Some(idx) => {
                &&& start <= idx < 64
                &&& cells[idx] == Some(Piece { piece_type: PieceType::King, color })
                &&& forall|j: int|
                    start <= j < idx ==> cells[j] != Some(
                        Piece { piece_type: PieceType::King, color },
                    )
            },
            None => forall|j: int|
                start <= j < 64 ==> cells[j] != Some(Piece { piece_type: PieceType::King, color }),
        },
    decreases 64 - start,
{
    if start < 64 && cells[start] != Some(Piece { piece_type: PieceType::King, color }) {
        lemma_king_from_finds_the_first(cells, color, start + 1);
    }
}

/// The king's square is the first square, in row-major order, that holds
/// the king of that side; a side has a king's square exactly when some
/// square of the board holds its king.
pub proof fn lemma_king_square_is_the_first(cells: Seq<Option<Piece>>, color: PieceColor)
    requires
        cells.len() == 64,
    ensures
        match king_square(cells, color) {
            Some(king) => {
                &&& on_board(king)
                &&& piece_on(cells, king) == Some(Piece { piece_type: PieceType::King, color })
                &&& forall|sq: (int, int)|
                    on_board(sq) && cell(sq) < cell(king) ==> #[trigger] piece_on(cells, sq)
                        != Some(Piece { piece_type: PieceType::King, color })
            },
            None => forall|sq: (int, int)|
                on_board(sq) ==> #[trigger] piece_on(cells, sq) != Some(
                    Piece { piece_type: PieceType::King, color },
                ),
        },
{
    lemma_king_from_finds_the_first(cells, color, 0);
}

/// Whether at most one cell of the board holds a king of the given side.
pub open spec fn at_most_one_king(cells: Seq<Option<Piece>>, color: PieceColor) -> bool {
    forall|i: int, j: int|
        0 <= i < 64 && 0 <= j < 64 && #[trigger] cells[i] == Some(
            Piece { piece_type: PieceType::King, color },
        ) && #[trigger] cells[j] == Some(Piece { piece_type: PieceType::King, color }) ==> i == j
}

/// A legal move never makes a second king: a side that had at most one king
/// before the move has at most one after it.
pub proof fn lemma_move_makes_no_king(
    state: GameSnapshot,
    cells: Seq<Option<Piece>>,
    from: (usize, usize),
    to: (usize, usize),
    color: PieceColor,
)
    requires
        cells.len() == 64,
        state.legal(cells, square(from), square(to)),
        at_most_one_king(cells, color),
    ensures
        at_most_one_king(
            cells_after_move(state.last_move, cells, square(from), square(to)),
            color,
        ),
{
    reveal(GameSnapshot::legal);
    let after = cells_after_move(state.last_move, cells, square(from), square(to));
    let king = Some(Piece { piece_type: PieceType::King, color });
    let f = cell(square(from));
    let t = cell(square(to));
    assert forall|i: int, j: int|
        0 <= i < 64 && 0 <= j < 64 && #[trigger] after[i] == king && #[trigger] after[j]
            == king implies i == j by {
        // Every king on the new board stood on the old one: where it stands
        // now, or on the square that the move started from.
        assert(after[i] == king ==> (i == t && cells[f] == king) || (i != t && i != f && cells[i]
            == king));
        assert(after[j] == king ==> (j == t && cells[f] == king) || (j != t && j != f && cells[j]
            == king));
    }
}

/// A king that is not attacked is not taken: after a legal move the king of
/// the side that did not move stands where it stood, provided that nothing
/// of the mover's side bore on it.
pub proof fn lemma_unattacked_king_is_not_taken(
    state: GameSnapshot,
    cells: Seq<Option<Piece>>,
    from: (usize, usize),
    to: (usize, usize),
    king: (int, int),
)
    requires
        cells.len() == 64,
        state.legal(cells, square(from), square(to)),
        on_board(king),
        piece_on(cells, king) == Some(
            Piece { piece_type: PieceType::King, color: state.current_turn.opponent() },
        ),
        !square_attacked(cells, king, state.current_turn.opponent()),
    ensures
        piece_on(cells_after_move(state.last_move, cells, square(from), square(to)), king)
            == piece_on(cells, king),
{
    reveal(GameSnapshot::legal);
    let enemy = state.current_turn.opponent();
    if square(to) == king {
        let piece = piece_on(cells, square(from))->0;
        if piece.piece_type == PieceType::King && !castling_shape(
            cells,
            square(from),
            square(to),
        ) {
            assert(path_clear(cells, square(from), king));
        }
        if castling_shape(cells, square(from), square(to)) {
            // The square the king lands on lies between king and rook,
            // where nothing may stand.
            let corner = rook_corner(square(from).0, square(to).1 == 6);
            assert(path_square(square(from), corner, 2) == square(to));
            assert(false);
        }
        assert(attacker_on(cells, square(from), king, enemy));
        assert(false);
    }
    if castling_shape(cells, square(from), square(to)) {
        let corner = rook_corner(square(from).0, square(to).1 == 6);
        let crossed = (square(from).0, (square(from).1 + square(to).1) / 2);
        assert(path_square(square(from), corner, 1) == crossed);
        assert(piece_on(cells, crossed) is None);
    }
}

/// Whether a pawn that takes in passing would land on an empty square:
/// wherever the last move lets a pawn capture in passing, the square it
/// would move to is empty.
pub open spec fn passed_square_is_empty(
    last_move: Option<((usize, usize), (usize, usize))>,
    cells: Seq<Option<Piece>>,
) -> bool {
    forall|from: (int, int), to: (int, int)|
        on_board(to) && #[trigger] en_passant(last_move, cells, from, to) ==> piece_on(cells, to)
            is None
}

/// Whether the castling rights agree with the board: a side that may still
/// castle on a wing has its king on its home square and its rook in the
/// corner of that wing.
pub open spec fn rights_match_board(state: GameSnapshot, cells: Seq<Option<Piece>>) -> bool {
    forall|color: PieceColor, kingside: bool| #[trigger]
        state.may_castle(color, kingside) ==> {
            &&& piece_on(cells, (home_row(color), 4int)) == Some(
                Piece { piece_type: PieceType::King, color },
            )
            &&& piece_on(cells, rook_corner(home_row(color), kingside)) == Some(
                Piece { piece_type: PieceType::Rook, color },
            )
        }
}

/// What holds of every position that a game can reach: the board has its 64
/// cells, each side has its king and no second one, the side that has just
/// moved is not in check, a pawn taking in passing would land on an empty
/// square, and the castling rights agree with the board.
pub open spec fn sound_position(state: GameSnapshot, cells: Seq<Option<Piece>>) -> bool {
    &&& cells.len() == 64
    &&& king_square(cells, PieceColor::White) is Some
    &&& king_square(cells, PieceColor::Black) is Some
    &&& at_most_one_king(cells, PieceColor::White)
    &&& at_most_one_king(cells, PieceColor::Black)
    &&& !in_check(cells, state.current_turn.opponent())
    &&& passed_square_is_empty(state.last_move, cells)
    &&& rights_match_board(state, cells)
}

/// A board on which some cell holds the king of a side has a king's square
/// for that side.
pub proof fn lemma_king_on_board_is_found(cells: Seq<Option<Piece>>, color: PieceColor, idx: int)
    requires
        0 <= idx < 64,
        cells[idx] == Some(Piece { piece_type: PieceType::King, color }),
    ensures
        king_square(cells, color) is Some,
{
    lemma_king_from_finds_the_first(cells, color, 0);
}

/// The game starts from a sound position.
pub proof fn lemma_start_is_sound()
    ensures
        sound_position(starting_state(), starting_position()),
{
    let cells = starting_position();
    let white_king = Some(Piece { piece_type: PieceType::King, color: PieceColor::White });
    let black_king = Some(Piece { piece_type: PieceType::King, color: PieceColor::Black });
    assert(cells[60] == white_king);
    assert(cells[4] == black_king);
    lemma_king_on_board_is_found(cells, PieceColor::White, 60);
    lemma_king_on_board_is_found(cells, PieceColor::Black, 4);
    assert forall|i: int| 0 <= i < 64 && #[trigger] cells[i] == white_king implies i == 60 by {}
    assert forall|i: int| 0 <= i < 64 && #[trigger] cells[i] == black_king implies i == 4 by {}
    lemma_king_square_is_the_first(cells, PieceColor::Black);
    let king = king_square(cells, PieceColor::Black)->0;
    assert(cell(king) == 4);
    assert(king == (0int, 4int));
    assert forall|from: (int, int)| !#[trigger] attacker_on(
        cells,
        from,
        king,
        PieceColor::Black,
    ) by {
        if on_board(from) {
            assert(piece_on(cells, from) == starting_piece(from.0, from.1));
        }
    }
    assert(cells[56] == starting_piece(7, 0));
    assert(cells[63] == starting_piece(7, 7));
    assert(cells[0] == starting_piece(0, 0));
    assert(cells[7] == starting_piece(0, 7));
}

/// A legal move leads from a sound position to a sound position. In
/// particular it takes no king, and it does not leave the mover in check.
pub proof fn lemma_move_keeps_position_sound(
    state: GameSnapshot,
    cells: Seq<Option<Piece>>,
    from: (usize, usize),
    to: (usize, usize),
)
    requires
        sound_position(state, cells),
        state.legal(cells, square(from), square(to)),
    ensures
        sound_position(state.attempt(cells, from, to).0, state.attempt(cells, from, to).1),
{
    let mover = state.current_turn;
    let enemy = mover.opponent();
    let after = cells_after_move(state.last_move, cells, square(from), square(to));
    let f = square(from);
    let t = square(to);
    state.lemma_legal_move_is_on_board(cells, f, t);
    state.lemma_move_passes_turn(cells, from, to);
    lemma_move_makes_no_king(state, cells, from, to, PieceColor::White);
    lemma_move_makes_no_king(state, cells, from, to, PieceColor::Black);

    // The enemy king was not attacked, so it stands where it stood.
    lemma_king_square_is_the_first(cells, enemy);
    let enemy_king = king_square(cells, enemy)->0;
    lemma_unattacked_king_is_not_taken(state, cells, from, to, enemy_king);
    lemma_king_on_board_is_found(after, enemy, cell(enemy_king));

    // The mover's king stands where it stood, or where it has just gone.
    lemma_king_square_is_the_first(cells, mover);
    let own_king = king_square(cells, mover)->0;
    lemma_own_king_stays_on_board(state, cells, from, to, own_king);

    // The move did not leave the mover in check.
    assert(!in_check(after, mover)) by {
        reveal(GameSnapshot::legal);
    }

    // A right that is still held was held before, and the move touched
    // neither the king nor the rook that it speaks of.
    assert(rights_match_board(state.attempt(cells, from, to).0, after)) by {
        assert forall|color: PieceColor, kingside: bool| #[trigger]
            state.attempt(cells, from, to).0.may_castle(color, kingside) implies {
            &&& piece_on(after, (home_row(color), 4int)) == Some(
                Piece { piece_type: PieceType::King, color },
            )
            &&& piece_on(after, rook_corner(home_row(color), kingside)) == Some(
                Piece { piece_type: PieceType::Rook, color },
            )
        } by {
            state.lemma_attempt_keeps_no_lost_right(cells, from, to, color, kingside);
            assert(state.may_castle(color, kingside));
            lemma_rook_at_home_stays(state, cells, from, to, color, kingside);
            if color == mover {
                assert(own_king == (home_row(color), 4int));
            } else {
                assert(enemy_king == (home_row(color), 4int));
            }
        }
    }

    // Where the move was a pawn's double step, the square passed over is
    // empty.
    assert(passed_square_is_empty(Some((from, to)), after)) by {
        reveal(GameSnapshot::legal);
        assert forall|origin: (int, int), target: (int, int)|
            on_board(target) && #[trigger] en_passant(
                Some((from, to)),
                after,
                origin,
                target,
            ) implies piece_on(after, target) is None by {
            let passed = piece_on(after, t)->0;
            assert(piece_on(cells, f) == Some(passed));
            assert(target == (f.0 + passed.color.forward(), f.1));
            assert(piece_on(cells, target) is None);
        }
    }
}

/// A legal move that leaves a castling right as it is leaves the rook of
/// that wing in its corner.
proof fn lemma_rook_at_home_stays(
    state: GameSnapshot,
    cells: Seq<Option<Piece>>,
    from: (usize, usize),
    to: (usize, usize),
    color: PieceColor,
    kingside: bool,
)
    requires
        cells.len() == 64,
        state.legal(cells, square(from), square(to)),
        keeps_right(cells, square(from), square(to), color, kingside),
        piece_on(cells, rook_corner(home_row(color), kingside)) == Some(
            Piece { piece_type: PieceType::Rook, color },
        ),
    ensures
        piece_on(
            cells_after_move(state.last_move, cells, square(from), square(to)),
            rook_corner(home_row(color), kingside),
        ) == Some(Piece { piece_type: PieceType::Rook, color }),
{
    reveal(GameSnapshot::legal);
}

/// After a legal move from a sound position the mover still has its king on
/// the board.
proof fn lemma_own_king_stays_on_board(
    state: GameSnapshot,
    cells: Seq<Option<Piece>>,
    from: (usize, usize),
    to: (usize, usize),
    king: (int, int),
)
    requires
        cells.len() == 64,
        state.legal(cells, square(from), square(to)),
        passed_square_is_empty(state.last_move, cells),
        on_board(king),
        piece_on(cells, king) == Some(
            Piece { piece_type: PieceType::King, color: state.current_turn },
        ),
    ensures
        king_square(
            cells_after_move(state.last_move, cells, square(from), square(to)),
            state.current_turn,
        ) is Some,
        king != square(from) ==> piece_on(
            cells_after_move(state.last_move, cells, square(from), square(to)),
            king,
        ) == piece_on(cells, king),
{
    reveal(GameSnapshot::legal);
    let after = cells_after_move(state.last_move, cells, square(from), square(to));
    let f = square(from);
    let t = square(to);
    if king == f {
        assert(piece_on(after, t) == piece_on(cells, f));
        lemma_king_on_board_is_found(after, state.current_turn, cell(t));
    } else {
        if castling_shape(cells, f, t) {
            let corner = rook_corner(f.0, t.1 == 6);
            let crossed = (f.0, (f.1 + t.1) / 2);
            assert(path_square(f, corner, 1) == crossed);
            assert(path_square(f, corner, 2) == t);
            assert(piece_on(cells, crossed) is None);
            assert(piece_on(cells, t) is None);
        }
        if en_passant(state.last_move, cells, f, t) {
            assert(piece_on(cells, t) is None);
        }
        assert(piece_on(after, king) == piece_on(cells, king));
        lemma_king_on_board_is_found(after, state.current_turn, cell(king));
    }
}

/// Whatever is attempted in a game that starts from a sound position, the
/// position stays sound: both kings stay on the board, neither side gets a
/// second one, and the side that has just moved is never in check.
pub proof fn lemma_play_keeps_position_sound(
    state: GameSnapshot,
    cells: Seq<Option<Piece>>,
    attempts: Seq<((usize, usize), (usize, usize))>,
)
    requires
        sound_position(state, cells),
    ensures
        sound_position(state.play(cells, attempts).0, state.play(cells, attempts).1),
    decreases attempts.len(),
{
    if attempts.len() > 0 {
        lemma_play_keeps_position_sound(state, cells, attempts.drop_last());
        let (reached, board) = state.play(cells, attempts.drop_last());
        let (from, to) = attempts.last();
        if reached.legal(board, square(from), square(to)) {
            lemma_move_keeps_position_sound(reached, board, from, to);
        }
    }
}

/// Once a piece of the attacked side has captured an attacker, that
/// attacker attacks nothing any more.
///
/// If the piece on `attacker` is an enemy of `defending` that bears on
/// `target`, and a piece of `defending` standing on `by` takes it, then
/// after the capture the square `attacker` holds no enemy of `defending`
/// bearing on `target` or on any other square.
pub proof fn lemma_capture_removes_attack(
    cells: Seq<Option<Piece>>,
    attacker: (int, int),
    target: (int, int),
    by: (int, int),
    defending: PieceColor,
)
    requires
        cells.len() == 64,
        attacker_on(cells, attacker, target, defending),
        on_board(by),
        holds_side(cells, by, defending),
    ensures
        by != attacker,
        forall|sq: (int, int)|
            !#[trigger] attacker_on(
                relocated(cells, cell(by), cell(attacker)),
                attacker,
                sq,
                defending,
            ),
{
    let after = relocated(cells, cell(by), cell(attacker));
    assert(piece_on(after, attacker) == piece_on(cells, by));
}

/// A path is as clear in one direction as in the other.
pub proof fn lemma_path_clear_both_ways(
    cells: Seq<Option<Piece>>,
    from: (int, int),
    to: (int, int),
)
    requires
        aligned(from, to),
    ensures
        path_clear(cells, from, to) == path_clear(cells, to, from),
{
    let n = span(from, to);
    assert(span(to, from) == n);
    assert forall|k: int| 0 < k < n implies #[trigger] path_square(to, from, k) == path_square(
        from,
        to,
        n - k,
    ) by {}
    assert forall|k: int| 0 < k < n implies #[trigger] path_square(from, to, k) == path_square(
        to,
        from,
        n - k,
    ) by {}
    if path_clear(cells, from, to) {
        assert forall|k: int| 0 < k < n implies piece_on(
            cells,
            #[trigger] path_square(to, from, k),
        ) is None by {
            assert(piece_on(cells, path_square(from, to, n - k)) is None);
        }
    }
    if path_clear(cells, to, from) {
        assert forall|k: int| 0 < k < n implies piece_on(
            cells,
            #[trigger] path_square(from, to, k),
        ) is None by {
            assert(piece_on(cells, path_square(to, from, n - k)) is None);
        }
    }
}

/// Between enemies of one kind an attack is mutual: if a piece bears on a
/// square that holds an enemy piece of its own kind, that piece bears on it
/// in turn, and so could capture it.
pub proof fn lemma_attack_is_mutual(cells: Seq<Option<Piece>>, from: (int, int), target: (int, int))
    requires
        on_board(from),
        bears_on(cells, from, target),
        piece_on(cells, from) matches Some(piece) && holds_kind(cells, target, piece.piece_type)
            && holds_side(cells, target, piece.color.opponent()),
    ensures
        bears_on(cells, target, from),
        attacker_on(cells, from, target, piece_on(cells, target)->0.color),
        attacker_on(cells, target, from, piece_on(cells, from)->0.color),
{
    let piece = piece_on(cells, from)->0;
    if piece.piece_type != PieceType::Pawn && piece.piece_type != PieceType::Knight {
        lemma_path_clear_both_ways(cells, from, target);
    }
}

/// Only enemies attack: a square is attacked for `defending` exactly when
/// some square of the board holds a piece of the other side that bears on
/// it, so a piece of `defending` never adds to the attack on a square.
pub proof fn lemma_attackers_are_enemies(
    cells: Seq<Option<Piece>>,
    from: (int, int),
    target: (int, int),
    defending: PieceColor,
)
    requires
        attacker_on(cells, from, target, defending),
    ensures
        on_board(from),
        on_board(target),
        from != target,
        holds_side(cells, from, defending.opponent()),
        square_attacked(cells, target, defending),
{
}

} // verus!
