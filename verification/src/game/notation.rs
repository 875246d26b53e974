use super::game_state::GameStatus;
use crate::pieces::piece::{Piece, PieceColor};
use crate::pieces::piece_type::PieceType;
use vstd::prelude::*;

verus! {

/// The letter of a file: `a` for column 0 up to `h` for column 7.
pub open spec fn file_letter(col: int) -> char {
    seq!['a', 'b', 'c', 'd', 'e', 'f', 'g', 'h'][col]
}

/// The digit of a rank: `8` for row 0 down to `1` for row 7.
pub open spec fn rank_digit(row: int) -> char {
    seq!['8', '7', '6', '5', '4', '3', '2', '1'][row]
}

/// The name of a square: its file letter, then its rank digit.
pub open spec fn square_name(sq: (int, int)) -> Seq<char> {
    seq![file_letter(sq.1), rank_digit(sq.0)]
}

/// The letter that stands for a kind of piece in a move's text; a pawn has
/// none.
pub open spec fn piece_symbol(kind: PieceType) -> Seq<char> {
    match kind {
        PieceType::King => seq!['K'],
        PieceType::Queen => seq!['Q'],
        PieceType::Rook => seq!['R'],
        PieceType::Bishop => seq!['B'],
        PieceType::Knight => seq!['N'],
        PieceType::Pawn => Seq::empty(),
    }
}

/// The character of a decimal digit.
pub open spec fn digit_char(d: int) -> char {
    seq!['0', '1', '2', '3', '4', '5', '6', '7', '8', '9'][d]
}

/// A natural number written in decimal, without leading zeros.
pub open spec fn decimal(n: nat) -> Seq<char>
    decreases n,
{
    if n < 10 {
        seq![digit_char(n as int)]
    } else {
        decimal(n / 10).push(digit_char((n % 10) as int))
    }
}

/// The mark that a move's text carries for the standing it brings about:
/// `+` for check, `#` for checkmate, nothing otherwise.
pub open spec fn status_mark(status: GameStatus) -> Seq<char> {
    match status {
        GameStatus::Check => seq!['+'],
        GameStatus::Checkmate => seq!['#'],
        _ => Seq::empty(),
    }
}

/// The text of a move in short algebraic notation, before the mark for
/// check or checkmate.
///
/// Castling is written `O-O` towards the h-file and `O-O-O` towards the
/// a-file. Any other move is written as the letter of the piece (none for a
/// pawn), an `x` if something was captured, and the name of the square moved
/// to; a capturing pawn is named by the file it leaves. A promotion adds
/// `=Q`.
pub open spec fn move_body(
    piece: Piece,
    from: (int, int),
    to: (int, int),
    capture: bool,
    castling: bool,
    promotion: bool,
) -> Seq<char> {
    let body = if castling {
        if to.1 == 6 {
            seq!['O', '-', 'O']
        } else {
            seq!['O', '-', 'O', '-', 'O']
        }
    } else {
        piece_symbol(piece.piece_type) + (if capture && piece.piece_type == PieceType::Pawn {
            seq![file_letter(from.1)]
        } else {
            Seq::empty()
        }) + (if capture {
            seq!['x']
        } else {
            Seq::empty()
        }) + square_name(to)
    };
    body + (if promotion {
        seq!['=', 'Q']
    } else {
        Seq::empty()
    })
}

/// The full text of a move: its body and the mark of the standing that it
/// brings about.
pub open spec fn move_text(
    piece: Piece,
    from: (int, int),
    to: (int, int),
    capture: bool,
    castling: bool,
    promotion: bool,
    status: GameStatus,
) -> Seq<char> {
    move_body(piece, from, to, capture, castling, promotion) + status_mark(status)
}

/// The move record after a move with the given text has been entered. A
/// move of White opens a new entry, made of the entry's number, a full stop,
/// a space and the text. A move of Black is added to the newest entry after
/// a space; with no entry to add to, it is not recorded.
pub open spec fn recorded(
    history: Seq<Seq<char>>,
    mover: PieceColor,
    text: Seq<char>,
) -> Seq<Seq<char>> {
    match mover {
        PieceColor::White => history.push(
            decimal((history.len() + 1) as nat) + seq!['.', ' '] + text,
        ),
        PieceColor::Black => if history.len() > 0 {
            history.drop_last().push(history.last() + seq![' '] + text)
        } else {
            history
        },
    }
}

/// The file letter of a column as a text.
pub fn file_text(col: usize) -> (text: &'static str)
    requires
        col < 8,
    ensures
        text@ == seq![file_letter(col as int)],
{
    proof {
        reveal_strlit("a");
        reveal_strlit("b");
        reveal_strlit("c");
        reveal_strlit("d");
        reveal_strlit("e");
        reveal_strlit("f");
        reveal_strlit("g");
        reveal_strlit("h");
    }
    let text = match col {
        0 => "a",
        1 => "b",
        2 => "c",
        3 => "d",
        4 => "e",
        5 => "f",
        6 => "g",
        _ => "h",
    };
    assert(text@ =~= seq![file_letter(col as int)]);
    text
}

/// The rank digit of a row as a text.
pub fn rank_text(row: usize) -> (text: &'static str)
    requires
        row < 8,
    ensures
        text@ == seq![rank_digit(row as int)],
{
    proof {
        reveal_strlit("1");
        reveal_strlit("2");
        reveal_strlit("3");
        reveal_strlit("4");
        reveal_strlit("5");
        reveal_strlit("6");
        reveal_strlit("7");
        reveal_strlit("8");
    }
    let text = match row {
        0 => "8",
        1 => "7",
        2 => "6",
        3 => "5",
        4 => "4",
        5 => "3",
        6 => "2",
        _ => "1",
    };
    assert(text@ =~= seq![rank_digit(row as int)]);
    text
}

/// A decimal digit as a text.
fn digit_text(d: usize) -> (text: &'static str)
    requires
        d < 10,
    ensures
        text@ == seq![digit_char(d as int)],
{
    proof {
        reveal_strlit("0");
        reveal_strlit("1");
        reveal_strlit("2");
        reveal_strlit("3");
        reveal_strlit("4");
        reveal_strlit("5");
        reveal_strlit("6");
        reveal_strlit("7");
        reveal_strlit("8");
        reveal_strlit("9");
    }
    let text = match d {
        0 => "0",
        1 => "1",
        2 => "2",
        3 => "3",
        4 => "4",
        5 => "5",
        6 => "6",
        7 => "7",
        8 => "8",
        _ => "9",
    };
    assert(text@ =~= seq![digit_char(d as int)]);
    text
}

/// A number written in decimal.
pub fn number_text(n: usize) -> (text: String)
    ensures
        text@ == decimal(n as nat),
    decreases n,
{
    if n < 10 {
        String::from_str(digit_text(n))
    } else {
        let mut text = number_text(n / 10);
        text.append(digit_text(n % 10));
        assert(text@ =~= decimal((n / 10) as nat).push(digit_char((n % 10) as int)));
        text
    }
}

} // verus!
