use vstd::prelude::*;

use crate::text::push_char;

verus! {

/// The two sides of a chess game.
#[derive(PartialEq, Eq, Structural, Debug, Copy, Clone)]
pub enum Color {
    Black,
    White,
}

/// A chess piece together with the side it belongs to.
#[derive(PartialEq, Eq, Structural, Debug, Copy, Clone)]
pub enum Piece {
    King(Color),
    Queen(Color),
    Rook(Color),
    Bishop(Color),
    Knight(Color),
    Pawn(Color),
}

/// The opposing side.
pub open spec fn opponent(c: Color) -> Color {
    match c {
        Color::Black => Color::White,
        Color::White => Color::Black,
    }
}

/// The side a piece belongs to.
pub open spec fn color_of(p: Piece) -> Color {
    match p {
        Piece::King(c) => c,
        Piece::Queen(c) => c,
        Piece::Rook(c) => c,
        Piece::Bishop(c) => c,
        Piece::Knight(c) => c,
        Piece::Pawn(c) => c,
    }
}

/// The one-letter board encoding of a piece: the kind's letter, upper case
/// for white and lower case for black.
pub open spec fn repr_char(p: Piece) -> char {
    match p {
        Piece::King(Color::White) => 'K',
        Piece::Queen(Color::White) => 'Q',
        Piece::Rook(Color::White) => 'R',
        Piece::Bishop(Color::White) => 'B',
        Piece::Knight(Color::White) => 'N',
        Piece::Pawn(Color::White) => 'P',
        Piece::King(Color::Black) => 'k',
        Piece::Queen(Color::Black) => 'q',
        Piece::Rook(Color::Black) => 'r',
        Piece::Bishop(Color::Black) => 'b',
        Piece::Knight(Color::Black) => 'n',
        Piece::Pawn(Color::Black) => 'p',
    }
}

/// The chess figurine of a piece: the white figurines U+2654..U+2659 and the
/// black ones U+265A..U+265F, in the order king, queen, rook, bishop, knight, pawn.
pub open spec fn figurine(p: Piece) -> char {
    match p {
        Piece::King(Color::White) => '\u{2654}',
        Piece::Queen(Color::White) => '\u{2655}',
        Piece::Rook(Color::White) => '\u{2656}',
        Piece::Bishop(Color::White) => '\u{2657}',
        Piece::Knight(Color::White) => '\u{2658}',
        Piece::Pawn(Color::White) => '\u{2659}',
        Piece::King(Color::Black) => '\u{265A}',
        Piece::Queen(Color::Black) => '\u{265B}',
        Piece::Rook(Color::Black) => '\u{265C}',
        Piece::Bishop(Color::Black) => '\u{265D}',
        Piece::Knight(Color::Black) => '\u{265E}',
        Piece::Pawn(Color::Black) => '\u{265F}',
    }
}

/// An upper-case ASCII letter.
pub open spec fn is_upper(c: char) -> bool {
    65 <= (c as u32) <= 90
}

/// A lower-case ASCII letter.
pub open spec fn is_lower(c: char) -> bool {
    97 <= (c as u32) <= 122
}

/// The opposing side of the opposing side is the side itself, and no side opposes itself.
pub proof fn lemma_other_involution(c: Color)
    ensures
        opponent(opponent(c)) == c,
        opponent(c) != c,
{
}

/// The board encoding tells the side: upper case for white, lower case for black.
pub proof fn lemma_repr_case(p: Piece)
    ensures
        color_of(p) == Color::White <==> is_upper(repr_char(p)),
        color_of(p) == Color::Black <==> is_lower(repr_char(p)),
{
}

/// Distinct pieces have distinct board encodings, so a board written with them
/// can be read back piece by piece.
pub proof fn lemma_repr_injective(p: Piece, q: Piece)
    ensures
        repr_char(p) == repr_char(q) ==> p == q,
{
}

/// Distinct pieces have distinct figurines.
pub proof fn lemma_figurine_injective(p: Piece, q: Piece)
    ensures
        figurine(p) == figurine(q) ==> p == q,
{
}

/// The place of a piece's kind in the usual order of chess kinds:
/// king, queen, rook, bishop, knight, pawn.
pub open spec fn kind_index(p: Piece) -> int {
    match p {
        Piece::King(_) => 0,
        Piece::Queen(_) => 1,
        Piece::Rook(_) => 2,
        Piece::Bishop(_) => 3,
        Piece::Knight(_) => 4,
        Piece::Pawn(_) => 5,
    }
}

/// A piece's figurine is the Unicode chess symbol of its own kind and side:
/// white pieces U+2654 onwards and black pieces U+265A onwards, in the order
/// king, queen, rook, bishop, knight, pawn.
pub proof fn lemma_figurine_is_unicode_chess_symbol(p: Piece)
    ensures
        figurine(p) as u32 == (if color_of(p) == Color::White {
            0x2654int
        } else {
            0x265Aint
        }) + kind_index(p),
{
}

/// A piece's board letter is the letter of its kind in `KQRBNP` (king, queen,
/// rook, bishop, knight, pawn), taken from `kqrbnp` for black pieces.
pub proof fn lemma_repr_is_kind_letter(p: Piece)
    ensures
        color_of(p) == Color::White ==> repr_char(p) == "KQRBNP"@[kind_index(p)],
        color_of(p) == Color::Black ==> repr_char(p) == "kqrbnp"@[kind_index(p)],
{
    reveal_strlit("KQRBNP");
    reveal_strlit("kqrbnp");
}

impl Color {
    /// The opposing side.
    pub fn other(&self) -> (c: Color)
        ensures
            c == opponent(*self),
    {
        match self {
            Color::Black => Color::White,
            Color::White => Color::Black,
        }
    }
}

impl Piece {
    /// The side this piece belongs to.
    pub fn get_color(&self) -> (c: &Color)
        ensures
            *c == color_of(*self),
    {
        match self {
            Piece::King(color) => color,
            Piece::Queen(color) => color,
            Piece::Rook(color) => color,
            Piece::Bishop(color) => color,
            Piece::Knight(color) => color,
            Piece::Pawn(color) => color,
        }
    }

    /// Matches every piece: the pattern binds whatever piece this is.
    pub fn _is_some_piece(&self, piece: &Piece) -> (b: bool)
        ensures
            b,
    {
        match self {
            _any => true,
        }
    }

    /// The one-letter board encoding of this piece.
    pub fn get_string_repr(&self) -> (s: String)
        ensures
            s@ == seq![repr_char(*self)],
    {
        let white = *self.get_color() == Color::White;
        let s: &str = match self {
            Piece::King(_) => if white { "K" } else { "k" },
            Piece::Queen(_) => if white { "Q" } else { "q" },
            Piece::Rook(_) => if white { "R" } else { "r" },
            Piece::Bishop(_) => if white { "B" } else { "b" },
            Piece::Knight(_) => if white { "N" } else { "n" },
            Piece::Pawn(_) => if white { "P" } else { "p" },
        };
        proof {
            reveal_strlit("K");
            reveal_strlit("k");
            reveal_strlit("Q");
            reveal_strlit("q");
            reveal_strlit("R");
            reveal_strlit("r");
            reveal_strlit("B");
            reveal_strlit("b");
            reveal_strlit("N");
            reveal_strlit("n");
            reveal_strlit("P");
            reveal_strlit("p");
        }
        String::from_str(s)
    }

    /// The chess figurine of this piece, which a board display shows.
    pub fn figurine_text(&self) -> (s: String)
        ensures
            s@ == seq![figurine(*self)],
    {
        let c: char = match self {
            Piece::King(Color::White) => '\u{2654}',
            Piece::Queen(Color::White) => '\u{2655}',
            Piece::Rook(Color::White) => '\u{2656}',
            Piece::Bishop(Color::White) => '\u{2657}',
            Piece::Knight(Color::White) => '\u{2658}',
            Piece::Pawn(Color::White) => '\u{2659}',
            Piece::King(Color::Black) => '\u{265A}',
            Piece::Queen(Color::Black) => '\u{265B}',
            Piece::Rook(Color::Black) => '\u{265C}',
            Piece::Bishop(Color::Black) => '\u{265D}',
            Piece::Knight(Color::Black) => '\u{265E}',
            Piece::Pawn(Color::Black) => '\u{265F}',
        };
        let mut s = String::new();
        push_char(&mut s, c);
        s
    }
}

} // verus!
