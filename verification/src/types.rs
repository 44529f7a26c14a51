//! Sides, piece types, pieces, the glyph mapping used by board setup,
//! and the typed errors returned by the text-parsing entry points.

use vstd::prelude::*;

verus! {

/// Pick a side
#[derive(Debug, Copy, Clone, PartialEq, Eq, Structural)]
pub enum Side {
    White,
    Black,
}

impl Side {
    /// The opposing side.
    pub open spec fn spec_other(self) -> Side {
        match self {
            Side::White => Side::Black,
            Side::Black => Side::White,
        }
    }

    /// The opposing side.
    pub fn other(self) -> (r: Side)
        ensures
            r == self.spec_other(),
    {
        match self {
            Side::White => Side::Black,
            Side::Black => Side::White,
        }
    }
}

/// Piece types
#[derive(Debug, Copy, Clone, PartialEq, Eq, Structural)]
pub enum PieceType {
    Pawn,
    Knight,
    Bishop,
    Rook,
    Queen,
    King,
}

/// A piece: a type together with the side that owns it.
#[derive(Debug, Copy, Clone, PartialEq, Eq, Structural)]
pub struct Piece {
    pub ptype: PieceType,
    pub side: Side,
}

/// The Unicode glyph that stands for a piece.
pub open spec fn glyph_of(p: Piece) -> char {
    match p.side {
        Side::White => match p.ptype {
            PieceType::Pawn => '♙',
            PieceType::Knight => '♘',
            PieceType::Bishop => '♗',
            PieceType::Rook => '♖',
            PieceType::Queen => '♕',
            PieceType::King => '♔',
        },
        Side::Black => match p.ptype {
            PieceType::Pawn => '♟',
            PieceType::Knight => '♞',
            PieceType::Bishop => '♝',
            PieceType::Rook => '♜',
            PieceType::Queen => '♛',
            PieceType::King => '♚',
        },
    }
}

/// The piece a single character stands for, if it is one of the twelve
/// standard chess glyphs.
pub open spec fn piece_for_char(c: char) -> Option<Piece> {
    if c == '♙' {
        Some(Piece { side: Side::White, ptype: PieceType::Pawn })
    } else if c == '♘' {
        Some(Piece { side: Side::White, ptype: PieceType::Knight })
    } else if c == '♗' {
        Some(Piece { side: Side::White, ptype: PieceType::Bishop })
    } else if c == '♖' {
        Some(Piece { side: Side::White, ptype: PieceType::Rook })
    } else if c == '♕' {
        Some(Piece { side: Side::White, ptype: PieceType::Queen })
    } else if c == '♔' {
        Some(Piece { side: Side::White, ptype: PieceType::King })
    } else if c == '♟' {
        Some(Piece { side: Side::Black, ptype: PieceType::Pawn })
    } else if c == '♞' {
        Some(Piece { side: Side::Black, ptype: PieceType::Knight })
    } else if c == '♝' {
        Some(Piece { side: Side::Black, ptype: PieceType::Bishop })
    } else if c == '♜' {
        Some(Piece { side: Side::Black, ptype: PieceType::Rook })
    } else if c == '♛' {
        Some(Piece { side: Side::Black, ptype: PieceType::Queen })
    } else if c == '♚' {
        Some(Piece { side: Side::Black, ptype: PieceType::King })
    } else {
        None
    }
}

/// The piece a piece of text stands for: exactly one character, and that
/// character one of the twelve glyphs.
pub open spec fn piece_for_text(s: Seq<char>) -> Option<Piece> {
    if s.len() == 1 {
        piece_for_char(s[0])
    } else {
        None
    }
}

impl Piece {
    /// Parses one of the twelve standard chess glyphs; any other text is
    /// rejected with a typed failure.
    pub fn try_from(piece: &str) -> (r: Result<Piece, InvalidPieceError>)
        ensures
            match r {
                Ok(p) => piece_for_text(piece@) == Some(p),
                Err(_) => piece_for_text(piece@) is None,
            },
    {
        if piece.unicode_len() != 1 {
            return Err(InvalidPieceError {});
        }
        let c = piece.get_char(0);
        match piece_char_lookup(c) {
            Some(p) => Ok(p),
            None => Err(InvalidPieceError {}),
        }
    }

    /// The Unicode glyph that stands for this piece.
    pub fn glyph(&self) -> (c: char)
        ensures
            c == glyph_of(*self),
    {
        match self.side {
            Side::White => match self.ptype {
                PieceType::Pawn => '♙',
                PieceType::Knight => '♘',
                PieceType::Bishop => '♗',
                PieceType::Rook => '♖',
                PieceType::Queen => '♕',
                PieceType::King => '♔',
            },
            Side::Black => match self.ptype {
                PieceType::Pawn => '♟',
                PieceType::Knight => '♞',
                PieceType::Bishop => '♝',
                PieceType::Rook => '♜',
                PieceType::Queen => '♛',
                PieceType::King => '♚',
            },
        }
    }
}

/// Looks a single character up in the glyph mapping.
fn piece_char_lookup(c: char) -> (r: Option<Piece>)
    ensures
        r == piece_for_char(c),
{
    if c == '♙' {
        Some(Piece { side: Side::White, ptype: PieceType::Pawn })
    } else if c == '♘' {
        Some(Piece { side: Side::White, ptype: PieceType::Knight })
    } else if c == '♗' {
        Some(Piece { side: Side::White, ptype: PieceType::Bishop })
    } else if c == '♖' {
        Some(Piece { side: Side::White, ptype: PieceType::Rook })
    } else if c == '♕' {
        Some(Piece { side: Side::White, ptype: PieceType::Queen })
    } else if c == '♔' {
        Some(Piece { side: Side::White, ptype: PieceType::King })
    } else if c == '♟' {
        Some(Piece { side: Side::Black, ptype: PieceType::Pawn })
    } else if c == '♞' {
        Some(Piece { side: Side::Black, ptype: PieceType::Knight })
    } else if c == '♝' {
        Some(Piece { side: Side::Black, ptype: PieceType::Bishop })
    } else if c == '♜' {
        Some(Piece { side: Side::Black, ptype: PieceType::Rook })
    } else if c == '♛' {
        Some(Piece { side: Side::Black, ptype: PieceType::Queen })
    } else if c == '♚' {
        Some(Piece { side: Side::Black, ptype: PieceType::King })
    } else {
        None
    }
}

/// The glyph mapping is bidirectional: every piece's glyph parses back to
/// that piece, and every character that parses to a piece is that piece's
/// glyph.
pub proof fn lemma_glyph_round_trip(p: Piece, c: char)
    ensures
        piece_for_char(glyph_of(p)) == Some(p),
        piece_for_char(c) == Some(p) ==> glyph_of(p) == c,
{
}

// Error types

/// Error type for piece parse failures
#[derive(Debug, Copy, Clone, PartialEq, Eq, Structural)]
pub struct InvalidPieceError {}

/// Error type for square parse failures
#[derive(Debug, Copy, Clone, PartialEq, Eq, Structural)]
pub struct InvalidSquareError {}

/// Error type for file parse failures
#[derive(Debug, Copy, Clone, PartialEq, Eq, Structural)]
pub struct InvalidFileError {}

} // verus!
