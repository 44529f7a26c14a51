use chess_core::types::{Piece, PieceType, Side};

#[test]
fn test_piece_try_from() {
    assert_eq!(
        Piece {
            side: Side::White,
            ptype: PieceType::Queen
        },
        Piece::try_from("♕").unwrap()
    );
    assert!(Piece::try_from("bad input").is_err());
}

#[test]
fn test_piece_try_from_rejects_non_glyphs() {
    assert!(Piece::try_from("").is_err());
    assert!(Piece::try_from("Q").is_err());
    assert!(Piece::try_from("♕♕").is_err());
}

#[test]
fn test_glyph_round_trip() {
    let sides = [Side::White, Side::Black];
    let types = [
        PieceType::Pawn,
        PieceType::Knight,
        PieceType::Bishop,
        PieceType::Rook,
        PieceType::Queen,
        PieceType::King,
    ];
    for side in sides {
        for ptype in types {
            let piece = Piece { side, ptype };
            let glyph = piece.glyph();
            assert_eq!(piece, Piece::try_from(&glyph.to_string()).unwrap());
        }
    }
}

#[test]
fn test_glyphs() {
    assert_eq!(
        '♔',
        Piece {
            side: Side::White,
            ptype: PieceType::King
        }
        .glyph()
    );
    assert_eq!(
        '♟',
        Piece {
            side: Side::Black,
            ptype: PieceType::Pawn
        }
        .glyph()
    );
}

#[test]
fn test_side_other() {
    assert_eq!(Side::Black, Side::White.other());
    assert_eq!(Side::White, Side::Black.other());
}
