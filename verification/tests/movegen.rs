use chess_core::board::{BitBoard, Board};
use chess_core::movegen::{Move, MoveType};
use chess_core::types::{Piece, PieceType, Side};

#[test]
fn test_is_capture() {
    assert_eq!(false, MoveType::Quiet.is_capture());
    assert_eq!(false, MoveType::DoublePawnPush.is_capture());
    assert_eq!(true, MoveType::Capture.is_capture());
    assert_eq!(true, MoveType::KnightPromoteCapture.is_capture());
}

#[test]
fn test_is_capture_all_categories() {
    let capturing = [
        MoveType::Capture,
        MoveType::EnPassant,
        MoveType::KnightPromoteCapture,
        MoveType::BishopPromoteCapture,
        MoveType::RookPromoteCapture,
        MoveType::QueenPromoteCapture,
    ];
    let quiet = [
        MoveType::Quiet,
        MoveType::DoublePawnPush,
        MoveType::KingsideCastle,
        MoveType::QueensideCastle,
        MoveType::KnightPromote,
        MoveType::BishopPromote,
        MoveType::RookPromote,
        MoveType::QueenPromote,
    ];
    for c in capturing {
        assert!(c.is_capture());
    }
    for q in quiet {
        assert!(!q.is_capture());
    }
}

#[test]
fn test_move_is_capture() {
    let m = Move {
        piece: Piece {
            side: Side::White,
            ptype: PieceType::Pawn,
        },
        origin: "e5".to_string(),
        target: "d6".to_string(),
        move_type: MoveType::EnPassant,
    };
    assert!(m.is_capture());
}

#[test]
fn test_quiet_move_apply() {
    let mut board = Board::new();
    let piece = Piece {
        side: Side::White,
        ptype: PieceType::Knight,
    };
    let quiet_move = Move {
        piece: piece,
        origin: "b1".to_string(),
        target: "c3".to_string(),
        move_type: MoveType::Quiet,
    };

    assert!(quiet_move.apply(&mut board).is_ok());

    assert_eq!(
        BitBoard::from("c3").unwrap() ^ BitBoard::from("g1").unwrap(),
        board.bit_board_for(piece)
    );
    assert_eq!(
        BitBoard(0x000000000000ff00),
        board.bit_board_for(Piece {
            side: Side::White,
            ptype: PieceType::Pawn
        })
    );
    assert_eq!(Some(piece), board.get_square("c3"));
    assert_eq!(None, board.get_square("b1"));
}

#[test]
fn test_double_pawn_push() {
    let mut board = Board::new();
    let piece = Piece {
        side: Side::Black,
        ptype: PieceType::Pawn,
    };
    let double_pawn_push = Move {
        piece: piece,
        origin: "c7".to_string(),
        target: "c5".to_string(),
        move_type: MoveType::DoublePawnPush,
    };

    assert!(double_pawn_push.apply(&mut board).is_ok());

    assert_eq!(
        BitBoard::from("b1").unwrap() ^ BitBoard::from("g1").unwrap(),
        board.bit_board_for(Piece {
            side: Side::White,
            ptype: PieceType::Knight
        })
    );
    assert_eq!(BitBoard(0x00fb000400000000), board.bit_board_for(piece));
    assert_eq!(Some(piece), board.get_square("c5"));
    assert_eq!(None, board.get_square("c7"));
}

#[test]
fn test_apply_rejects_bad_squares() {
    let mut board = Board::new();
    let piece = Piece {
        side: Side::White,
        ptype: PieceType::Knight,
    };
    let bad_origin = Move {
        piece: piece,
        origin: "z9".to_string(),
        target: "c3".to_string(),
        move_type: MoveType::Quiet,
    };
    assert!(bad_origin.apply(&mut board).is_err());
    let bad_target = Move {
        piece: piece,
        origin: "b1".to_string(),
        target: "c0".to_string(),
        move_type: MoveType::Quiet,
    };
    assert!(bad_target.apply(&mut board).is_err());
    // rejected before anything changes
    assert_eq!(BitBoard(0x42), board.bit_board_for(piece));
    assert_eq!(
        Some(piece),
        board.get_square("b1")
    );
}

#[test]
fn test_capture_apply() {
    let mut board = Board::new();
    let knight = Piece {
        side: Side::White,
        ptype: PieceType::Knight,
    };
    let capture = Move {
        piece: knight,
        origin: "b1".to_string(),
        target: "d7".to_string(),
        move_type: MoveType::Capture,
    };

    assert!(capture.apply(&mut board).is_ok());

    assert_eq!(BitBoard(0x0008000000000040), board.bit_board_for(knight));
    assert_eq!(
        BitBoard(0x00f7000000000000),
        board.bit_board_for(Piece {
            side: Side::Black,
            ptype: PieceType::Pawn
        })
    );
    assert_eq!(Some(knight), board.get_square("d7"));
    assert_eq!(None, board.get_square("b1"));
}

#[test]
fn test_en_passant_apply() {
    let mut board = Board::new();
    let white_pawn = Piece {
        side: Side::White,
        ptype: PieceType::Pawn,
    };
    let black_pawn = Piece {
        side: Side::Black,
        ptype: PieceType::Pawn,
    };
    let advance = Move {
        piece: white_pawn,
        origin: "e2".to_string(),
        target: "e5".to_string(),
        move_type: MoveType::Quiet,
    };
    assert!(advance.apply(&mut board).is_ok());
    let push = Move {
        piece: black_pawn,
        origin: "d7".to_string(),
        target: "d5".to_string(),
        move_type: MoveType::DoublePawnPush,
    };
    assert!(push.apply(&mut board).is_ok());
    let en_passant = Move {
        piece: white_pawn,
        origin: "e5".to_string(),
        target: "d6".to_string(),
        move_type: MoveType::EnPassant,
    };
    assert!(en_passant.apply(&mut board).is_ok());

    assert_eq!(BitBoard(0x000008000000ef00), board.bit_board_for(white_pawn));
    assert_eq!(BitBoard(0x00f7000000000000), board.bit_board_for(black_pawn));
    assert_eq!(Some(white_pawn), board.get_square("d6"));
    assert_eq!(None, board.get_square("e5"));
    assert_eq!(None, board.get_square("d5"));
}

#[test]
fn test_kingside_castle_apply() {
    let mut board = Board::new();
    let king = Piece {
        side: Side::White,
        ptype: PieceType::King,
    };
    let rook = Piece {
        side: Side::White,
        ptype: PieceType::Rook,
    };
    let castle = Move {
        piece: king,
        origin: "e1".to_string(),
        target: "g1".to_string(),
        move_type: MoveType::KingsideCastle,
    };

    assert!(castle.apply(&mut board).is_ok());

    assert_eq!(BitBoard(0x40), board.bit_board_for(king));
    assert_eq!(BitBoard(0x21), board.bit_board_for(rook));
    assert_eq!(Some(king), board.get_square("g1"));
    assert_eq!(Some(rook), board.get_square("f1"));
    assert_eq!(None, board.get_square("e1"));
    assert_eq!(None, board.get_square("h1"));
}

#[test]
fn test_queenside_castle_apply() {
    let mut board = Board::new();
    let king = Piece {
        side: Side::Black,
        ptype: PieceType::King,
    };
    let rook = Piece {
        side: Side::Black,
        ptype: PieceType::Rook,
    };
    let castle = Move {
        piece: king,
        origin: "e8".to_string(),
        target: "c8".to_string(),
        move_type: MoveType::QueensideCastle,
    };

    assert!(castle.apply(&mut board).is_ok());

    // king e8 -> c8; rook a8 -> d8
    assert_eq!(BitBoard(1u64 << 58), board.bit_board_for(king));
    assert_eq!(BitBoard((1u64 << 59) | (1u64 << 63)), board.bit_board_for(rook));
    assert_eq!(Some(king), board.get_square("c8"));
    assert_eq!(Some(rook), board.get_square("d8"));
    assert_eq!(None, board.get_square("e8"));
    assert_eq!(None, board.get_square("a8"));
}

#[test]
fn test_queen_promote_apply() {
    let mut board = Board::new();
    let pawn = Piece {
        side: Side::White,
        ptype: PieceType::Pawn,
    };
    let queen = Piece {
        side: Side::White,
        ptype: PieceType::Queen,
    };
    board.set_bit_board(BitBoard(1u64 << 48), pawn);
    let promote = Move {
        piece: pawn,
        origin: "a7".to_string(),
        target: "a8".to_string(),
        move_type: MoveType::QueenPromote,
    };

    assert!(promote.apply(&mut board).is_ok());

    assert_eq!(BitBoard(0), board.bit_board_for(pawn));
    assert_eq!(BitBoard(0x0100000000000008), board.bit_board_for(queen));
    assert_eq!(Some(queen), board.get_square("a8"));
    assert_eq!(None, board.get_square("a7"));
}

#[test]
fn test_rook_promote_capture_apply() {
    let mut board = Board::new();
    let pawn = Piece {
        side: Side::Black,
        ptype: PieceType::Pawn,
    };
    let rook = Piece {
        side: Side::Black,
        ptype: PieceType::Rook,
    };
    let promote = Move {
        piece: pawn,
        origin: "b2".to_string(),
        target: "a1".to_string(),
        move_type: MoveType::RookPromoteCapture,
    };

    assert!(promote.apply(&mut board).is_ok());

    assert_eq!(BitBoard(0x8100000000000001), board.bit_board_for(rook));
    assert_eq!(
        BitBoard(0x80),
        board.bit_board_for(Piece {
            side: Side::White,
            ptype: PieceType::Rook
        })
    );
    assert_eq!(
        BitBoard(0x08),
        board.bit_board_for(Piece {
            side: Side::White,
            ptype: PieceType::Queen
        })
    );
    assert_eq!(Some(rook), board.get_square("a1"));
    assert_eq!(None, board.get_square("b2"));
}

fn assert_synchronized(board: &Board) {
    let mut masks: Vec<(Piece, u64)> = Vec::new();
    let sides = [Side::White, Side::Black];
    let types = [
        PieceType::Pawn,
        PieceType::Knight,
        PieceType::Bishop,
        PieceType::Rook,
        PieceType::Queen,
        PieceType::King,
    ];
    for side in sides {
        for ptype in types {
            let piece = Piece { side, ptype };
            masks.push((piece, board.bit_board_for(piece).0));
        }
    }
    for index in 0u8..64 {
        let text = chess_core::board::square_for_index(index).unwrap();
        let occupant = board.get_square(&text);
        for (piece, mask) in &masks {
            let bit = mask & (1u64 << index) != 0;
            assert_eq!(occupant == Some(*piece), bit);
        }
    }
}

#[test]
fn test_moves_keep_mailbox_synchronized() {
    let mut board = Board::new();
    assert_synchronized(&board);

    let moves = [
        (Side::White, PieceType::Knight, "b1", "c3", MoveType::Quiet),
        (Side::Black, PieceType::Pawn, "d7", "d5", MoveType::DoublePawnPush),
        (Side::White, PieceType::Knight, "c3", "d5", MoveType::Capture),
        (Side::White, PieceType::Knight, "g1", "h3", MoveType::Quiet),
        (Side::White, PieceType::Bishop, "f1", "c4", MoveType::Quiet),
        (Side::White, PieceType::King, "e1", "g1", MoveType::KingsideCastle),
    ];
    for (side, ptype, origin, target, move_type) in moves {
        let step = Move {
            piece: Piece { side, ptype },
            origin: origin.to_string(),
            target: target.to_string(),
            move_type,
        };
        assert!(step.apply(&mut board).is_ok());
        assert_synchronized(&board);
    }
}
