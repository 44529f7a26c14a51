use chess_core::board::{
    file_for_index, file_index_of, lerf_index_for, square_for_index, BitBoard, Board, _8x8Board,
    BLACK_KING_START_POS, BLACK_PAWN_START_POS, BLACK_QUEEN_START_POS, BLACK_ROOK_START_POS,
    WHITE_KING_START_POS, WHITE_PAWN_START_POS, WHITE_QUEEN_START_POS,
};
use chess_core::types::{Piece, PieceType, Side};

#[test]
fn test_file_index_of() {
    assert_eq!(Ok(0), file_index_of('a'));
    assert_eq!(Ok(4), file_index_of('e'));
    assert_eq!(Ok(7), file_index_of('h'));
    assert!(file_index_of('j').is_err());
}

#[test]
fn test_bit_for_square() {
    assert_eq!(BitBoard(0x0100000000000000), BitBoard::from("a8").unwrap());
    assert_eq!(BitBoard(0x0000000000000001), BitBoard::from("a1").unwrap());
    assert_eq!(BitBoard(0x8000000000000000), BitBoard::from("h8").unwrap());
    assert_eq!(BitBoard(0x0004000000000000), BitBoard::from("c7").unwrap());
}

#[test]
fn test_bit_for_square_with_bad_input() {
    assert!(BitBoard::from("bad input").is_err());
    assert!(BitBoard::from("").is_err());
    assert!(BitBoard::from("i3").is_err());
    assert!(BitBoard::from("a9").is_err());
}

#[test]
fn test_bit_board_xor() {
    assert_eq!(
        0x3fba81 ^ 0xfbfbab,
        (BitBoard(0x3fba81) ^ BitBoard(0xfbfbab)).0
    );
    assert_eq!(0xf1f1f1 ^ 0xf1f1f1, BitBoard(0).0);
}

#[test]
fn test_pieceset_initialization() {
    let board = Board::new();

    assert_eq!(WHITE_PAWN_START_POS, board.white.pawns.0);
    assert_eq!(WHITE_KING_START_POS, board.white.king.0);
    assert_eq!(BLACK_ROOK_START_POS, board.black.rooks.0);
    assert_eq!(BLACK_QUEEN_START_POS, board.black.queens.0);
}

#[test]
fn test_pieceset_set_bit_board() {
    let mut pieces = chess_core::board::PieceSet::new(Side::White);

    pieces.set_bit_board(BitBoard(0xf), PieceType::Knight);

    assert_eq!(BitBoard(0xf), pieces.knights);

    pieces.set_bit_board(BitBoard(0xd), PieceType::King);

    assert_eq!(BitBoard(0xd), pieces.king);
}

#[test]
fn test_8x8_board_initialization() {
    let board = _8x8Board::new();

    assert_eq!(None, board.get_square(&"a4"));
    assert_eq!(None, board.get_square(&"d5"));
    assert_eq!(
        Some(Piece {
            side: Side::White,
            ptype: PieceType::Queen
        }),
        board.get_square(&"d1")
    );
    assert_eq!(
        Some(Piece {
            side: Side::White,
            ptype: PieceType::King
        }),
        board.get_square(&"e1")
    );
    assert_eq!(
        Some(Piece {
            side: Side::Black,
            ptype: PieceType::Queen
        }),
        board.get_square(&"d8")
    );
    assert_eq!(
        Some(Piece {
            side: Side::Black,
            ptype: PieceType::Bishop
        }),
        board.get_square(&"f8")
    );
}

#[test]
fn test_8x8_board_set_square() {
    let mut board = _8x8Board::empty();
    let piece = Piece {
        side: Side::White,
        ptype: PieceType::Pawn,
    };

    assert!(!board.set_square("a1", Some(piece)).is_err());

    assert_eq!(Some(piece), board.0[0][0]);
}

#[test]
fn test_board_set_bit_board() {
    let mut board = Board::new();

    board.set_bit_board(
        BitBoard(0xe),
        Piece {
            side: Side::Black,
            ptype: PieceType::Queen,
        },
    );

    assert_eq!(BitBoard(0xe), board.black.queens);
    assert_eq!(BitBoard(WHITE_QUEEN_START_POS), board.white.queens);
}

#[test]
fn test_square_round_trip() {
    for index in 0u8..64 {
        let text = square_for_index(index).unwrap();
        assert_eq!(Ok(index), lerf_index_for(&text));
    }
    assert_eq!("c7", square_for_index(50).unwrap());
    assert_eq!("a1", square_for_index(0).unwrap());
    assert_eq!("h8", square_for_index(63).unwrap());
    assert!(square_for_index(64).is_err());
}

#[test]
fn test_square_case_insensitive() {
    assert_eq!(Ok(50), lerf_index_for("C7"));
    assert_eq!(Ok(50), lerf_index_for("c7"));
    assert_eq!("c7", square_for_index(lerf_index_for("C7").unwrap()).unwrap());
}

#[test]
fn test_single_square_has_one_bit() {
    for index in 0u8..64 {
        let text = square_for_index(index).unwrap();
        let bb = BitBoard::from(&text).unwrap();
        assert_eq!(1, bb.0.count_ones());
        assert_eq!(1u64 << index, bb.0);
    }
}

#[test]
fn test_xor_self_inverse() {
    let b = BitBoard(0x123456789abcdef0);
    let m = BitBoard(0x0f0f0f0f0f0f0f0f);
    assert_eq!(b, (b ^ m) ^ m);
    let z = BitBoard(0);
    assert_eq!(z, (z ^ m) ^ m);
}

#[test]
fn test_file_round_trip() {
    let files = ['a', 'b', 'c', 'd', 'e', 'f', 'g', 'h'];
    for index in 0u8..8 {
        let text = file_for_index(index).unwrap();
        assert_eq!(files[index as usize].to_string(), text);
        let back = file_index_of(text.chars().next().unwrap()).unwrap();
        assert_eq!(index, back);
    }
    assert!(file_for_index(8).is_err());
    assert!(file_for_index(255).is_err());
    assert!(file_index_of('i').is_err());
    assert!(file_index_of('1').is_err());
    assert!(file_index_of(' ').is_err());
}

#[test]
fn test_file_index_of_upper_case() {
    assert_eq!(Ok(0), file_index_of('A'));
    assert_eq!(Ok(7), file_index_of('H'));
    assert!(file_index_of('I').is_err());
}

#[test]
fn test_start_position_bit_counts() {
    let board = Board::new();
    let sides = [&board.white, &board.black];
    let mut masks: Vec<u64> = Vec::new();
    for side in sides {
        for bb in [side.pawns, side.knights, side.bishops, side.rooks, side.queens, side.king] {
            masks.push(bb.0);
        }
    }
    let total: u32 = masks.iter().map(|m| m.count_ones()).sum();
    assert_eq!(32, total);
    for i in 0..masks.len() {
        for j in 0..masks.len() {
            if i != j {
                assert_eq!(0, masks[i] & masks[j]);
            }
        }
    }
    assert_eq!(0x000000000000ff00, board.white.pawns.0);
    assert_eq!(1u64 << lerf_index_for("e8").unwrap(), board.black.king.0);
    assert_eq!(BLACK_KING_START_POS, board.black.king.0);
    assert_eq!(BLACK_PAWN_START_POS, board.black.pawns.0);
}

#[test]
fn test_start_bitboards_match_mailbox() {
    let board = Board::new();
    for index in 0u8..64 {
        let text = square_for_index(index).unwrap();
        let occupant = board.get_square(&text);
        match occupant {
            Some(p) => {
                assert_ne!(0, board.bit_board_for(p).0 & (1u64 << index));
            }
            None => {
                let sides = [&board.white, &board.black];
                for side in sides {
                    for bb in
                        [side.pawns, side.knights, side.bishops, side.rooks, side.queens, side.king]
                    {
                        assert_eq!(0, bb.0 & (1u64 << index));
                    }
                }
            }
        }
    }
}

#[test]
fn test_board_set_square_rejects_bad_text() {
    let mut board = Board::new();
    let piece = Piece {
        side: Side::White,
        ptype: PieceType::Rook,
    };
    assert!(board.set_square("x9", Some(piece)).is_err());
    assert!(board.set_square("", None).is_err());
    assert!(board.set_square("a1", Some(piece)).is_ok());
    assert_eq!(Some(piece), board.get_square("a1"));
}

#[test]
fn test_lerf_index_rejects_long_text() {
    assert!(lerf_index_for("a1b").is_err());
    assert!(lerf_index_for("xa1").is_err());
    assert!(lerf_index_for("a").is_err());
}

#[test]
fn test_bitboard_render() {
    let empty = BitBoard(0).render();
    let mut expected = String::new();
    for _ in 0..8 {
        expected.push_str("00000000\n");
    }
    expected.push_str("abcdefgh");
    assert_eq!(expected, empty);

    let a1 = BitBoard(1).render();
    let mut expected = String::new();
    for _ in 0..7 {
        expected.push_str("00000000\n");
    }
    expected.push_str("10000000\nabcdefgh");
    assert_eq!(expected, a1);

    let h8 = BitBoard(0x8000000000000000).render();
    let mut expected = String::from("00000001\n");
    for _ in 0..7 {
        expected.push_str("00000000\n");
    }
    expected.push_str("abcdefgh");
    assert_eq!(expected, h8);
}

#[test]
fn test_mailbox_render() {
    let empty = _8x8Board::empty().render();
    let expected = "8 ........\n7 ........\n6 ........\n5 ........\n4 ........\n3 ........\n2 ........\n1 ........\n\n  abcdefgh";
    assert_eq!(expected, empty);

    let start = _8x8Board::new().render();
    let expected = "8 ♜♞♝♛♚♝♞♜\n7 ♟♟♟♟♟♟♟♟\n6 ........\n5 ........\n4 ........\n3 ........\n2 ♙♙♙♙♙♙♙♙\n1 ♖♘♗♕♔♗♘♖\n\n  abcdefgh";
    assert_eq!(expected, start);
}

#[test]
fn test_mailbox_try_from_rejects_bad_glyph() {
    let mut grid = [[""; 8]; 8];
    grid[3][4] = "x";
    assert!(_8x8Board::try_from(grid).is_err());

    let ok = _8x8Board::try_from([[""; 8]; 8]).unwrap();
    assert_eq!(None, ok.get_square("e4"));
}
