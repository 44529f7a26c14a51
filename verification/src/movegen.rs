//! Move categories, their packed flag encoding, the move descriptor, and
//! the operation that transitions a board under a single move.

use vstd::prelude::*;

use crate::board::{
    bit_set, consistent, consistent_at, is_square_text, lemma_clear_bit, lemma_set_bit,
    lemma_xor_moves_bit, lerf_index_for, mask_of, square_index_spec, BitBoard, Board,
};
use crate::types::{InvalidSquareError, Piece, PieceType, Side};

verus! {

/// The single flag bit that is set in a category's tag exactly when the
/// category captures.
pub const CAPTURE_FLAG: u8 = 0x04;

/// The closed set of move categories.
#[derive(Debug, Copy, Clone, PartialEq, Eq, Structural)]
pub enum MoveType {
    Quiet,
    DoublePawnPush,
    KingsideCastle,
    QueensideCastle,
    Capture,
    EnPassant,
    KnightPromote,
    BishopPromote,
    RookPromote,
    QueenPromote,
    KnightPromoteCapture,
    BishopPromoteCapture,
    RookPromoteCapture,
    QueenPromoteCapture,
}

/// The packed flag tag of each category: the capture bit is 0x04, and the
/// promotion categories occupy the contiguous tag range 8 through 15.
pub open spec fn spec_flag(m: MoveType) -> u8 {
    match m {
        MoveType::Quiet => 0,
        MoveType::DoublePawnPush => 1,
        MoveType::KingsideCastle => 2,
        MoveType::QueensideCastle => 3,
        MoveType::Capture => 4,
        MoveType::EnPassant => 5,
        MoveType::KnightPromote => 8,
        MoveType::BishopPromote => 9,
        MoveType::RookPromote => 10,
        MoveType::QueenPromote => 11,
        MoveType::KnightPromoteCapture => 12,
        MoveType::BishopPromoteCapture => 13,
        MoveType::RookPromoteCapture => 14,
        MoveType::QueenPromoteCapture => 15,
    }
}

/// The categories that capture: plain captures, en passant, and the four
/// capturing promotions.
pub open spec fn is_capture_type(m: MoveType) -> bool {
    match m {
        MoveType::Capture => true,
        MoveType::EnPassant => true,
        MoveType::KnightPromoteCapture => true,
        MoveType::BishopPromoteCapture => true,
        MoveType::RookPromoteCapture => true,
        MoveType::QueenPromoteCapture => true,
        _ => false,
    }
}

/// The promotion categories, plain and capturing.
pub open spec fn is_promotion_type(m: MoveType) -> bool {
    match m {
        MoveType::KnightPromote => true,
        MoveType::BishopPromote => true,
        MoveType::RookPromote => true,
        MoveType::QueenPromote => true,
        MoveType::KnightPromoteCapture => true,
        MoveType::BishopPromoteCapture => true,
        MoveType::RookPromoteCapture => true,
        MoveType::QueenPromoteCapture => true,
        _ => false,
    }
}

/// The promotion categories occupy the contiguous tag range 8 through 15,
/// so a range check classifies them without a per-variant switch.
pub proof fn lemma_promotion_range(m: MoveType)
    ensures
        (8 <= spec_flag(m) <= 15) <==> is_promotion_type(m),
{
}

/// The capture bit of a tag is set exactly for the capturing categories.
pub proof fn lemma_capture_flag(m: MoveType)
    ensures
        (spec_flag(m) & CAPTURE_FLAG != 0) <==> is_capture_type(m),
{
    assert(0u8 & 4 == 0 && 1u8 & 4 == 0 && 2u8 & 4 == 0 && 3u8 & 4 == 0 && 4u8 & 4 != 0 && 5u8 & 4
        != 0 && 8u8 & 4 == 0 && 9u8 & 4 == 0 && 10u8 & 4 == 0 && 11u8 & 4 == 0 && 12u8 & 4 != 0
        && 13u8 & 4 != 0 && 14u8 & 4 != 0 && 15u8 & 4 != 0) by (bit_vector);
}

impl MoveType {
    /// The explicit mapping from category to packed flag tag.
    pub fn flag(&self) -> (r: u8)
        ensures
            r == spec_flag(*self),
    {
        match self {
            MoveType::Quiet => 0,
            MoveType::DoublePawnPush => 1,
            MoveType::KingsideCastle => 2,
            MoveType::QueensideCastle => 3,
            MoveType::Capture => 4,
            MoveType::EnPassant => 5,
            MoveType::KnightPromote => 8,
            MoveType::BishopPromote => 9,
            MoveType::RookPromote => 10,
            MoveType::QueenPromote => 11,
            MoveType::KnightPromoteCapture => 12,
            MoveType::BishopPromoteCapture => 13,
            MoveType::RookPromoteCapture => 14,
            MoveType::QueenPromoteCapture => 15,
        }
    }

    /// Tests the capture bit of the category's tag: true exactly for
    /// captures, en passant, and the four capturing promotions.
    pub fn is_capture(&self) -> (r: bool)
        ensures
            r == is_capture_type(*self),
    {
        proof {
            lemma_capture_flag(*self);
        }
        self.flag() & CAPTURE_FLAG != 0
    }
}

/// A bitboard with the origin and target bits toggled: when the origin bit
/// is set and the target bit clear, the piece moves from origin to target.
pub open spec fn toggle(bb: u64, o: int, t: int) -> u64 {
    bb ^ (mask_of(o) ^ mask_of(t))
}

/// The home square of the rook that takes part in a castle.
pub open spec fn rook_home(side: Side, kingside: bool) -> int {
    match side {
        Side::White => if kingside { 7 } else { 0 },
        Side::Black => if kingside { 63 } else { 56 },
    }
}

/// The post-castle square of the rook that takes part in a castle.
pub open spec fn rook_dest(side: Side, kingside: bool) -> int {
    match side {
        Side::White => if kingside { 5 } else { 3 },
        Side::Black => if kingside { 61 } else { 59 },
    }
}

/// The square an en passant capture removes the opposing pawn from: the
/// target's file on the origin's rank.
pub open spec fn en_passant_square(o: int, t: int) -> int {
    (o / 8) * 8 + t % 8
}

/// A quiet transition: the moving piece's bitboard gets the origin-target
/// toggle, the other eleven bitboards are untouched, and the mailbox empties
/// the origin and puts the moved piece on the target.
pub open spec fn quiet_ok(piece: Piece, o: int, t: int, pre: Board, post: Board) -> bool {
    &&& forall|q: Piece|
        (#[trigger] post.bb(q)).0 == if q == piece {
            toggle(pre.bb(q).0, o, t)
        } else {
            pre.bb(q).0
        }
    &&& post.squares@ == pre.squares@.update(o, None::<Piece>).update(t, Some(piece))
}

/// A capturing transition: as quiet for the moving piece, and the target's
/// bit is cleared from every opposing bitboard; the mailbox overwrites the
/// target with the moving piece.
pub open spec fn capture_ok(piece: Piece, o: int, t: int, pre: Board, post: Board) -> bool {
    &&& forall|q: Piece|
        (#[trigger] post.bb(q)).0 == if q == piece {
            toggle(pre.bb(q).0, o, t)
        } else if q.side == piece.side.spec_other() {
            pre.bb(q).0 & !mask_of(t)
        } else {
            pre.bb(q).0
        }
    &&& post.squares@ == pre.squares@.update(o, None::<Piece>).update(t, Some(piece))
}

/// An en passant transition: the pawn moves as quiet, and the opposing pawn
/// on the en passant square is cleared from the opposing pawn bitboard and
/// from the mailbox.
pub open spec fn en_passant_ok(piece: Piece, o: int, t: int, pre: Board, post: Board) -> bool {
    let c = en_passant_square(o, t);
    let opp_pawn = Piece { ptype: PieceType::Pawn, side: piece.side.spec_other() };
    &&& forall|q: Piece|
        (#[trigger] post.bb(q)).0 == if q == piece {
            toggle(pre.bb(q).0, o, t)
        } else if q == opp_pawn {
            pre.bb(q).0 & !mask_of(c)
        } else {
            pre.bb(q).0
        }
    &&& post.squares@ == pre.squares@.update(o, None::<Piece>).update(t, Some(piece)).update(
        c,
        None::<Piece>,
    )
}

/// A castling transition: the king moves as quiet, and the corresponding
/// rook relocates from its home square to its post-castle square in the
/// rook bitboard and the mailbox, as one atomic transition.
pub open spec fn castle_ok(
    piece: Piece,
    o: int,
    t: int,
    kingside: bool,
    pre: Board,
    post: Board,
) -> bool {
    let rh = rook_home(piece.side, kingside);
    let rd = rook_dest(piece.side, kingside);
    let rook = Piece { ptype: PieceType::Rook, side: piece.side };
    &&& forall|q: Piece|
        (#[trigger] post.bb(q)).0 == {
            let base = if q == piece {
                toggle(pre.bb(q).0, o, t)
            } else {
                pre.bb(q).0
            };
            if q == rook {
                toggle(base, rh, rd)
            } else {
                base
            }
        }
    &&& post.squares@ == pre.squares@.update(o, None::<Piece>).update(t, Some(piece)).update(
        rh,
        None::<Piece>,
    ).update(rd, Some(rook))
}

/// A promotion transition: the pawn's origin bit leaves the pawn bitboard,
/// the target bit joins the promoted type's bitboard, a capturing promotion
/// additionally clears the target's bit from every opposing bitboard, and
/// the mailbox puts the promoted piece on the target.
pub open spec fn promote_ok(
    side: Side,
    o: int,
    t: int,
    promo: PieceType,
    capturing: bool,
    pre: Board,
    post: Board,
) -> bool {
    let pawn = Piece { ptype: PieceType::Pawn, side };
    let promoted = Piece { ptype: promo, side };
    &&& forall|q: Piece|
        (#[trigger] post.bb(q)).0 == {
            let after_clear = if q == pawn {
                pre.bb(q).0 & !mask_of(o)
            } else {
                pre.bb(q).0
            };
            let after_set = if q == promoted {
                after_clear | mask_of(t)
            } else {
                after_clear
            };
            if capturing && q.side == side.spec_other() {
                after_set & !mask_of(t)
            } else {
                after_set
            }
        }
    &&& post.squares@ == pre.squares@.update(o, None::<Piece>).update(t, Some(promoted))
}

/// What applying a move does to a board, by category, once both squares
/// have passed coordinate validation.
pub open spec fn apply_ok(m: Move, pre: Board, post: Board) -> bool {
    let o = square_index_spec(m.origin@);
    let t = square_index_spec(m.target@);
    match m.move_type {
        MoveType::Quiet => quiet_ok(m.piece, o, t, pre, post),
        MoveType::DoublePawnPush => quiet_ok(m.piece, o, t, pre, post),
        MoveType::KingsideCastle => castle_ok(m.piece, o, t, true, pre, post),
        MoveType::QueensideCastle => castle_ok(m.piece, o, t, false, pre, post),
        MoveType::Capture => capture_ok(m.piece, o, t, pre, post),
        MoveType::EnPassant => en_passant_ok(m.piece, o, t, pre, post),
        MoveType::KnightPromote => promote_ok(m.piece.side, o, t, PieceType::Knight, false, pre, post),
        MoveType::BishopPromote => promote_ok(m.piece.side, o, t, PieceType::Bishop, false, pre, post),
        MoveType::RookPromote => promote_ok(m.piece.side, o, t, PieceType::Rook, false, pre, post),
        MoveType::QueenPromote => promote_ok(m.piece.side, o, t, PieceType::Queen, false, pre, post),
        MoveType::KnightPromoteCapture => promote_ok(m.piece.side, o, t, PieceType::Knight, true, pre, post),
        MoveType::BishopPromoteCapture => promote_ok(m.piece.side, o, t, PieceType::Bishop, true, pre, post),
        MoveType::RookPromoteCapture => promote_ok(m.piece.side, o, t, PieceType::Rook, true, pre, post),
        MoveType::QueenPromoteCapture => promote_ok(m.piece.side, o, t, PieceType::Queen, true, pre, post),
    }
}

/// An immutable move descriptor: the moving piece, origin and target square
/// text, and the move's category.
pub struct Move {
    pub piece: Piece,
    pub origin: String,
    pub target: String,
    pub move_type: MoveType,
}

/// Clears one square's bit from every bitboard of the side opposing `side`.
fn clear_opposing(board: &mut Board, side: Side, index: u8)
    requires
        index < 64,
    ensures
        forall|q: Piece|
            (#[trigger] final(board).bb(q)).0 == if q.side == side.spec_other() {
                old(board).bb(q).0 & !mask_of(index as int)
            } else {
                old(board).bb(q).0
            },
        final(board).squares == old(board).squares,
{
    match side {
        Side::White => board.black.clear_square(index),
        Side::Black => board.white.clear_square(index),
    }
}

/// Moves the pawn of `side` from the pawn bitboard at the origin to the
/// bitboard of the promoted type at the target; a capturing promotion also
/// strips the captured piece; the mailbox puts the promoted piece on the
/// target.
fn apply_promote(board: &mut Board, side: Side, promo: PieceType, capturing: bool, o: u8, t: u8)
    requires
        o < 64,
        t < 64,
    ensures
        promote_ok(side, o as int, t as int, promo, capturing, *old(board), *final(board)),
{
    let pawn = Piece { ptype: PieceType::Pawn, side };
    let promoted = Piece { ptype: promo, side };
    let ghost b0 = *board;
    let pawn_bb = board.bit_board_for(pawn);
    board.set_bit_board(BitBoard(pawn_bb.0 & !(1u64 << o)), pawn);
    let ghost b1 = *board;
    let promo_bb = board.bit_board_for(promoted);
    board.set_bit_board(BitBoard(promo_bb.0 | (1u64 << t)), promoted);
    let ghost b2 = *board;
    if capturing {
        clear_opposing(board, side, t);
    }
    let ghost b3 = *board;
    board.squares.set_index(o, None);
    board.squares.set_index(t, Some(promoted));
    proof {
        assert(final(board).squares@ =~= old(board).squares@.update(o as int, None::<Piece>).update(
            t as int,
            Some(promoted),
        ));
        assert forall|q: Piece|
            (#[trigger] final(board).bb(q)).0 == {
                let after_clear = if q == pawn {
                    old(board).bb(q).0 & !mask_of(o as int)
                } else {
                    old(board).bb(q).0
                };
                let after_set = if q == promoted {
                    after_clear | mask_of(t as int)
                } else {
                    after_clear
                };
                if capturing && q.side == side.spec_other() {
                    after_set & !mask_of(t as int)
                } else {
                    after_set
                }
            } by {
            assert(b1.bb(q) == if q == pawn {
                BitBoard(b0.bb(pawn).0 & !mask_of(o as int))
            } else {
                b0.bb(q)
            });
            assert(b2.bb(q) == if q == promoted {
                BitBoard(b1.bb(promoted).0 | mask_of(t as int))
            } else {
                b1.bb(q)
            });
            if capturing {
                assert(b3.bb(q).0 == if q.side == side.spec_other() {
                    b2.bb(q).0 & !mask_of(t as int)
                } else {
                    b2.bb(q).0
                });
            } else {
                assert(b3 == b2);
            }
            assert(final(board).bb(q) == b3.bb(q));
        }
    }
}

impl Move {
    /// Whether this move's category captures.
    pub fn is_capture(&self) -> (r: bool)
        ensures
            r == is_capture_type(self.move_type),
    {
        self.move_type.is_capture()
    }

    /// Transitions the board under this move, by its category; origin or
    /// target text that fails coordinate validation is rejected before
    /// anything changes. No legality checking is done: the move generator
    /// owns piece geometry and king safety.
    pub fn apply(&self, board: &mut Board) -> (r: Result<(), InvalidSquareError>)
        ensures
            match r {
                Ok(_) => is_square_text(self.origin@) && is_square_text(self.target@) && apply_ok(
                    *self,
                    *old(board),
                    *final(board),
                ),
                Err(_) => !(is_square_text(self.origin@) && is_square_text(self.target@))
                    && *final(board) == *old(board),
            },
    {
        let origin_index = match lerf_index_for(self.origin.as_str()) {
            Ok(i) => i,
            Err(e) => {
                return Err(e);
            },
        };
        let target_index = match lerf_index_for(self.target.as_str()) {
            Ok(i) => i,
            Err(e) => {
                return Err(e);
            },
        };
        let move_bb = BitBoard(1u64 << origin_index) ^ BitBoard(1u64 << target_index);
        match self.move_type {
            MoveType::Quiet | MoveType::DoublePawnPush => {
                let ghost b0 = *board;
                let piece_bb = board.bit_board_for(self.piece);
                board.set_bit_board(piece_bb ^ move_bb, self.piece);
                let ghost b1 = *board;
                board.squares.set_index(origin_index, None);
                board.squares.set_index(target_index, Some(self.piece));
                proof {
                    assert(final(board).squares@ =~= old(board).squares@.update(
                        origin_index as int,
                        None::<Piece>,
                    ).update(target_index as int, Some(self.piece)));
                    assert forall|q: Piece|
                        (#[trigger] final(board).bb(q)).0 == if q == self.piece {
                            toggle(old(board).bb(q).0, origin_index as int, target_index as int)
                        } else {
                            old(board).bb(q).0
                        } by {
                        assert(b1.bb(q) == if q == self.piece {
                            BitBoard(toggle(b0.bb(q).0, origin_index as int, target_index as int))
                        } else {
                            b0.bb(q)
                        });
                        assert(final(board).bb(q) == b1.bb(q));
                    }
                    assert(quiet_ok(
                        self.piece,
                        origin_index as int,
                        target_index as int,
                        *old(board),
                        *final(board),
                    ));
                }
            },
            MoveType::Capture => {
                let ghost b0 = *board;
                let piece_bb = board.bit_board_for(self.piece);
                board.set_bit_board(piece_bb ^ move_bb, self.piece);
                let ghost b1 = *board;
                clear_opposing(board, self.piece.side, target_index);
                let ghost b2 = *board;
                board.squares.set_index(origin_index, None);
                board.squares.set_index(target_index, Some(self.piece));
                proof {
                    assert(final(board).squares@ =~= old(board).squares@.update(
                        origin_index as int,
                        None::<Piece>,
                    ).update(target_index as int, Some(self.piece)));
                    assert forall|q: Piece|
                        (#[trigger] final(board).bb(q)).0 == if q == self.piece {
                            toggle(old(board).bb(q).0, origin_index as int, target_index as int)
                        } else if q.side == self.piece.side.spec_other() {
                            old(board).bb(q).0 & !mask_of(target_index as int)
                        } else {
                            old(board).bb(q).0
                        } by {
                        assert(b1.bb(q) == if q == self.piece {
                            BitBoard(toggle(b0.bb(q).0, origin_index as int, target_index as int))
                        } else {
                            b0.bb(q)
                        });
                        assert(b2.bb(q).0 == if q.side == self.piece.side.spec_other() {
                            b1.bb(q).0 & !mask_of(target_index as int)
                        } else {
                            b1.bb(q).0
                        });
                        assert(final(board).bb(q) == b2.bb(q));
                    }
                    assert(capture_ok(
                        self.piece,
                        origin_index as int,
                        target_index as int,
                        *old(board),
                        *final(board),
                    ));
                }
            },
            MoveType::EnPassant => {
                let ghost b0 = *board;
                let piece_bb = board.bit_board_for(self.piece);
                board.set_bit_board(piece_bb ^ move_bb, self.piece);
                let ghost b1 = *board;
                let cap_index = (origin_index / 8) * 8 + target_index % 8;
                let opp_pawn = Piece {
                    ptype: PieceType::Pawn,
                    side: self.piece.side.other(),
                };
                let opp_bb = board.bit_board_for(opp_pawn);
                board.set_bit_board(BitBoard(opp_bb.0 & !(1u64 << cap_index)), opp_pawn);
                let ghost b2 = *board;
                board.squares.set_index(origin_index, None);
                board.squares.set_index(target_index, Some(self.piece));
                board.squares.set_index(cap_index, None);
                proof {
                    assert(cap_index as int == en_passant_square(
                        origin_index as int,
                        target_index as int,
                    ));
                    assert(final(board).squares@ =~= old(board).squares@.update(
                        origin_index as int,
                        None::<Piece>,
                    ).update(target_index as int, Some(self.piece)).update(
                        cap_index as int,
                        None::<Piece>,
                    ));
                    assert forall|q: Piece|
                        (#[trigger] final(board).bb(q)).0 == if q == self.piece {
                            toggle(old(board).bb(q).0, origin_index as int, target_index as int)
                        } else if q == opp_pawn {
                            old(board).bb(q).0 & !mask_of(cap_index as int)
                        } else {
                            old(board).bb(q).0
                        } by {
                        assert(b1.bb(q) == if q == self.piece {
                            BitBoard(toggle(b0.bb(q).0, origin_index as int, target_index as int))
                        } else {
                            b0.bb(q)
                        });
                        assert(b2.bb(q) == if q == opp_pawn {
                            BitBoard(b1.bb(opp_pawn).0 & !mask_of(cap_index as int))
                        } else {
                            b1.bb(q)
                        });
                        assert(final(board).bb(q) == b2.bb(q));
                    }
                    assert(en_passant_ok(
                        self.piece,
                        origin_index as int,
                        target_index as int,
                        *old(board),
                        *final(board),
                    ));
                }
            },
            MoveType::KingsideCastle | MoveType::QueensideCastle => {
                let kingside = match self.move_type {
                    MoveType::KingsideCastle => true,
                    _ => false,
                };
                let ghost b0 = *board;
                let piece_bb = board.bit_board_for(self.piece);
                board.set_bit_board(piece_bb ^ move_bb, self.piece);
                let ghost b1 = *board;
                let (rh, rd): (u8, u8) = match (self.piece.side, kingside) {
                    (Side::White, true) => (7, 5),
                    (Side::White, false) => (0, 3),
                    (Side::Black, true) => (63, 61),
                    (Side::Black, false) => (56, 59),
                };
                let rook = Piece { ptype: PieceType::Rook, side: self.piece.side };
                let rook_bb = board.bit_board_for(rook);
                board.set_bit_board(
                    rook_bb ^ (BitBoard(1u64 << rh) ^ BitBoard(1u64 << rd)),
                    rook,
                );
                let ghost b2 = *board;
                board.squares.set_index(origin_index, None);
                board.squares.set_index(target_index, Some(self.piece));
                board.squares.set_index(rh, None);
                board.squares.set_index(rd, Some(rook));
                proof {
                    assert(rh as int == rook_home(self.piece.side, kingside) && rd as int
                        == rook_dest(self.piece.side, kingside));
                    assert(final(board).squares@ =~= old(board).squares@.update(
                        origin_index as int,
                        None::<Piece>,
                    ).update(target_index as int, Some(self.piece)).update(
                        rh as int,
                        None::<Piece>,
                    ).update(rd as int, Some(rook)));
                    assert forall|q: Piece|
                        (#[trigger] final(board).bb(q)).0 == {
                            let base = if q == self.piece {
                                toggle(
                                    old(board).bb(q).0,
                                    origin_index as int,
                                    target_index as int,
                                )
                            } else {
                                old(board).bb(q).0
                            };
                            if q == rook {
                                toggle(base, rh as int, rd as int)
                            } else {
                                base
                            }
                        } by {
                        assert(b1.bb(q) == if q == self.piece {
                            BitBoard(toggle(b0.bb(q).0, origin_index as int, target_index as int))
                        } else {
                            b0.bb(q)
                        });
                        assert(b2.bb(q) == if q == rook {
                            BitBoard(toggle(b1.bb(rook).0, rh as int, rd as int))
                        } else {
                            b1.bb(q)
                        });
                        assert(final(board).bb(q) == b2.bb(q));
                    }
                    assert(castle_ok(
                        self.piece,
                        origin_index as int,
                        target_index as int,
                        kingside,
                        *old(board),
                        *final(board),
                    ));
                }
            },
            MoveType::KnightPromote => {
                apply_promote(board, self.piece.side, PieceType::Knight, false, origin_index, target_index);
            },
            MoveType::BishopPromote => {
                apply_promote(board, self.piece.side, PieceType::Bishop, false, origin_index, target_index);
            },
            MoveType::RookPromote => {
                apply_promote(board, self.piece.side, PieceType::Rook, false, origin_index, target_index);
            },
            MoveType::QueenPromote => {
                apply_promote(board, self.piece.side, PieceType::Queen, false, origin_index, target_index);
            },
            MoveType::KnightPromoteCapture => {
                apply_promote(board, self.piece.side, PieceType::Knight, true, origin_index, target_index);
            },
            MoveType::BishopPromoteCapture => {
                apply_promote(board, self.piece.side, PieceType::Bishop, true, origin_index, target_index);
            },
            MoveType::RookPromoteCapture => {
                apply_promote(board, self.piece.side, PieceType::Rook, true, origin_index, target_index);
            },
            MoveType::QueenPromoteCapture => {
                apply_promote(board, self.piece.side, PieceType::Queen, true, origin_index, target_index);
            },
        };
        Ok(())
    }
}


/// Applying a quiet move or a double pawn push to a consistent board, when
/// the origin holds the moving piece and the target is empty, keeps the
/// bitboards and the mailbox synchronized.
pub proof fn lemma_quiet_preserves_consistency(
    piece: Piece,
    o: int,
    t: int,
    pre: Board,
    post: Board,
)
    requires
        0 <= o < 64,
        0 <= t < 64,
        o != t,
        consistent(pre),
        pre.squares@[o] == Some(piece),
        pre.squares@[t] is None,
        quiet_ok(piece, o, t, pre, post),
    ensures
        consistent(post),
{
    assert(consistent_at(pre, o));
    assert(consistent_at(pre, t));
    lemma_xor_moves_bit(pre.bb(piece).0, o, t);
    assert forall|i: int| 0 <= i < 64 implies consistent_at(post, i) by {
        assert(consistent_at(pre, i));
        if i == o {
            assert(post.squares@[i] is None);
            assert forall|q: Piece| !bit_set((#[trigger] post.bb(q)).0, i) by {
                assert(pre.bb(q) == pre.bb(q));
                if q == piece {
                    assert(!bit_set(toggle(pre.bb(piece).0, o, t), o));
                } else {
                    assert(!bit_set(pre.bb(q).0, o));
                }
            }
        } else if i == t {
            assert(post.squares@[i] == Some(piece));
            assert(bit_set(toggle(pre.bb(piece).0, o, t), t));
            assert forall|q: Piece| q != piece implies !bit_set((#[trigger] post.bb(q)).0, i) by {
                assert(!bit_set(pre.bb(q).0, t));
            }
        } else {
            assert(post.squares@[i] == pre.squares@[i]);
            assert forall|q: Piece| bit_set((#[trigger] post.bb(q)).0, i) == bit_set(
                pre.bb(q).0,
                i,
            ) by {
                if q == piece {
                    assert(bit_set(toggle(pre.bb(piece).0, o, t), i) == bit_set(
                        pre.bb(piece).0,
                        i,
                    ));
                }
            }
        }
    }
}


/// Applying a capture to a consistent board, when the origin holds the
/// moving piece and the target holds an opposing piece, keeps the
/// bitboards and the mailbox synchronized.
pub proof fn lemma_capture_preserves_consistency(
    piece: Piece,
    o: int,
    t: int,
    pre: Board,
    post: Board,
)
    requires
        0 <= o < 64,
        0 <= t < 64,
        o != t,
        consistent(pre),
        pre.squares@[o] == Some(piece),
        pre.squares@[t] is Some,
        pre.squares@[t]->0.side == piece.side.spec_other(),
        capture_ok(piece, o, t, pre, post),
    ensures
        consistent(post),
{
    let victim = pre.squares@[t]->0;
    assert(consistent_at(pre, o));
    assert(consistent_at(pre, t));
    assert(piece.side != piece.side.spec_other());
    assert(piece != victim);
    assert(!bit_set(pre.bb(piece).0, t));
    lemma_xor_moves_bit(pre.bb(piece).0, o, t);
    assert forall|i: int| 0 <= i < 64 implies consistent_at(post, i) by {
        assert(consistent_at(pre, i));
        assert forall|q: Piece| q.side == piece.side.spec_other() implies bit_set(
            (#[trigger] post.bb(q)).0,
            i,
        ) == (i != t && bit_set(pre.bb(q).0, i)) by {
            lemma_clear_bit(pre.bb(q).0, t, i);
        }
        if i == o {
            assert(post.squares@[i] is None);
            assert forall|q: Piece| !bit_set((#[trigger] post.bb(q)).0, i) by {
                if q == piece {
                    assert(!bit_set(toggle(pre.bb(piece).0, o, t), o));
                } else {
                    assert(!bit_set(pre.bb(q).0, o));
                }
            }
        } else if i == t {
            assert(post.squares@[i] == Some(piece));
            assert(bit_set(toggle(pre.bb(piece).0, o, t), t));
            assert forall|q: Piece| q != piece implies !bit_set((#[trigger] post.bb(q)).0, i) by {
                if q.side != piece.side.spec_other() {
                    assert(q != victim);
                    assert(!bit_set(pre.bb(q).0, t));
                }
            }
        } else {
            assert(post.squares@[i] == pre.squares@[i]);
            assert forall|q: Piece| bit_set((#[trigger] post.bb(q)).0, i) == bit_set(
                pre.bb(q).0,
                i,
            ) by {
                if q == piece {
                    assert(bit_set(toggle(pre.bb(piece).0, o, t), i) == bit_set(
                        pre.bb(piece).0,
                        i,
                    ));
                }
            }
        }
    }
}


/// Applying an en passant capture to a consistent board, when the origin
/// holds the moving pawn, the target is empty, and the en passant square
/// holds an opposing pawn, keeps the bitboards and the mailbox
/// synchronized.
pub proof fn lemma_en_passant_preserves_consistency(
    piece: Piece,
    o: int,
    t: int,
    pre: Board,
    post: Board,
)
    requires
        0 <= o < 64,
        0 <= t < 64,
        o != t,
        en_passant_square(o, t) != o,
        en_passant_square(o, t) != t,
        consistent(pre),
        pre.squares@[o] == Some(piece),
        pre.squares@[t] is None,
        pre.squares@[en_passant_square(o, t)] == Some(
            Piece { ptype: PieceType::Pawn, side: piece.side.spec_other() },
        ),
        en_passant_ok(piece, o, t, pre, post),
    ensures
        consistent(post),
{
    let c = en_passant_square(o, t);
    let opp_pawn = Piece { ptype: PieceType::Pawn, side: piece.side.spec_other() };
    assert(0 <= c < 64);
    assert(consistent_at(pre, o));
    assert(consistent_at(pre, t));
    assert(consistent_at(pre, c));
    assert(piece.side != piece.side.spec_other());
    assert(piece != opp_pawn);
    assert(!bit_set(pre.bb(piece).0, t));
    lemma_xor_moves_bit(pre.bb(piece).0, o, t);
    assert forall|i: int| 0 <= i < 64 implies consistent_at(post, i) by {
        assert(consistent_at(pre, i));
        lemma_clear_bit(pre.bb(opp_pawn).0, c, i);
        if i == o {
            assert(post.squares@[i] is None);
            assert forall|q: Piece| !bit_set((#[trigger] post.bb(q)).0, i) by {
                if q == piece {
                    assert(!bit_set(toggle(pre.bb(piece).0, o, t), o));
                } else {
                    assert(!bit_set(pre.bb(q).0, o));
                }
            }
        } else if i == t {
            assert(post.squares@[i] == Some(piece));
            assert(bit_set(toggle(pre.bb(piece).0, o, t), t));
            assert forall|q: Piece| q != piece implies !bit_set((#[trigger] post.bb(q)).0, i) by {
                assert(!bit_set(pre.bb(q).0, t));
            }
        } else if i == c {
            assert(post.squares@[i] is None);
            assert forall|q: Piece| !bit_set((#[trigger] post.bb(q)).0, i) by {
                if q == piece {
                    assert(bit_set(toggle(pre.bb(piece).0, o, t), c) == bit_set(
                        pre.bb(piece).0,
                        c,
                    ));
                    assert(!bit_set(pre.bb(piece).0, c));
                } else if q != opp_pawn {
                    assert(!bit_set(pre.bb(q).0, c));
                }
            }
        } else {
            assert(post.squares@[i] == pre.squares@[i]);
            assert forall|q: Piece| bit_set((#[trigger] post.bb(q)).0, i) == bit_set(
                pre.bb(q).0,
                i,
            ) by {
                if q == piece {
                    assert(bit_set(toggle(pre.bb(piece).0, o, t), i) == bit_set(
                        pre.bb(piece).0,
                        i,
                    ));
                }
            }
        }
    }
}

/// Applying a castle to a consistent board, when the origin holds the king,
/// the rook's home square holds the rook, and both destination squares are
/// empty, keeps the bitboards and the mailbox synchronized.
pub proof fn lemma_castle_preserves_consistency(
    piece: Piece,
    o: int,
    t: int,
    kingside: bool,
    pre: Board,
    post: Board,
)
    requires
        0 <= o < 64,
        0 <= t < 64,
        o != t,
        piece.ptype != PieceType::Rook,
        ({
            let rh = rook_home(piece.side, kingside);
            let rd = rook_dest(piece.side, kingside);
            o != rh && o != rd && t != rh && t != rd && rh != rd
        }),
        consistent(pre),
        pre.squares@[o] == Some(piece),
        pre.squares@[t] is None,
        pre.squares@[rook_home(piece.side, kingside)] == Some(
            Piece { ptype: PieceType::Rook, side: piece.side },
        ),
        pre.squares@[rook_dest(piece.side, kingside)] is None,
        castle_ok(piece, o, t, kingside, pre, post),
    ensures
        consistent(post),
{
    let rh = rook_home(piece.side, kingside);
    let rd = rook_dest(piece.side, kingside);
    let rook = Piece { ptype: PieceType::Rook, side: piece.side };
    assert(0 <= rh < 64 && 0 <= rd < 64);
    assert(piece != rook);
    assert(consistent_at(pre, o));
    assert(consistent_at(pre, t));
    assert(consistent_at(pre, rh));
    assert(consistent_at(pre, rd));
    assert(!bit_set(pre.bb(piece).0, t));
    assert(bit_set(pre.bb(rook).0, rh));
    assert(!bit_set(pre.bb(rook).0, rd));
    lemma_xor_moves_bit(pre.bb(piece).0, o, t);
    lemma_xor_moves_bit(pre.bb(rook).0, rh, rd);
    assert forall|i: int| 0 <= i < 64 implies consistent_at(post, i) by {
        assert(consistent_at(pre, i));
        assert(post.bb(piece).0 == toggle(pre.bb(piece).0, o, t));
        assert(post.bb(rook).0 == toggle(pre.bb(rook).0, rh, rd));
        if i == o {
            assert(post.squares@[i] is None);
            assert forall|q: Piece| !bit_set((#[trigger] post.bb(q)).0, i) by {
                if q == piece {
                    assert(!bit_set(toggle(pre.bb(piece).0, o, t), o));
                } else if q == rook {
                    assert(bit_set(toggle(pre.bb(rook).0, rh, rd), o) == bit_set(pre.bb(rook).0, o));
                    assert(!bit_set(pre.bb(rook).0, o));
                } else {
                    assert(!bit_set(pre.bb(q).0, o));
                }
            }
        } else if i == t {
            assert(post.squares@[i] == Some(piece));
            assert(bit_set(toggle(pre.bb(piece).0, o, t), t));
            assert forall|q: Piece| q != piece implies !bit_set((#[trigger] post.bb(q)).0, i) by {
                if q == rook {
                    assert(bit_set(toggle(pre.bb(rook).0, rh, rd), t) == bit_set(pre.bb(rook).0, t));
                }
                assert(!bit_set(pre.bb(q).0, t));
            }
        } else if i == rh {
            assert(post.squares@[i] is None);
            assert forall|q: Piece| !bit_set((#[trigger] post.bb(q)).0, i) by {
                if q == rook {
                    assert(!bit_set(toggle(pre.bb(rook).0, rh, rd), rh));
                } else if q == piece {
                    assert(bit_set(toggle(pre.bb(piece).0, o, t), rh) == bit_set(
                        pre.bb(piece).0,
                        rh,
                    ));
                    assert(!bit_set(pre.bb(piece).0, rh));
                } else {
                    assert(!bit_set(pre.bb(q).0, rh));
                }
            }
        } else if i == rd {
            assert(post.squares@[i] == Some(rook));
            assert(bit_set(toggle(pre.bb(rook).0, rh, rd), rd));
            assert forall|q: Piece| q != rook implies !bit_set((#[trigger] post.bb(q)).0, i) by {
                if q == piece {
                    assert(bit_set(toggle(pre.bb(piece).0, o, t), rd) == bit_set(
                        pre.bb(piece).0,
                        rd,
                    ));
                }
                assert(!bit_set(pre.bb(q).0, rd));
            }
        } else {
            assert(post.squares@[i] == pre.squares@[i]);
            assert forall|q: Piece| bit_set((#[trigger] post.bb(q)).0, i) == bit_set(
                pre.bb(q).0,
                i,
            ) by {
                if q == piece {
                    assert(bit_set(toggle(pre.bb(piece).0, o, t), i) == bit_set(
                        pre.bb(piece).0,
                        i,
                    ));
                } else if q == rook {
                    assert(bit_set(toggle(pre.bb(rook).0, rh, rd), i) == bit_set(
                        pre.bb(rook).0,
                        i,
                    ));
                }
            }
        }
    }
}

/// Applying a promotion to a consistent board, when the origin holds the
/// promoting pawn and the target square matches the category — empty for a
/// plain promotion, an opposing piece for a capturing one — keeps the
/// bitboards and the mailbox synchronized.
pub proof fn lemma_promote_preserves_consistency(
    side: Side,
    o: int,
    t: int,
    promo: PieceType,
    capturing: bool,
    pre: Board,
    post: Board,
)
    requires
        0 <= o < 64,
        0 <= t < 64,
        o != t,
        promo != PieceType::Pawn,
        consistent(pre),
        pre.squares@[o] == Some(Piece { ptype: PieceType::Pawn, side }),
        capturing ==> pre.squares@[t] is Some && pre.squares@[t]->0.side == side.spec_other(),
        !capturing ==> pre.squares@[t] is None,
        promote_ok(side, o, t, promo, capturing, pre, post),
    ensures
        consistent(post),
{
    let pawn = Piece { ptype: PieceType::Pawn, side };
    let promoted = Piece { ptype: promo, side };
    assert(pawn != promoted);
    assert(side != side.spec_other());
    assert(consistent_at(pre, o));
    assert(consistent_at(pre, t));
    assert forall|i: int| 0 <= i < 64 implies consistent_at(post, i) by {
        assert(consistent_at(pre, i));
        lemma_clear_bit(pre.bb(pawn).0, o, i);
        lemma_set_bit(pre.bb(pawn).0 & !mask_of(o), t, i);
        lemma_set_bit(pre.bb(promoted).0, t, i);
        assert forall|q: Piece| q.side == side.spec_other() implies bit_set(
            (#[trigger] post.bb(q)).0,
            i,
        ) == ((capturing ==> i != t) && bit_set(pre.bb(q).0, i)) by {
            lemma_clear_bit(pre.bb(q).0, t, i);
        }
        if i == o {
            assert(post.squares@[i] is None);
            assert forall|q: Piece| !bit_set((#[trigger] post.bb(q)).0, i) by {
                if q == promoted {
                    assert(!bit_set(pre.bb(promoted).0, o));
                } else if q != pawn {
                    assert(!bit_set(pre.bb(q).0, o));
                }
            }
        } else if i == t {
            assert(post.squares@[i] == Some(promoted));
            assert(bit_set(post.bb(promoted).0, t));
            assert forall|q: Piece| q != promoted implies !bit_set(
                (#[trigger] post.bb(q)).0,
                i,
            ) by {
                if q.side != side.spec_other() {
                    if capturing {
                        assert(q != pre.squares@[t]->0);
                    }
                    assert(!bit_set(pre.bb(q).0, t));
                }
            }
        } else {
            assert(post.squares@[i] == pre.squares@[i]);
            assert forall|q: Piece| bit_set((#[trigger] post.bb(q)).0, i) == bit_set(
                pre.bb(q).0,
                i,
            ) by {}
        }
    }
}


/// What the move generator owes `apply` for a move to make sense on a
/// board: both squares valid and distinct, the origin holding the stated
/// piece, and the squares a category reads or clears holding what the
/// category expects.
pub open spec fn move_premise(m: Move, pre: Board) -> bool {
    let o = square_index_spec(m.origin@);
    let t = square_index_spec(m.target@);
    &&& is_square_text(m.origin@)
    &&& is_square_text(m.target@)
    &&& o != t
    &&& pre.squares@[o] == Some(m.piece)
    &&& match m.move_type {
        MoveType::Quiet => pre.squares@[t] is None,
        MoveType::DoublePawnPush => pre.squares@[t] is None,
        MoveType::Capture => pre.squares@[t] is Some && pre.squares@[t]->0.side
            == m.piece.side.spec_other(),
        MoveType::EnPassant => {
            let c = en_passant_square(o, t);
            &&& pre.squares@[t] is None
            &&& c != o
            &&& c != t
            &&& pre.squares@[c] == Some(
                Piece { ptype: PieceType::Pawn, side: m.piece.side.spec_other() },
            )
        },
        MoveType::KingsideCastle => castle_premise(m.piece, o, t, true, pre),
        MoveType::QueensideCastle => castle_premise(m.piece, o, t, false, pre),
        MoveType::KnightPromote => m.piece.ptype == PieceType::Pawn && pre.squares@[t] is None,
        MoveType::BishopPromote => m.piece.ptype == PieceType::Pawn && pre.squares@[t] is None,
        MoveType::RookPromote => m.piece.ptype == PieceType::Pawn && pre.squares@[t] is None,
        MoveType::QueenPromote => m.piece.ptype == PieceType::Pawn && pre.squares@[t] is None,
        MoveType::KnightPromoteCapture => promote_capture_premise(m.piece, t, pre),
        MoveType::BishopPromoteCapture => promote_capture_premise(m.piece, t, pre),
        MoveType::RookPromoteCapture => promote_capture_premise(m.piece, t, pre),
        MoveType::QueenPromoteCapture => promote_capture_premise(m.piece, t, pre),
    }
}

/// The premise of a castle: the moving piece is the king, the target and
/// the rook's destination are empty, the rook stands on its home square,
/// and the four squares involved are distinct.
pub open spec fn castle_premise(piece: Piece, o: int, t: int, kingside: bool, pre: Board) -> bool {
    let rh = rook_home(piece.side, kingside);
    let rd = rook_dest(piece.side, kingside);
    &&& piece.ptype == PieceType::King
    &&& o != rh
    &&& o != rd
    &&& t != rh
    &&& t != rd
    &&& rh != rd
    &&& pre.squares@[t] is None
    &&& pre.squares@[rh] == Some(Piece { ptype: PieceType::Rook, side: piece.side })
    &&& pre.squares@[rd] is None
}

/// The premise of a capturing promotion: the moving piece is a pawn and
/// the target holds an opposing piece.
pub open spec fn promote_capture_premise(piece: Piece, t: int, pre: Board) -> bool {
    &&& piece.ptype == PieceType::Pawn
    &&& pre.squares@[t] is Some
    &&& pre.squares@[t]->0.side == piece.side.spec_other()
}

/// The synchronization contract of the dual representation: applying any
/// move category through `apply`, on a consistent board and under the
/// premises the move generator owes, yields a consistent board — the
/// mailbox and the twelve bitboards never drift apart.
pub proof fn lemma_apply_preserves_consistency(m: Move, pre: Board, post: Board)
    requires
        consistent(pre),
        move_premise(m, pre),
        apply_ok(m, pre, post),
    ensures
        consistent(post),
{
    let o = square_index_spec(m.origin@);
    let t = square_index_spec(m.target@);
    let side = m.piece.side;
    match m.move_type {
        MoveType::Quiet | MoveType::DoublePawnPush => {
            lemma_quiet_preserves_consistency(m.piece, o, t, pre, post);
        },
        MoveType::Capture => {
            lemma_capture_preserves_consistency(m.piece, o, t, pre, post);
        },
        MoveType::EnPassant => {
            lemma_en_passant_preserves_consistency(m.piece, o, t, pre, post);
        },
        MoveType::KingsideCastle => {
            lemma_castle_preserves_consistency(m.piece, o, t, true, pre, post);
        },
        MoveType::QueensideCastle => {
            lemma_castle_preserves_consistency(m.piece, o, t, false, pre, post);
        },
        MoveType::KnightPromote => {
            assert(m.piece == Piece { ptype: PieceType::Pawn, side });
            lemma_promote_preserves_consistency(side, o, t, PieceType::Knight, false, pre, post);
        },
        MoveType::BishopPromote => {
            assert(m.piece == Piece { ptype: PieceType::Pawn, side });
            lemma_promote_preserves_consistency(side, o, t, PieceType::Bishop, false, pre, post);
        },
        MoveType::RookPromote => {
            assert(m.piece == Piece { ptype: PieceType::Pawn, side });
            lemma_promote_preserves_consistency(side, o, t, PieceType::Rook, false, pre, post);
        },
        MoveType::QueenPromote => {
            assert(m.piece == Piece { ptype: PieceType::Pawn, side });
            lemma_promote_preserves_consistency(side, o, t, PieceType::Queen, false, pre, post);
        },
        MoveType::KnightPromoteCapture => {
            assert(m.piece == Piece { ptype: PieceType::Pawn, side });
            lemma_promote_preserves_consistency(side, o, t, PieceType::Knight, true, pre, post);
        },
        MoveType::BishopPromoteCapture => {
            assert(m.piece == Piece { ptype: PieceType::Pawn, side });
            lemma_promote_preserves_consistency(side, o, t, PieceType::Bishop, true, pre, post);
        },
        MoveType::RookPromoteCapture => {
            assert(m.piece == Piece { ptype: PieceType::Pawn, side });
            lemma_promote_preserves_consistency(side, o, t, PieceType::Rook, true, pre, post);
        },
        MoveType::QueenPromoteCapture => {
            assert(m.piece == Piece { ptype: PieceType::Pawn, side });
            lemma_promote_preserves_consistency(side, o, t, PieceType::Queen, true, pre, post);
        },
    }
}


} // verus!

