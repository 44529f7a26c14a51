//! The coordinate system, bitboards, per-side piece sets, and the aggregate
//! board: two piece sets plus a square-indexed mailbox.

use vstd::prelude::*;

use crate::types::{glyph_of, piece_for_text, InvalidFileError, InvalidPieceError, InvalidSquareError, Piece, PieceType, Side};
use vstd::std_specs::ops::BitXorSpec;

verus! {

// ---------------------------------------------------------------------------
// Coordinate system
// ---------------------------------------------------------------------------

/// A lower-case file letter, a through h.
pub open spec fn is_lower_file_char(c: char) -> bool {
    'a' <= c && c <= 'h'
}

/// A file letter in either case.
pub open spec fn is_file_char(c: char) -> bool {
    is_lower_file_char(c) || ('A' <= c && c <= 'H')
}

/// The zero-based index of a file letter: a (or A) is 0, h (or H) is 7.
pub open spec fn file_index_spec(c: char) -> int {
    if is_lower_file_char(c) {
        c as int - 'a' as int
    } else {
        c as int - 'A' as int
    }
}

/// A rank digit, 1 through 8.
pub open spec fn is_rank_char(c: char) -> bool {
    '1' <= c && c <= '8'
}

/// The zero-based index of a rank digit: 1 is 0, 8 is 7.
pub open spec fn rank_index_spec(c: char) -> int {
    c as int - '1' as int
}

/// The lower-case file letter for a file index 0 through 7.
pub open spec fn file_char_spec(i: int) -> char {
    if i == 0 {
        'a'
    } else if i == 1 {
        'b'
    } else if i == 2 {
        'c'
    } else if i == 3 {
        'd'
    } else if i == 4 {
        'e'
    } else if i == 5 {
        'f'
    } else if i == 6 {
        'g'
    } else {
        'h'
    }
}

/// The rank digit for a rank index 0 through 7.
pub open spec fn rank_char_spec(i: int) -> char {
    if i == 0 {
        '1'
    } else if i == 1 {
        '2'
    } else if i == 2 {
        '3'
    } else if i == 3 {
        '4'
    } else if i == 4 {
        '5'
    } else if i == 5 {
        '6'
    } else if i == 6 {
        '7'
    } else {
        '8'
    }
}

/// Valid square text: one file letter (either case), then one rank digit.
pub open spec fn is_square_text(s: Seq<char>) -> bool {
    s.len() == 2 && is_file_char(s[0]) && is_rank_char(s[1])
}

/// The little-endian rank-file index of valid square text:
/// rank index times 8 plus file index.
pub open spec fn square_index_spec(s: Seq<char>) -> int {
    rank_index_spec(s[1]) * 8 + file_index_spec(s[0])
}

/// The canonical lower-case text of the square with a given index:
/// its file letter, then its rank digit.
pub open spec fn square_text_spec(i: int) -> Seq<char> {
    seq![file_char_spec(i % 8), rank_char_spec(i / 8)]
}

/// Maps a file letter to its numerical index
///
/// ```text
/// a = 0,
/// b = 1,
/// ...
/// h = 7
/// ```
///
/// Either case is accepted; any other character is rejected.
pub fn file_index_of(file: char) -> (r: Result<u8, InvalidFileError>)
    ensures
        match r {
            Ok(i) => is_file_char(file) && i == file_index_spec(file) && i < 8,
            Err(_) => !is_file_char(file),
        },
{
    let v = file as u32;
    if 97 <= v && v <= 104 {
        Ok((v - 97) as u8)
    } else if 65 <= v && v <= 72 {
        Ok((v - 65) as u8)
    } else {
        Err(InvalidFileError {})
    }
}

/// Maps a numerical index to its lower-case file letter
///
/// Inverse of `file_index_of`; indices above 7 are rejected.
pub fn file_for_index(index: u8) -> (r: Result<String, InvalidFileError>)
    ensures
        match r {
            Ok(s) => index < 8 && s@ == seq![file_char_spec(index as int)],
            Err(_) => index >= 8,
        },
{
    proof {
        reveal_strlit("a");
        reveal_strlit("b");
        reveal_strlit("c");
        reveal_strlit("d");
        reveal_strlit("e");
        reveal_strlit("f");
        reveal_strlit("g");
        reveal_strlit("h");
    }
    let s: &str = match index {
        0 => "a",
        1 => "b",
        2 => "c",
        3 => "d",
        4 => "e",
        5 => "f",
        6 => "g",
        7 => "h",
        _ => {
            return Err(InvalidFileError {});
        },
    };
    Ok(s.to_owned())
}

/// Little-endian rank-file index of a square
///
/// ```text
/// lerf_index = rank_index * 8 + file_index
/// ```
///
/// Text that is not one file letter followed by one rank digit is rejected.
pub fn lerf_index_for(square: &str) -> (r: Result<u8, InvalidSquareError>)
    ensures
        match r {
            Ok(i) => is_square_text(square@) && i == square_index_spec(square@) && i < 64,
            Err(_) => !is_square_text(square@),
        },
{
    if square.unicode_len() != 2 {
        return Err(InvalidSquareError {});
    }
    let file_chr = square.get_char(0);
    let rank_chr = square.get_char(1);
    let file_index = match file_index_of(file_chr) {
        Ok(i) => i,
        Err(_) => {
            return Err(InvalidSquareError {});
        },
    };
    let rank_val = rank_chr as u32;
    if rank_val < 49 || 56 < rank_val {
        return Err(InvalidSquareError {});
    }
    let rank_index = (rank_val - 49) as u8;
    Ok(rank_index * 8 + file_index)
}

/// The canonical lower-case text of a square index: file letter, then
/// rank digit. Indices above 63 are rejected.
pub fn square_for_index(index: u8) -> (r: Result<String, InvalidSquareError>)
    ensures
        match r {
            Ok(s) => index < 64 && s@ == square_text_spec(index as int),
            Err(_) => index >= 64,
        },
{
    if index >= 64 {
        return Err(InvalidSquareError {});
    }
    let file = match file_for_index(index % 8) {
        Ok(s) => s,
        Err(_) => {
            return Err(InvalidSquareError {});
        },
    };
    proof {
        reveal_strlit("1");
        reveal_strlit("2");
        reveal_strlit("3");
        reveal_strlit("4");
        reveal_strlit("5");
        reveal_strlit("6");
        reveal_strlit("7");
        reveal_strlit("8");
    }
    let rank: &str = match index / 8 {
        0 => "1",
        1 => "2",
        2 => "3",
        3 => "4",
        4 => "5",
        5 => "6",
        6 => "7",
        _ => "8",
    };
    let text = file.concat(rank);
    proof {
        assert(text@ =~= square_text_spec(index as int));
    }
    Ok(text)
}

/// The file mapping is bidirectional: over lower-case a through h and
/// indices 0 through 7, `file_index_spec` and `file_char_spec` invert
/// each other.
pub proof fn lemma_file_round_trip(c: char, i: int)
    ensures
        is_lower_file_char(c) ==> file_char_spec(file_index_spec(c)) == c,
        0 <= i < 8 ==> is_lower_file_char(file_char_spec(i)) && file_index_spec(
            file_char_spec(i),
        ) == i,
{
}

// ---------------------------------------------------------------------------
// Bitboard
// ---------------------------------------------------------------------------

/// The 64-bit mask with exactly the bit of one square index set.
pub open spec fn mask_of(i: int) -> u64 {
    1u64 << (i as u64)
}

/// Whether bit `i` of a 64-bit mask is set.
pub open spec fn bit_set(b: u64, i: int) -> bool {
    (b >> (i as u64)) & 1 == 1
}

/// Little-endian rank-file bitboard
///
/// ```text
/// bit_index = rank_index * 8 + file_index
/// ```
///
/// Bit `i` set means square `i` is occupied by whatever single piece
/// category this particular bitboard represents.
#[derive(Debug, Copy, Clone, PartialEq, Eq, Structural)]
pub struct BitBoard(pub u64);

impl BitBoard {
    /// Maps a coordinate to the bitboard with exactly that square's bit
    /// set; text that is not a square coordinate is rejected.
    pub fn from(square: &str) -> (r: Result<BitBoard, InvalidSquareError>)
        ensures
            match r {
                Ok(b) => is_square_text(square@) && b.0 == mask_of(square_index_spec(square@)),
                Err(_) => !is_square_text(square@),
            },
    {
        let bit_index = lerf_index_for(square)?;
        Ok(BitBoard(1u64 << bit_index))
    }
}

impl core::ops::BitXor for BitBoard {
    type Output = BitBoard;

    /// Exclusive-or of the two masks, bit by bit: the sole state-transition
    /// primitive on bitboards.
    fn bitxor(self, rhs: BitBoard) -> (r: BitBoard)
        ensures
            r.0 == self.0 ^ rhs.0,
    {
        BitBoard(self.0 ^ rhs.0)
    }
}

impl vstd::std_specs::ops::BitXorSpecImpl for BitBoard {
    open spec fn obeys_bitxor_spec() -> bool {
        true
    }

    open spec fn bitxor_req(self, rhs: BitBoard) -> bool {
        true
    }

    open spec fn bitxor_spec(self, rhs: BitBoard) -> BitBoard {
        BitBoard(self.0 ^ rhs.0)
    }
}

/// A single-square bitboard has exactly one set bit, at the square's index.
pub proof fn lemma_single_bit(i: int, j: int)
    requires
        0 <= i < 64,
        0 <= j < 64,
    ensures
        bit_set(mask_of(i), j) <==> i == j,
{
    let iu = i as u64;
    let ju = j as u64;
    assert(iu < 64 && ju < 64 ==> (((1u64 << iu) >> ju) & 1 == 1 <==> iu == ju)) by (bit_vector);
}

/// Exclusive-or is self-inverse: combining any bitboard with the same mask
/// twice gives the bitboard back.
pub proof fn lemma_xor_self_inverse(b: BitBoard, m: BitBoard)
    ensures
        (b.bitxor_spec(m)).bitxor_spec(m) == b,
{
    let x = b.0;
    let y = m.0;
    assert((x ^ y) ^ y == x) by (bit_vector);
}

/// Exclusive-or with an origin-target toggle moves a bit: when the origin
/// bit is set, the target bit clear, and the two differ, the combination
/// clears the origin bit, sets the target bit, and leaves every other bit
/// untouched.
pub proof fn lemma_xor_moves_bit(b: u64, o: int, t: int)
    requires
        0 <= o < 64,
        0 <= t < 64,
        o != t,
        bit_set(b, o),
        !bit_set(b, t),
    ensures
        !bit_set(b ^ (mask_of(o) ^ mask_of(t)), o),
        bit_set(b ^ (mask_of(o) ^ mask_of(t)), t),
        forall|j: int|
            0 <= j < 64 && j != o && j != t ==> bit_set(b ^ (mask_of(o) ^ mask_of(t)), j) == bit_set(
                b,
                j,
            ),
{
    let ou = o as u64;
    let tu = t as u64;
    assert(ou < 64 && tu < 64 && ou != tu && (b >> ou) & 1 == 1 && (b >> tu) & 1 != 1 ==> ((b ^ (
    (1u64 << ou) ^ (1u64 << tu))) >> ou) & 1 != 1) by (bit_vector);
    assert(ou < 64 && tu < 64 && ou != tu && (b >> ou) & 1 == 1 && (b >> tu) & 1 != 1 ==> ((b ^ (
    (1u64 << ou) ^ (1u64 << tu))) >> tu) & 1 == 1) by (bit_vector);
    assert forall|j: int| 0 <= j < 64 && j != o && j != t implies bit_set(
        b ^ (mask_of(o) ^ mask_of(t)),
        j,
    ) == bit_set(b, j) by {
        let ju = j as u64;
        assert(ou < 64 && tu < 64 && ju < 64 && ju != ou && ju != tu ==> ((b ^ ((1u64 << ou) ^ (
        1u64 << tu))) >> ju) & 1 == (b >> ju) & 1) by (bit_vector);
    }
}

/// Every square index parses back from its canonical text: the text is
/// valid square text and its index is the one it was made from.
pub proof fn lemma_index_round_trip(i: int)
    requires
        0 <= i < 64,
    ensures
        is_square_text(square_text_spec(i)),
        square_index_spec(square_text_spec(i)) == i,
{
    lemma_file_round_trip(file_char_spec(i % 8), i % 8);
}

/// The canonical lower-case text of valid square text's index reproduces
/// that text with its file letter lowered: converting to an index and back
/// loses nothing but letter case.
pub proof fn lemma_square_round_trip(s: Seq<char>)
    requires
        is_square_text(s),
    ensures
        0 <= square_index_spec(s) < 64,
        square_text_spec(square_index_spec(s)) == seq![
            file_char_spec(file_index_spec(s[0])),
            s[1],
        ],
        is_lower_file_char(s[0]) ==> square_text_spec(square_index_spec(s)) == s,
{
    let i = square_index_spec(s);
    assert(i % 8 == file_index_spec(s[0])) by {
        assert(0 <= file_index_spec(s[0]) < 8);
        assert(0 <= rank_index_spec(s[1]) < 8);
    }
    assert(i / 8 == rank_index_spec(s[1])) by {
        assert(0 <= file_index_spec(s[0]) < 8);
        assert(0 <= rank_index_spec(s[1]) < 8);
    }
    assert(rank_char_spec(rank_index_spec(s[1])) == s[1]);
    if is_lower_file_char(s[0]) {
        lemma_file_round_trip(s[0], 0);
        assert(square_text_spec(i) =~= s);
    }
}

/// One character of the diagnostic rendering: '1' for a set bit, '0' for a
/// clear one.
pub open spec fn bit_char_spec(b: u64, i: int) -> char {
    if bit_set(b, i) {
        '1'
    } else {
        '0'
    }
}

/// The diagnostic rendering of a 64-bit mask: eight lines of eight binary
/// digits, rank 8 first and file a leftmost, with the file labels beneath.
pub open spec fn render_spec(b: u64) -> Seq<char> {
    Seq::new(
        80,
        |k: int|
            if k < 72 {
                if k % 9 == 8 {
                    '\n'
                } else {
                    bit_char_spec(b, (7 - k / 9) * 8 + k % 9)
                }
            } else {
                file_char_spec(k - 72)
            },
    )
}

impl BitBoard {
    /// Diagnostic rendering for tracing: eight lines of eight binary digits,
    /// rank 8 first and file a leftmost, then a line of file labels.
    pub fn render(&self) -> (s: String)
        ensures
            s@ == render_spec(self.0),
    {
        proof {
            reveal_strlit("0");
            reveal_strlit("1");
            reveal_strlit("\n");
            reveal_strlit("abcdefgh");
        }
        let mut out = String::new();
        let mut line: usize = 0;
        while line < 8
            invariant
                line <= 8,
                out@.len() == line * 9,
                forall|k: int| 0 <= k < out@.len() ==> out@[k] == render_spec(self.0)[k],
            decreases 8 - line,
        {
            let mut col: usize = 0;
            while col < 8
                invariant
                    line < 8,
                    col <= 8,
                    out@.len() == line * 9 + col,
                    forall|k: int| 0 <= k < out@.len() ==> out@[k] == render_spec(self.0)[k],
                decreases 8 - col,
            {
                proof {
                    reveal_strlit("0");
                    reveal_strlit("1");
                }
                let idx = (7 - line) * 8 + col;
                proof {
                    assert(render_spec(self.0)[line * 9 + col] == bit_char_spec(
                        self.0,
                        (7 - line) * 8 + col,
                    ));
                }
                if (self.0 >> (idx as u64)) & 1 == 1 {
                    out.append("1");
                } else {
                    out.append("0");
                }
                col += 1;
            }
            proof {
                reveal_strlit("\n");
                assert(render_spec(self.0)[line * 9 + 8] == '\n');
            }
            out.append("\n");
            line += 1;
        }
        out.append("abcdefgh");
        proof {
            assert(out@ =~= render_spec(self.0));
        }
        out
    }
}

// ---------------------------------------------------------------------------
// Mailbox
// ---------------------------------------------------------------------------

/// The piece type on a back rank at a given file in the standard starting
/// arrangement.
pub open spec fn back_rank_type(f: int) -> PieceType {
    if f == 0 || f == 7 {
        PieceType::Rook
    } else if f == 1 || f == 6 {
        PieceType::Knight
    } else if f == 2 || f == 5 {
        PieceType::Bishop
    } else if f == 3 {
        PieceType::Queen
    } else {
        PieceType::King
    }
}

/// The occupant of a square in the standard starting arrangement: white on
/// ranks 1 and 2, black on ranks 7 and 8, queens on the d file and kings on
/// the e file.
pub open spec fn start_piece_at(i: int) -> Option<Piece> {
    let r = i / 8;
    let f = i % 8;
    if r == 0 {
        Some(Piece { side: Side::White, ptype: back_rank_type(f) })
    } else if r == 1 {
        Some(Piece { side: Side::White, ptype: PieceType::Pawn })
    } else if r == 6 {
        Some(Piece { side: Side::Black, ptype: PieceType::Pawn })
    } else if r == 7 {
        Some(Piece { side: Side::Black, ptype: back_rank_type(f) })
    } else {
        None
    }
}

/// 8x8 board to store pieces by square
///
/// Indexed by rank then file; entry `i / 8`, `i % 8` holds square index `i`.
#[derive(Debug, Copy, Clone)]
pub struct _8x8Board(pub [[Option<Piece>; 8]; 8]);

impl View for _8x8Board {
    type V = Seq<Option<Piece>>;

    /// The mailbox as one sequence of 64 optional pieces, square index order.
    open spec fn view(&self) -> Seq<Option<Piece>> {
        Seq::new(64, |i: int| self.0[i / 8][i % 8])
    }
}

impl _8x8Board {
    /// Creates a new, empty 8x8 board
    pub fn empty() -> (r: _8x8Board)
        ensures
            r@ =~= Seq::new(64, |i: int| None::<Piece>),
    {
        _8x8Board([[None; 8]; 8])
    }

    /// Sets the value of a square, addressed by its index.
    pub fn set_index(&mut self, index: u8, value: Option<Piece>)
        requires
            index < 64,
        ensures
            final(self)@ =~= old(self)@.update(index as int, value),
    {
        let r = (index / 8) as usize;
        let f = (index % 8) as usize;
        let mut row = self.0[r];
        row[f] = value;
        self.0[r] = row;
        proof {
            assert forall|k: int| 0 <= k < 64 implies final(self)@[k] == old(self)@.update(
                index as int,
                value,
            )[k] by {
                assert(k / 8 == r as int ==> (k == index as int <==> k % 8 == f as int));
            }
        }
    }

    /// Gets the value of a square, addressed by its index.
    pub fn get_index(&self, index: u8) -> (r: Option<Piece>)
        requires
            index < 64,
        ensures
            r == self@[index as int],
    {
        self.0[(index / 8) as usize][(index % 8) as usize]
    }

    /// Sets the value of a square on the board; text that is not a square
    /// coordinate is rejected before anything changes.
    pub fn set_square(&mut self, square: &str, value: Option<Piece>) -> (r: Result<
        (),
        InvalidSquareError,
    >)
        ensures
            match r {
                Ok(_) => is_square_text(square@) && final(self)@ =~= old(self)@.update(
                    square_index_spec(square@),
                    value,
                ),
                Err(_) => !is_square_text(square@) && *final(self) == *old(self),
            },
    {
        let bit_index = lerf_index_for(square)?;
        self.set_index(bit_index, value);
        Ok(())
    }

    /// Gets the value of a square on the board
    pub fn get_square(&self, square: &str) -> (r: Option<Piece>)
        requires
            is_square_text(square@),
        ensures
            r == self@[square_index_spec(square@)],
    {
        let bit_index = match lerf_index_for(square) {
            Ok(i) => i,
            Err(_) => {
                return None;
            },
        };
        self.get_index(bit_index)
    }
}


/// Valid board-setup text for one square: empty, or one of the twelve
/// glyphs.
pub open spec fn setup_text_valid(s: Seq<char>) -> bool {
    s.len() == 0 || piece_for_text(s) is Some
}

/// The mailbox entry that board-setup text for one square asks for.
pub open spec fn setup_piece(s: Seq<char>) -> Option<Piece> {
    if s.len() == 0 {
        None
    } else {
        piece_for_text(s)
    }
}

impl _8x8Board {
    /// Builds a mailbox from an 8x8 grid of piece glyphs, rank 8 first;
    /// an empty entry leaves its square empty, and any entry that is
    /// neither empty nor a glyph is rejected.
    pub fn try_from(board: [[&str; 8]; 8]) -> (r: Result<_8x8Board, InvalidPieceError>)
        ensures
            match r {
                Ok(b) => (forall|rr: int, ff: int|
                    0 <= rr < 8 && 0 <= ff < 8 ==> setup_text_valid(#[trigger] board[rr][ff]@))
                    && (forall|rr: int, ff: int|
                    0 <= rr < 8 && 0 <= ff < 8 ==> b@[(7 - rr) * 8 + ff] == setup_piece(
                        #[trigger] board[rr][ff]@,
                    )),
                Err(_) => exists|rr: int, ff: int|
                    0 <= rr < 8 && 0 <= ff < 8 && !setup_text_valid(#[trigger] board[rr][ff]@),
            },
    {
        let mut new_board = Self::empty();
        let mut rank: usize = 0;
        while rank < 8
            invariant
                rank <= 8,
                forall|rr: int, ff: int|
                    0 <= rr < rank && 0 <= ff < 8 ==> setup_text_valid(#[trigger] board[rr][ff]@),
                forall|rr: int, ff: int|
                    0 <= rr < rank && 0 <= ff < 8 ==> new_board@[(7 - rr) * 8 + ff] == setup_piece(
                        #[trigger] board[rr][ff]@,
                    ),
            decreases 8 - rank,
        {
            let mut file: usize = 0;
            while file < 8
                invariant
                    rank < 8,
                    file <= 8,
                    forall|rr: int, ff: int|
                        0 <= rr < rank && 0 <= ff < 8 ==> setup_text_valid(
                            #[trigger] board[rr][ff]@,
                        ),
                    forall|rr: int, ff: int|
                        0 <= rr < rank && 0 <= ff < 8 ==> new_board@[(7 - rr) * 8 + ff]
                            == setup_piece(#[trigger] board[rr][ff]@),
                    forall|ff: int|
                        0 <= ff < file ==> setup_text_valid(#[trigger] board[rank as int][ff]@),
                    forall|ff: int|
                        0 <= ff < file ==> new_board@[(7 - rank as int) * 8 + ff] == setup_piece(
                            #[trigger] board[rank as int][ff]@,
                        ),
                decreases 8 - file,
            {
                let s: &str = board[rank][file];
                let index = ((7 - rank) * 8 + file) as u8;
                if s.is_empty() {
                    new_board.set_index(index, None);
                } else {
                    let p = match Piece::try_from(s) {
                        Ok(p) => p,
                        Err(e) => {
                            return Err(e);
                        },
                    };
                    new_board.set_index(index, Some(p));
                }
                file += 1;
            }
            rank += 1;
        }
        Ok(new_board)
    }
}


impl _8x8Board {
    /// Creates a new 8x8 board with the default piece configuration
    pub fn new() -> (r: _8x8Board)
        ensures
            r@ =~= Seq::new(64, |i: int| start_piece_at(i)),
    {
        let setup: [[&str; 8]; 8] = [
            ["♜", "♞", "♝", "♛", "♚", "♝", "♞", "♜"],
            ["♟", "♟", "♟", "♟", "♟", "♟", "♟", "♟"],
            ["", "", "", "", "", "", "", ""],
            ["", "", "", "", "", "", "", ""],
            ["", "", "", "", "", "", "", ""],
            ["", "", "", "", "", "", "", ""],
            ["♙", "♙", "♙", "♙", "♙", "♙", "♙", "♙"],
            ["♖", "♘", "♗", "♕", "♔", "♗", "♘", "♖"],
        ];
        proof {
            reveal_strlit("");
            reveal_strlit("♜");
            reveal_strlit("♞");
            reveal_strlit("♝");
            reveal_strlit("♛");
            reveal_strlit("♚");
            reveal_strlit("♟");
            reveal_strlit("♙");
            reveal_strlit("♖");
            reveal_strlit("♘");
            reveal_strlit("♗");
            reveal_strlit("♕");
            reveal_strlit("♔");
            assert forall|rr: int, ff: int| 0 <= rr < 8 && 0 <= ff < 8 implies setup_text_valid(
                #[trigger] setup[rr][ff]@,
            ) && setup_piece(setup[rr][ff]@) == start_piece_at((7 - rr) * 8 + ff) by {
                assert(0 <= (7 - rr) * 8 + ff < 64);
                assert(((7 - rr) * 8 + ff) / 8 == 7 - rr);
                assert(((7 - rr) * 8 + ff) % 8 == ff);
            }
        }
        match Self::try_from(setup) {
            Ok(b) => {
                proof {
                    assert forall|i: int| 0 <= i < 64 implies b@[i] == start_piece_at(i) by {
                        let rr = 7 - i / 8;
                        let ff = i % 8;
                        assert(b@[(7 - rr) * 8 + ff] == setup_piece(#[trigger] setup[rr][ff]@));
                        assert((7 - rr) * 8 + ff == i);
                    }
                }
                b
            },
            Err(_) => {
                proof {
                    assert(false);
                }
                _8x8Board::empty()
            },
        }
    }
}


/// One character of the mailbox rendering: the occupant's glyph, or a dot
/// for an empty square.
pub open spec fn occupant_char_spec(e: Option<Piece>) -> char {
    match e {
        Some(p) => glyph_of(p),
        None => '.',
    }
}

/// The diagnostic rendering of a mailbox: eight lines, rank 8 first, each
/// a rank label, a space, and eight occupant characters, with the file
/// labels indented beneath.
pub open spec fn mailbox_render_spec(m: Seq<Option<Piece>>) -> Seq<char> {
    Seq::new(
        99,
        |k: int|
            if k < 88 {
                if k % 11 == 0 {
                    rank_char_spec(7 - k / 11)
                } else if k % 11 == 1 {
                    ' '
                } else if k % 11 == 10 {
                    '\n'
                } else {
                    occupant_char_spec(m[(7 - k / 11) * 8 + (k % 11 - 2)])
                }
            } else if k == 88 {
                '\n'
            } else if k == 89 || k == 90 {
                ' '
            } else {
                file_char_spec(k - 91)
            },
    )
}

/// The glyph of a piece, as one-character text.
fn glyph_str(p: &Piece) -> (r: &'static str)
    ensures
        r@ == seq![glyph_of(*p)],
{
    proof {
        reveal_strlit("♙");
        reveal_strlit("♘");
        reveal_strlit("♗");
        reveal_strlit("♖");
        reveal_strlit("♕");
        reveal_strlit("♔");
        reveal_strlit("♟");
        reveal_strlit("♞");
        reveal_strlit("♝");
        reveal_strlit("♜");
        reveal_strlit("♛");
        reveal_strlit("♚");
    }
    let r: &'static str = match (p.side, p.ptype) {
        (Side::White, PieceType::Pawn) => "♙",
        (Side::White, PieceType::Knight) => "♘",
        (Side::White, PieceType::Bishop) => "♗",
        (Side::White, PieceType::Rook) => "♖",
        (Side::White, PieceType::Queen) => "♕",
        (Side::White, PieceType::King) => "♔",
        (Side::Black, PieceType::Pawn) => "♟",
        (Side::Black, PieceType::Knight) => "♞",
        (Side::Black, PieceType::Bishop) => "♝",
        (Side::Black, PieceType::Rook) => "♜",
        (Side::Black, PieceType::Queen) => "♛",
        (Side::Black, PieceType::King) => "♚",
    };
    proof {
        assert(r@ =~= seq![glyph_of(*p)]);
    }
    r
}

impl _8x8Board {
    /// Diagnostic rendering for tracing: eight lines, rank 8 first, each a
    /// rank label, a space, and one character per square — the occupant's
    /// glyph or a dot — with the file labels indented beneath.
    pub fn render(&self) -> (s: String)
        ensures
            s@ == mailbox_render_spec(self@),
    {
        let mut out = String::new();
        let mut line: usize = 0;
        while line < 8
            invariant
                line <= 8,
                out@.len() == line * 11,
                forall|k: int| 0 <= k < out@.len() ==> out@[k] == mailbox_render_spec(self@)[k],
            decreases 8 - line,
        {
            proof {
                reveal_strlit("1");
                reveal_strlit("2");
                reveal_strlit("3");
                reveal_strlit("4");
                reveal_strlit("5");
                reveal_strlit("6");
                reveal_strlit("7");
                reveal_strlit("8");
                reveal_strlit(" ");
            }
            let label: &str = match 7 - line {
                0 => "1",
                1 => "2",
                2 => "3",
                3 => "4",
                4 => "5",
                5 => "6",
                6 => "7",
                _ => "8",
            };
            proof {
                assert(label@ =~= seq![rank_char_spec(7 - line as int)]);
                assert(mailbox_render_spec(self@)[line as int * 11] == rank_char_spec(
                    7 - line as int,
                ));
                assert(mailbox_render_spec(self@)[line as int * 11 + 1] == ' ');
            }
            out.append(label);
            out.append(" ");
            let mut col: usize = 0;
            while col < 8
                invariant
                    line < 8,
                    col <= 8,
                    out@.len() == line * 11 + 2 + col,
                    forall|k: int| 0 <= k < out@.len() ==> out@[k] == mailbox_render_spec(self@)[k],
                decreases 8 - col,
            {
                let index = ((7 - line) * 8 + col) as u8;
                let entry = self.get_index(index);
                proof {
                    let k = line as int * 11 + 2 + col as int;
                    assert(k / 11 == line as int && k % 11 == 2 + col as int);
                    assert(mailbox_render_spec(self@)[k] == occupant_char_spec(
                        self@[(7 - line as int) * 8 + col as int],
                    ));
                }
                match entry {
                    Some(p) => {
                        let g = glyph_str(&p);
                        out.append(g);
                    },
                    None => {
                        proof {
                            reveal_strlit(".");
                        }
                        out.append(".");
                    },
                }
                col += 1;
            }
            proof {
                reveal_strlit("\n");
                assert(mailbox_render_spec(self@)[line as int * 11 + 10] == '\n');
            }
            out.append("\n");
            line += 1;
        }
        proof {
            reveal_strlit("\n  abcdefgh");
            assert(out@.len() == 88);
        }
        out.append("\n  abcdefgh");
        proof {
            reveal_strlit("\n  abcdefgh");
            assert forall|k: int| 88 <= k < 99 implies out@[k] == mailbox_render_spec(self@)[k] by {
                assert(out@[k] == "\n  abcdefgh"@[k - 88]);
            }
            assert(out@ =~= mailbox_render_spec(self@));
        }
        out
    }
}


// ---------------------------------------------------------------------------
// Piece sets and the aggregate board
// ---------------------------------------------------------------------------

pub const WHITE_PAWN_START_POS: u64 = 0x000000000000ff00;

pub const WHITE_KNIGHT_START_POS: u64 = 0x0000000000000042;

pub const WHITE_BISHOP_START_POS: u64 = 0x0000000000000024;

pub const WHITE_ROOK_START_POS: u64 = 0x0000000000000081;

pub const WHITE_QUEEN_START_POS: u64 = 0x0000000000000008;

pub const WHITE_KING_START_POS: u64 = 0x0000000000000010;

pub const BLACK_PAWN_START_POS: u64 = 0x00ff000000000000;

pub const BLACK_KNIGHT_START_POS: u64 = 0x4200000000000000;

pub const BLACK_BISHOP_START_POS: u64 = 0x2400000000000000;

pub const BLACK_ROOK_START_POS: u64 = 0x8100000000000000;

pub const BLACK_QUEEN_START_POS: u64 = 0x0800000000000000;

pub const BLACK_KING_START_POS: u64 = 0x1000000000000000;

/// The starting occupancy mask of one side's pieces of one type: the lookup
/// table from side and type to initial mask.
pub open spec fn start_mask(side: Side, ptype: PieceType) -> u64 {
    match side {
        Side::White => match ptype {
            PieceType::Pawn => WHITE_PAWN_START_POS,
            PieceType::Knight => WHITE_KNIGHT_START_POS,
            PieceType::Bishop => WHITE_BISHOP_START_POS,
            PieceType::Rook => WHITE_ROOK_START_POS,
            PieceType::Queen => WHITE_QUEEN_START_POS,
            PieceType::King => WHITE_KING_START_POS,
        },
        Side::Black => match ptype {
            PieceType::Pawn => BLACK_PAWN_START_POS,
            PieceType::Knight => BLACK_KNIGHT_START_POS,
            PieceType::Bishop => BLACK_BISHOP_START_POS,
            PieceType::Rook => BLACK_ROOK_START_POS,
            PieceType::Queen => BLACK_QUEEN_START_POS,
            PieceType::King => BLACK_KING_START_POS,
        },
    }
}

/// Bitboards for all pieces of a color
#[derive(Debug, Copy, Clone, PartialEq, Eq, Structural)]
pub struct PieceSet {
    pub pawns: BitBoard,
    pub knights: BitBoard,
    pub bishops: BitBoard,
    pub rooks: BitBoard,
    pub queens: BitBoard,
    pub king: BitBoard,
}

impl PieceSet {
    /// The bitboard this set holds for a piece type.
    pub open spec fn bb(self, ptype: PieceType) -> BitBoard {
        match ptype {
            PieceType::Pawn => self.pawns,
            PieceType::Knight => self.knights,
            PieceType::Bishop => self.bishops,
            PieceType::Rook => self.rooks,
            PieceType::Queen => self.queens,
            PieceType::King => self.king,
        }
    }

    /// Creates the starting piece set of one side.
    pub fn new(side: Side) -> (r: PieceSet)
        ensures
            forall|t: PieceType| r.bb(t).0 == start_mask(side, t),
    {
        match side {
            Side::White => PieceSet {
                pawns: BitBoard(WHITE_PAWN_START_POS),
                knights: BitBoard(WHITE_KNIGHT_START_POS),
                bishops: BitBoard(WHITE_BISHOP_START_POS),
                rooks: BitBoard(WHITE_ROOK_START_POS),
                queens: BitBoard(WHITE_QUEEN_START_POS),
                king: BitBoard(WHITE_KING_START_POS),
            },
            Side::Black => PieceSet {
                pawns: BitBoard(BLACK_PAWN_START_POS),
                knights: BitBoard(BLACK_KNIGHT_START_POS),
                bishops: BitBoard(BLACK_BISHOP_START_POS),
                rooks: BitBoard(BLACK_ROOK_START_POS),
                queens: BitBoard(BLACK_QUEEN_START_POS),
                king: BitBoard(BLACK_KING_START_POS),
            },
        }
    }

    /// The bitboard for one piece type.
    pub fn bit_board_for(&self, piece: PieceType) -> (r: BitBoard)
        ensures
            r == self.bb(piece),
    {
        match piece {
            PieceType::Pawn => self.pawns,
            PieceType::Knight => self.knights,
            PieceType::Bishop => self.bishops,
            PieceType::Rook => self.rooks,
            PieceType::Queen => self.queens,
            PieceType::King => self.king,
        }
    }

    /// Replaces the whole bitboard for one piece type; the other five are
    /// untouched.
    pub fn set_bit_board(&mut self, bit_board: BitBoard, piece: PieceType)
        ensures
            forall|t: PieceType|
                final(self).bb(t) == if t == piece {
                    bit_board
                } else {
                    old(self).bb(t)
                },
    {
        match piece {
            PieceType::Pawn => {
                self.pawns = bit_board;
            },
            PieceType::Knight => {
                self.knights = bit_board;
            },
            PieceType::Bishop => {
                self.bishops = bit_board;
            },
            PieceType::Rook => {
                self.rooks = bit_board;
            },
            PieceType::Queen => {
                self.queens = bit_board;
            },
            PieceType::King => {
                self.king = bit_board;
            },
        }
    }

    /// Clears one square's bit in all six bitboards of this set.
    pub fn clear_square(&mut self, index: u8)
        requires
            index < 64,
        ensures
            forall|t: PieceType| final(self).bb(t).0 == old(self).bb(t).0 & !mask_of(index as int),
    {
        let m: u64 = !(1u64 << index);
        self.pawns = BitBoard(self.pawns.0 & m);
        self.knights = BitBoard(self.knights.0 & m);
        self.bishops = BitBoard(self.bishops.0 & m);
        self.rooks = BitBoard(self.rooks.0 & m);
        self.queens = BitBoard(self.queens.0 & m);
        self.king = BitBoard(self.king.0 & m);
    }
}

/// Bitboards for all pieces on the board, together with the square-indexed
/// mailbox view of the same position.
#[derive(Debug, Copy, Clone)]
pub struct Board {
    pub white: PieceSet,
    pub black: PieceSet,
    pub squares: _8x8Board,
}

impl Board {
    /// The piece set of one side.
    pub open spec fn side_set(self, side: Side) -> PieceSet {
        match side {
            Side::White => self.white,
            Side::Black => self.black,
        }
    }

    /// The bitboard the board holds for a piece.
    pub open spec fn bb(self, piece: Piece) -> BitBoard {
        self.side_set(piece.side).bb(piece.ptype)
    }

    /// Creates the standard starting position: starting bitboards for both
    /// sides, and the matching mailbox.
    pub fn new() -> (r: Board)
        ensures
            forall|p: Piece| r.bb(p).0 == start_mask(p.side, p.ptype),
            r.squares@ =~= Seq::new(64, |i: int| start_piece_at(i)),
            consistent(r),
    {
        let board = Board {
            white: PieceSet::new(Side::White),
            black: PieceSet::new(Side::Black),
            squares: _8x8Board::new(),
        };
        proof {
            lemma_start_consistent(board);
        }
        board
    }

    /// The bitboard for one piece.
    pub fn bit_board_for(&self, piece: Piece) -> (r: BitBoard)
        ensures
            r == self.bb(piece),
    {
        match piece.side {
            Side::White => self.white.bit_board_for(piece.ptype),
            Side::Black => self.black.bit_board_for(piece.ptype),
        }
    }

    /// Replaces the whole bitboard for one piece; the other eleven and the
    /// mailbox are untouched.
    pub fn set_bit_board(&mut self, bit_board: BitBoard, piece: Piece)
        ensures
            forall|q: Piece|
                final(self).bb(q) == if q == piece {
                    bit_board
                } else {
                    old(self).bb(q)
                },
            final(self).squares == old(self).squares,
    {
        match piece.side {
            Side::White => {
                self.white.set_bit_board(bit_board, piece.ptype);
            },
            Side::Black => {
                self.black.set_bit_board(bit_board, piece.ptype);
            },
        }
    }

    /// Reads one mailbox square.
    pub fn get_square(&self, square: &str) -> (r: Option<Piece>)
        requires
            is_square_text(square@),
        ensures
            r == self.squares@[square_index_spec(square@)],
    {
        self.squares.get_square(square)
    }

    /// Writes one mailbox square; text that is not a square coordinate is
    /// rejected before anything changes.
    pub fn set_square(&mut self, square: &str, piece: Option<Piece>) -> (r: Result<
        (),
        InvalidSquareError,
    >)
        ensures
            match r {
                Ok(_) => is_square_text(square@) && final(self).squares@ =~= old(
                    self,
                ).squares@.update(square_index_spec(square@), piece) && final(self).white == old(
                    self,
                ).white && final(self).black == old(self).black,
                Err(_) => !is_square_text(square@) && *final(self) == *old(self),
            },
    {
        self.squares.set_square(square, piece)
    }
}


/// Counts the set bits among the low `n` bits of a 64-bit mask.
pub open spec fn ones(b: u64, n: nat) -> nat
    decreases n,
{
    if n == 0 {
        0
    } else {
        ones(b / 2, (n - 1) as nat) + (b % 2) as nat
    }
}

/// In the standard starting position the white pawn bitboard holds exactly
/// the rank-2 squares, and the black king bitboard exactly e8.
pub proof fn lemma_start_pawns_and_king(j: int)
    requires
        0 <= j < 64,
    ensures
        bit_set(WHITE_PAWN_START_POS, j) <==> 8 <= j < 16,
        bit_set(BLACK_KING_START_POS, j) <==> j == square_index_spec(seq!['e', '8']),
{
    let ju = j as u64;
    assert(ju < 64 ==> ((0x000000000000ff00u64 >> ju) & 1 == 1 <==> 8 <= ju < 16)) by (bit_vector);
    assert(ju < 64 ==> ((0x1000000000000000u64 >> ju) & 1 == 1 <==> ju == 60)) by (bit_vector);
    assert(square_index_spec(seq!['e', '8']) == 60);
}

/// Each starting bitboard agrees with the starting mailbox, bit by bit: a
/// side-and-type mask has bit `j` set exactly when the mailbox places that
/// piece on square `j`.
pub proof fn lemma_start_mask_bits(s: Side, t: PieceType, j: int)
    requires
        0 <= j < 64,
    ensures
        bit_set(start_mask(s, t), j) <==> start_piece_at(j) == Some(Piece { ptype: t, side: s }),
{
    let ju = j as u64;
    assert(ju < 64 ==> ((WHITE_PAWN_START_POS >> ju) & 1 == 1 <==> 8 <= ju < 16)) by (bit_vector);
    assert(ju < 64 ==> ((WHITE_KNIGHT_START_POS >> ju) & 1 == 1 <==> (ju == 1 || ju == 6))) by (bit_vector);
    assert(ju < 64 ==> ((WHITE_BISHOP_START_POS >> ju) & 1 == 1 <==> (ju == 2 || ju == 5))) by (bit_vector);
    assert(ju < 64 ==> ((WHITE_ROOK_START_POS >> ju) & 1 == 1 <==> (ju == 0 || ju == 7))) by (bit_vector);
    assert(ju < 64 ==> ((WHITE_QUEEN_START_POS >> ju) & 1 == 1 <==> ju == 3)) by (bit_vector);
    assert(ju < 64 ==> ((WHITE_KING_START_POS >> ju) & 1 == 1 <==> ju == 4)) by (bit_vector);
    assert(ju < 64 ==> ((BLACK_PAWN_START_POS >> ju) & 1 == 1 <==> 48 <= ju < 56)) by (bit_vector);
    assert(ju < 64 ==> ((BLACK_KNIGHT_START_POS >> ju) & 1 == 1 <==> (ju == 57 || ju == 62))) by (bit_vector);
    assert(ju < 64 ==> ((BLACK_BISHOP_START_POS >> ju) & 1 == 1 <==> (ju == 58 || ju == 61))) by (bit_vector);
    assert(ju < 64 ==> ((BLACK_ROOK_START_POS >> ju) & 1 == 1 <==> (ju == 56 || ju == 63))) by (bit_vector);
    assert(ju < 64 ==> ((BLACK_QUEEN_START_POS >> ju) & 1 == 1 <==> ju == 59)) by (bit_vector);
    assert(ju < 64 ==> ((BLACK_KING_START_POS >> ju) & 1 == 1 <==> ju == 60)) by (bit_vector);
}

/// No two of the twelve starting bitboards share a set bit: in the standard
/// starting position, no square is claimed by two piece categories.
pub proof fn lemma_start_disjoint(p: Piece, q: Piece, j: int)
    requires
        p != q,
        0 <= j < 64,
    ensures
        !(bit_set(start_mask(p.side, p.ptype), j) && bit_set(start_mask(q.side, q.ptype), j)),
{
    lemma_start_mask_bits(p.side, p.ptype, j);
    lemma_start_mask_bits(q.side, q.ptype, j);
}

/// Across the twelve starting bitboards exactly 32 bits are set in total.
pub proof fn lemma_start_bit_count()
    ensures
        ones(WHITE_PAWN_START_POS, 64) + ones(WHITE_KNIGHT_START_POS, 64) + ones(WHITE_BISHOP_START_POS, 64) + ones(WHITE_ROOK_START_POS, 64) + ones(WHITE_QUEEN_START_POS, 64) + ones(WHITE_KING_START_POS, 64) + ones(BLACK_PAWN_START_POS, 64) + ones(BLACK_KNIGHT_START_POS, 64) + ones(BLACK_BISHOP_START_POS, 64) + ones(BLACK_ROOK_START_POS, 64) + ones(BLACK_QUEEN_START_POS, 64) + ones(BLACK_KING_START_POS, 64) == 32,
{
    assert(ones(WHITE_PAWN_START_POS, 64) == 8 && ones(WHITE_KNIGHT_START_POS, 64) == 2 && ones(
        WHITE_BISHOP_START_POS,
        64,
    ) == 2 && ones(WHITE_ROOK_START_POS, 64) == 2 && ones(WHITE_QUEEN_START_POS, 64) == 1 && ones(
        WHITE_KING_START_POS,
        64,
    ) == 1) by (bit_vector);
    assert(ones(BLACK_PAWN_START_POS, 64) == 8 && ones(BLACK_KNIGHT_START_POS, 64) == 2 && ones(
        BLACK_BISHOP_START_POS,
        64,
    ) == 2 && ones(BLACK_ROOK_START_POS, 64) == 2 && ones(BLACK_QUEEN_START_POS, 64) == 1 && ones(
        BLACK_KING_START_POS,
        64,
    ) == 1) by (bit_vector);
}


// ---------------------------------------------------------------------------
// The synchronization invariant between bitboards and mailbox
// ---------------------------------------------------------------------------

/// Clearing one bit: every other bit is untouched, and the cleared one
/// reads as clear.
pub proof fn lemma_clear_bit(b: u64, t: int, j: int)
    requires
        0 <= t < 64,
        0 <= j < 64,
    ensures
        bit_set(b & !mask_of(t), j) == (j != t && bit_set(b, j)),
{
    let tu = t as u64;
    let ju = j as u64;
    assert(tu < 64 && ju < 64 ==> (((b & !(1u64 << tu)) >> ju) & 1 == 1 <==> (ju != tu && (b >> ju)
        & 1 == 1))) by (bit_vector);
}

/// Setting one bit: every other bit is untouched, and the set one reads
/// as set.
pub proof fn lemma_set_bit(b: u64, t: int, j: int)
    requires
        0 <= t < 64,
        0 <= j < 64,
    ensures
        bit_set(b | mask_of(t), j) == (j == t || bit_set(b, j)),
{
    let tu = t as u64;
    let ju = j as u64;
    assert(tu < 64 && ju < 64 ==> (((b | (1u64 << tu)) >> ju) & 1 == 1 <==> (ju == tu || (b >> ju)
        & 1 == 1))) by (bit_vector);
}

/// One square of the synchronization invariant: the mailbox entry is
/// present exactly when one bitboard has the square's bit set, and it names
/// that bitboard's side and type.
pub open spec fn consistent_at(b: Board, i: int) -> bool {
    match b.squares@[i] {
        Some(p) => bit_set(b.bb(p).0, i) && (forall|q: Piece|
            q != p ==> !bit_set((#[trigger] b.bb(q)).0, i)),
        None => forall|q: Piece| !bit_set((#[trigger] b.bb(q)).0, i),
    }
}

/// The synchronization invariant of the dual representation: on every
/// square the mailbox and the twelve bitboards agree.
pub open spec fn consistent(b: Board) -> bool {
    b.squares@.len() == 64 && forall|i: int| 0 <= i < 64 ==> #[trigger] consistent_at(b, i)
}

/// A board that holds the starting bitboards and the starting mailbox
/// satisfies the synchronization invariant.
pub proof fn lemma_start_consistent(b: Board)
    requires
        forall|p: Piece| (#[trigger] b.bb(p)).0 == start_mask(p.side, p.ptype),
        b.squares@ =~= Seq::new(64, |i: int| start_piece_at(i)),
    ensures
        consistent(b),
{
    assert forall|i: int| 0 <= i < 64 implies consistent_at(b, i) by {
        assert forall|q: Piece| bit_set((#[trigger] b.bb(q)).0, i) == (start_piece_at(i) == Some(
            q,
        )) by {
            lemma_start_mask_bits(q.side, q.ptype, i);
            assert(Piece { ptype: q.ptype, side: q.side } == q);
        }
        match b.squares@[i] {
            Some(p) => {
                assert(start_piece_at(i) == Some(p));
            },
            None => {
                assert(start_piece_at(i) is None);
            },
        }
    }
}


} // verus!
