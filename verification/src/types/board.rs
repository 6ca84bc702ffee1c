//! The board: the piece on each square plus redundant per-kind and per-color
//! bitboards, filled from FEN piece placement.

use vstd::prelude::*;

verus! {

use crate::bits::bit64;
use crate::types::piece::{piece_of_char, piece_type_index, type_of_piece};
use crate::types::{color_index, Bitboard, Color, Piece, PieceType, Square};

/// A position: the piece on each of the 64 squares, one occupancy bitboard
/// per piece kind (the `All` slot holds every piece), one per color, and the
/// side to move.
pub struct Board {
    pub content: Vec<Piece>,
    pub pieces: Vec<Bitboard>,
    pub colors: Vec<Bitboard>,
    pub side_to_move: Color,
}

/// The numeric value of a FEN digit character, or ten for any other
/// character.
pub open spec fn digit_val(c: char) -> int {
    match c {
        '0' => 0,
        '1' => 1,
        '2' => 2,
        '3' => 3,
        '4' => 4,
        '5' => 5,
        '6' => 6,
        '7' => 7,
        '8' => 8,
        '9' => 9,
        _ => 10,
    }
}

/// Whether the FEN placement field starting at `i` is well formed when the
/// cursor stands on `file` of `rank`: ranks never underflow, files never run
/// past the board, and every placement character names a piece. Parsing stops
/// at the first space or the end.
pub open spec fn fen_ok(s: Seq<char>, i: int, file: int, rank: int) -> bool
    decreases s.len() - i,
{
    if i < 0 || i >= s.len() || s[i] == ' ' {
        true
    } else if s[i] == '/' {
        rank >= 1 && fen_ok(s, i + 1, 0, rank - 1)
    } else if digit_val(s[i]) <= 9 {
        file + digit_val(s[i]) <= 8 && fen_ok(s, i + 1, file + digit_val(s[i]), rank)
    } else {
        piece_of_char(s[i]) != Piece::Empty && 0 <= rank <= 7 && 0 <= file <= 7 && fen_ok(
            s,
            i + 1,
            file + 1,
            rank,
        )
    }
}

/// The board state after folding the FEN placement field from position `i`
/// over `(content, pieces, colors)`: a digit skips files, a slash starts the
/// next rank down, and a piece letter lands on the cursor square, joining its
/// kind's, its color's, and the all-pieces bitboards.
pub open spec fn fen_fold(
    s: Seq<char>,
    i: int,
    file: int,
    rank: int,
    st: (Seq<Piece>, Seq<Bitboard>, Seq<Bitboard>),
) -> (Seq<Piece>, Seq<Bitboard>, Seq<Bitboard>)
    decreases s.len() - i,
{
    if i < 0 || i >= s.len() || s[i] == ' ' {
        st
    } else if s[i] == '/' {
        fen_fold(s, i + 1, 0, rank - 1, st)
    } else if digit_val(s[i]) <= 9 {
        fen_fold(s, i + 1, file + digit_val(s[i]), rank, st)
    } else {
        let p = piece_of_char(s[i]);
        let idx = rank * 8 + file;
        let b = bit64(idx);
        let pt = piece_type_index(type_of_piece(p));
        let ci = color_index(piece_color_spec(p));
        let st2 = (
            st.0.update(idx, p),
            st.1.update(pt, Bitboard(st.1[pt].0 | b)).update(0, Bitboard(st.1[0].0 | b)),
            st.2.update(ci, Bitboard(st.2[ci].0 | b)),
        );
        fen_fold(s, i + 1, file + 1, rank, st2)
    }
}

/// The color of a piece that is not empty; white for the empty piece.
pub open spec fn piece_color_spec(p: Piece) -> Color {
    match p {
        Piece::Pawn(c) => c,
        Piece::Knight(c) => c,
        Piece::Bishop(c) => c,
        Piece::Rook(c) => c,
        Piece::Queen(c) => c,
        Piece::King(c) => c,
        Piece::Empty => Color::White,
    }
}

/// The FEN letter of each square's piece, in square order.
pub open spec fn board_chars(content: Seq<Piece>) -> Seq<char> {
    Seq::new(64, |i: int| crate::types::piece::char_of_piece(content[i]))
}

/// The all-empty starting state `Board::new` returns and `fen_fold` starts
/// from.
pub open spec fn empty_board_state() -> (Seq<Piece>, Seq<Bitboard>, Seq<Bitboard>) {
    (
        Seq::new(64, |i: int| Piece::Empty),
        Seq::new(8, |i: int| Bitboard(0)),
        Seq::new(2, |i: int| Bitboard(0)),
    )
}

/// The numeric value of a FEN digit character, or ten for any other
/// character.
pub fn digit_val_exec(c: char) -> (v: u32)
    ensures
        v == digit_val(c),
{
    match c {
        '0' => 0,
        '1' => 1,
        '2' => 2,
        '3' => 3,
        '4' => 4,
        '5' => 5,
        '6' => 6,
        '7' => 7,
        '8' => 8,
        '9' => 9,
        _ => 10,
    }
}

impl Board {
    /// The vectors hold their fixed sizes: 64 squares, 8 kind slots, 2 color
    /// slots.
    pub open spec fn wf(self) -> bool {
        self.content@.len() == 64 && self.pieces@.len() == 8 && self.colors@.len() == 2
    }

    /// An empty board, white to move.
    pub fn new() -> (b: Board)
        ensures
            b.wf(),
            b.content@ == empty_board_state().0,
            b.pieces@ == empty_board_state().1,
            b.colors@ == empty_board_state().2,
            b.side_to_move == Color::White,
    {
        let mut content: Vec<Piece> = Vec::new();
        let mut k: usize = 0;
        while k < 64
            invariant
                k <= 64,
                content@.len() == k,
                forall|i: int| 0 <= i < k ==> content@[i] == Piece::Empty,
            decreases 64 - k,
        {
            content.push(Piece::Empty);
            k = k + 1;
        }
        let mut pieces: Vec<Bitboard> = Vec::new();
        let mut k2: usize = 0;
        while k2 < 8
            invariant
                k2 <= 8,
                pieces@.len() == k2,
                forall|i: int| 0 <= i < k2 ==> pieces@[i] == Bitboard(0),
            decreases 8 - k2,
        {
            pieces.push(Bitboard(0));
            k2 = k2 + 1;
        }
        let mut colors: Vec<Bitboard> = Vec::new();
        let mut k3: usize = 0;
        while k3 < 2
            invariant
                k3 <= 2,
                colors@.len() == k3,
                forall|i: int| 0 <= i < k3 ==> colors@[i] == Bitboard(0),
            decreases 2 - k3,
        {
            colors.push(Bitboard(0));
            k3 = k3 + 1;
        }
        proof {
            assert(content@ =~= empty_board_state().0);
            assert(pieces@ =~= empty_board_state().1);
            assert(colors@ =~= empty_board_state().2);
        }
        Board { content, pieces, colors, side_to_move: Color::White }
    }

    /// Parses the piece-placement field of a FEN string, top rank first, onto
    /// an empty board.
    #[verifier::loop_isolation(false)]
    pub fn from(fen: &str) -> (b: Board)
        requires
            fen_ok(fen@, 0, 0, 7),
        ensures
            b.wf(),
            (b.content@, b.pieces@, b.colors@) == fen_fold(fen@, 0, 0, 7, empty_board_state()),
            b.side_to_move == Color::White,
    {
        let mut board = Board::new();
        let len = fen.unicode_len();
        let mut i: usize = 0;
        let mut file: usize = 0;
        let mut rank: usize = 7;
        let mut stop = false;
        while i < len && !stop
            invariant
                i <= len,
                file <= 8,
                rank <= 7,
                board.wf(),
                board.side_to_move == Color::White,
                stop ==> (i < len && fen@[i as int] == ' '),
                fen_ok(fen@, i as int, file as int, rank as int),
                fen_fold(
                    fen@,
                    i as int,
                    file as int,
                    rank as int,
                    (board.content@, board.pieces@, board.colors@),
                ) == fen_fold(fen@, 0, 0, 7, empty_board_state()),
            decreases (len - i) * 2 + (if stop {
                0int
            } else {
                1int
            }),
        {
            let c = fen.get_char(i);
            if c == ' ' {
                stop = true;
            } else {
                if c == '/' {
                    file = 0;
                    rank = rank - 1;
                } else {
                    let v = digit_val_exec(c);
                    if v <= 9 {
                        file = file + (v as usize);
                    } else {
                        let p = Piece::from(c);
                        let idx = rank * 8 + file;
                        let bit = Bitboard(1u64 << (idx as u64));
                        let pt = p.ptype().index();
                        proof {
                            assert(pt != 0);
                        }
                        let col = match p.color() {
                            Some(col) => col,
                            None => {
                                proof {
                                    assert(false);
                                }
                                Color::White
                            },
                        };
                        proof {
                            assert(col == piece_color_spec(p));
                        }
                        let ci: usize = match col {
                            Color::White => 0,
                            Color::Black => 1,
                        };
                        board.content.set(idx, p);
                        let merged_pt = Bitboard(board.pieces[pt].0 | bit.0);
                        board.pieces.set(pt, merged_pt);
                        let merged_all = Bitboard(board.pieces[0].0 | bit.0);
                        board.pieces.set(0, merged_all);
                        let merged_c = Bitboard(board.colors[ci].0 | bit.0);
                        board.colors.set(ci, merged_c);
                        file = file + 1;
                    }
                }
                i = i + 1;
            }
        }
        board
    }

    /// The grid rendering of the position, one FEN letter per square, with
    /// the rank and file legend, under a leading newline.
    pub fn render(&self) -> (s: String)
        requires
            self.wf(),
        ensures
            s@ == seq!['\n'] + crate::util::grid_spec(board_chars(self.content@), true),
    {
        let mut chars: Vec<char> = Vec::new();
        let mut i: usize = 0;
        while i < 64
            invariant
                i <= 64,
                self.wf(),
                chars@.len() == i,
                forall|j: int| 0 <= j < i ==> chars@[j] == board_chars(self.content@)[j],
            decreases 64 - i,
        {
            chars.push(self.content[i].id());
            i = i + 1;
        }
        proof {
            assert(chars@ =~= board_chars(self.content@));
            reveal_strlit("\n");
        }
        let grid = crate::util::render_grid_slice(chars.as_slice(), true);
        let head = String::from_str("\n");
        head.concat(grid.as_str())
    }

    /// The piece standing on a square.
    pub fn at(&self, sq: Square) -> (p: Piece)
        requires
            self.wf(),
            sq.on_board(),
        ensures
            p == self.content@[sq.0 as int],
    {
        self.content[sq.0 as usize]
    }

    /// The occupancy of one color.
    pub fn by_color(&self, color: Color) -> (b: Bitboard)
        requires
            self.wf(),
        ensures
            b == self.colors@[color_index(color)],
    {
        let ci: usize = match color {
            Color::White => 0,
            Color::Black => 1,
        };
        self.colors[ci]
    }

    /// The occupancy of one piece kind, both colors together.
    pub fn by_piece_type(&self, ptype: PieceType) -> (b: Bitboard)
        requires
            self.wf(),
        ensures
            b == self.pieces@[piece_type_index(ptype)],
    {
        self.pieces[ptype.index()]
    }

    /// The occupancy of one piece: its kind's squares of its color.
    pub fn by_piece(&self, piece: Piece) -> (b: Bitboard)
        requires
            self.wf(),
            piece != Piece::Empty,
        ensures
            b.0 == (self.colors@[color_index(piece_color_spec(piece))].0
                & self.pieces@[piece_type_index(type_of_piece(piece))].0),
    {
        let col = match piece.color() {
            Some(col) => col,
            None => {
                proof {
                    assert(false);
                }
                Color::White
            },
        };
        Bitboard(self.by_color(col).0 & self.by_piece_type(piece.ptype()).0)
    }

    /// The occupancy of every piece on the board.
    pub fn pieces(&self) -> (b: Bitboard)
        requires
            self.wf(),
        ensures
            b == self.pieces@[piece_type_index(PieceType::All)],
    {
        self.by_piece_type(PieceType::All)
    }
}

} // verus!
