//! Core value types of the board model: colors, files, ranks, step
//! directions, and moves.

use vstd::prelude::*;

pub mod bitboard;
pub mod board;
pub mod magic;
pub mod piece;
pub mod square;

pub use bitboard::{Bitboard, BitboardIter};
pub use board::Board;
pub use magic::{Magic, MagicBitboard, MagicBitboardSquare, MagicError, MagicPiece, SuperMagic};
pub use piece::{Piece, PieceType};
pub use square::{Square, SquareIter};

verus! {

#[derive(Debug, Clone, Copy, PartialEq, Eq, Structural)]
pub enum Color {
    White,
    Black,
}

#[derive(Debug, Copy, Clone, PartialEq, Eq, PartialOrd, Ord, Hash, Structural)]
pub enum File {
    FileA,
    FileB,
    FileC,
    FileD,
    FileE,
    FileF,
    FileG,
    FileH,
}

#[derive(Debug, Copy, Clone, PartialEq, Eq, Structural)]
pub enum Rank {
    Rank1,
    Rank2,
    Rank3,
    Rank4,
    Rank5,
    Rank6,
    Rank7,
    Rank8,
}

/// A step direction on the board, as a file delta and a rank delta.
#[derive(Debug, Copy, Clone, PartialEq, Eq, Structural)]
pub enum Direction {
    Up,
    Right,
    Down,
    Left,
    UpRight,
    UpLeft,
    DownRight,
    DownLeft,
}

#[derive(Debug, Copy, Clone, PartialEq, Eq, Structural)]
pub enum MoveType {
    Quiet,
    Promotion,
    EnPassant,
    Castle,
}

#[derive(Debug, Copy, Clone, PartialEq, Eq, Structural)]
pub struct Move {
    pub from: Square,
    pub to: Square,
    pub move_type: MoveType,
}

/// The board-index position of a file, `0` for file A through `7` for file H.
pub open spec fn file_index(f: File) -> int {
    match f {
        File::FileA => 0,
        File::FileB => 1,
        File::FileC => 2,
        File::FileD => 3,
        File::FileE => 4,
        File::FileF => 5,
        File::FileG => 6,
        File::FileH => 7,
    }
}

/// The board-index position of a rank, `0` for rank 1 through `7` for rank 8.
pub open spec fn rank_index(r: Rank) -> int {
    match r {
        Rank::Rank1 => 0,
        Rank::Rank2 => 1,
        Rank::Rank3 => 2,
        Rank::Rank4 => 3,
        Rank::Rank5 => 4,
        Rank::Rank6 => 5,
        Rank::Rank7 => 6,
        Rank::Rank8 => 7,
    }
}

/// The index of a color into per-color tables: white first.
pub open spec fn color_index(c: Color) -> int {
    match c {
        Color::White => 0,
        Color::Black => 1,
    }
}

/// The file delta of one step in a direction.
pub open spec fn dir_df(d: Direction) -> int {
    match d {
        Direction::Up => 0,
        Direction::Right => 1,
        Direction::Down => 0,
        Direction::Left => -1,
        Direction::UpRight => 1,
        Direction::UpLeft => -1,
        Direction::DownRight => 1,
        Direction::DownLeft => -1,
    }
}

/// The rank delta of one step in a direction.
pub open spec fn dir_dr(d: Direction) -> int {
    match d {
        Direction::Up => 1,
        Direction::Right => 0,
        Direction::Down => -1,
        Direction::Left => 0,
        Direction::UpRight => 1,
        Direction::UpLeft => 1,
        Direction::DownRight => -1,
        Direction::DownLeft => -1,
    }
}

impl File {
    /// Looks a file up by its board index; indices past the H file are
    /// rejected.
    pub fn try_from(file: usize) -> (r: Result<File, String>)
        ensures
            file <= 7 ==> (r matches Ok(f) && file_index(f) == file),
            file > 7 ==> r is Err,
    {
        match file {
            0 => Ok(File::FileA),
            1 => Ok(File::FileB),
            2 => Ok(File::FileC),
            3 => Ok(File::FileD),
            4 => Ok(File::FileE),
            5 => Ok(File::FileF),
            6 => Ok(File::FileG),
            7 => Ok(File::FileH),
            _ => Err(crate::util::format_invalid("Invalid file", file)),
        }
    }
}

impl Rank {
    /// Looks a rank up by its board index; indices past the eighth rank are
    /// rejected.
    pub fn try_from(rank: usize) -> (r: Result<Rank, String>)
        ensures
            rank <= 7 ==> (r matches Ok(k) && rank_index(k) == rank),
            rank > 7 ==> r is Err,
    {
        match rank {
            0 => Ok(Rank::Rank1),
            1 => Ok(Rank::Rank2),
            2 => Ok(Rank::Rank3),
            3 => Ok(Rank::Rank4),
            4 => Ok(Rank::Rank5),
            5 => Ok(Rank::Rank6),
            6 => Ok(Rank::Rank7),
            7 => Ok(Rank::Rank8),
            _ => Err(crate::util::format_invalid("Invalid rank", rank)),
        }
    }
}

impl Color {
    /// The other side.
    pub fn opposite(self) -> (r: Color)
        ensures
            self == Color::White ==> r == Color::Black,
            self == Color::Black ==> r == Color::White,
    {
        match self {
            Color::White => Color::Black,
            Color::Black => Color::White,
        }
    }
}

impl Move {
    pub fn new(from: Square, to: Square, move_type: MoveType) -> (m: Move)
        ensures
            m.from == from,
            m.to == to,
            m.move_type == move_type,
    {
        Move { from, to, move_type }
    }

    /// Renders the move as origin and destination square names.
    pub fn text(&self) -> (s: String)
        requires
            self.from.0 < 64,
            self.to.0 < 64,
        ensures
            s@ == self.from.name_chars() + " -> "@ + self.to.name_chars(),
    {
        let mut s = self.from.name();
        s.append(" -> ");
        s.append(self.to.name().as_str());
        s
    }
}

} // verus!
