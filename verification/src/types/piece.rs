//! Pieces and piece kinds, and their FEN letter encoding.

use vstd::prelude::*;

verus! {

use crate::types::Color;

#[derive(Debug, Clone, Copy, PartialEq, Eq, Structural)]
pub enum Piece {
    Empty,
    Pawn(Color),
    Knight(Color),
    Bishop(Color),
    Rook(Color),
    Queen(Color),
    King(Color),
}

#[derive(Debug, Clone, Copy, PartialEq, Eq, Structural)]
pub enum PieceType {
    All,
    Empty,
    Pawn,
    Knight,
    Bishop,
    Rook,
    Queen,
    King,
}

/// The piece a FEN letter stands for: lowercase letters are black, uppercase
/// white, and any other character is no piece.
pub open spec fn piece_of_char(c: char) -> Piece {
    match c {
        'p' => Piece::Pawn(Color::Black),
        'n' => Piece::Knight(Color::Black),
        'b' => Piece::Bishop(Color::Black),
        'r' => Piece::Rook(Color::Black),
        'q' => Piece::Queen(Color::Black),
        'k' => Piece::King(Color::Black),
        'P' => Piece::Pawn(Color::White),
        'N' => Piece::Knight(Color::White),
        'B' => Piece::Bishop(Color::White),
        'R' => Piece::Rook(Color::White),
        'Q' => Piece::Queen(Color::White),
        'K' => Piece::King(Color::White),
        _ => Piece::Empty,
    }
}

/// The FEN letter of a piece: uppercase for white, lowercase for black, a
/// space for no piece.
pub open spec fn char_of_piece(p: Piece) -> char {
    match p {
        Piece::Pawn(Color::White) => 'P',
        Piece::Pawn(Color::Black) => 'p',
        Piece::Knight(Color::White) => 'N',
        Piece::Knight(Color::Black) => 'n',
        Piece::Bishop(Color::White) => 'B',
        Piece::Bishop(Color::Black) => 'b',
        Piece::Rook(Color::White) => 'R',
        Piece::Rook(Color::Black) => 'r',
        Piece::Queen(Color::White) => 'Q',
        Piece::Queen(Color::Black) => 'q',
        Piece::King(Color::White) => 'K',
        Piece::King(Color::Black) => 'k',
        Piece::Empty => ' ',
    }
}

/// The kind of a piece, its color forgotten.
pub open spec fn type_of_piece(p: Piece) -> PieceType {
    match p {
        Piece::Empty => PieceType::Empty,
        Piece::Pawn(_) => PieceType::Pawn,
        Piece::Knight(_) => PieceType::Knight,
        Piece::Bishop(_) => PieceType::Bishop,
        Piece::Rook(_) => PieceType::Rook,
        Piece::Queen(_) => PieceType::Queen,
        Piece::King(_) => PieceType::King,
    }
}

/// The index of a piece kind into per-kind tables, in declaration order.
pub open spec fn piece_type_index(t: PieceType) -> int {
    match t {
        PieceType::All => 0,
        PieceType::Empty => 1,
        PieceType::Pawn => 2,
        PieceType::Knight => 3,
        PieceType::Bishop => 4,
        PieceType::Rook => 5,
        PieceType::Queen => 6,
        PieceType::King => 7,
    }
}

impl Piece {
    /// Decodes a FEN letter.
    pub fn from(c: char) -> (p: Piece)
        ensures
            p == piece_of_char(c),
    {
        match c {
            'p' => Piece::Pawn(Color::Black),
            'n' => Piece::Knight(Color::Black),
            'b' => Piece::Bishop(Color::Black),
            'r' => Piece::Rook(Color::Black),
            'q' => Piece::Queen(Color::Black),
            'k' => Piece::King(Color::Black),
            'P' => Piece::Pawn(Color::White),
            'N' => Piece::Knight(Color::White),
            'B' => Piece::Bishop(Color::White),
            'R' => Piece::Rook(Color::White),
            'Q' => Piece::Queen(Color::White),
            'K' => Piece::King(Color::White),
            _ => Piece::Empty,
        }
    }

    /// The FEN letter of the piece.
    pub fn id(&self) -> (c: char)
        ensures
            c == char_of_piece(*self),
    {
        match self {
            Piece::Pawn(Color::White) => 'P',
            Piece::Pawn(Color::Black) => 'p',
            Piece::Knight(Color::White) => 'N',
            Piece::Knight(Color::Black) => 'n',
            Piece::Bishop(Color::White) => 'B',
            Piece::Bishop(Color::Black) => 'b',
            Piece::Rook(Color::White) => 'R',
            Piece::Rook(Color::Black) => 'r',
            Piece::Queen(Color::White) => 'Q',
            Piece::Queen(Color::Black) => 'q',
            Piece::King(Color::White) => 'K',
            Piece::King(Color::Black) => 'k',
            Piece::Empty => ' ',
        }
    }

    pub fn ptype(&self) -> (t: PieceType)
        ensures
            t == type_of_piece(*self),
    {
        match self {
            Piece::Empty => PieceType::Empty,
            Piece::Pawn(_) => PieceType::Pawn,
            Piece::Knight(_) => PieceType::Knight,
            Piece::Bishop(_) => PieceType::Bishop,
            Piece::Rook(_) => PieceType::Rook,
            Piece::Queen(_) => PieceType::Queen,
            Piece::King(_) => PieceType::King,
        }
    }

    /// The color of the piece, or nothing for no piece.
    pub fn color(&self) -> (c: Option<Color>)
        ensures
            *self is Empty <==> c is None,
            *self matches Piece::Pawn(col) ==> c == Some(col),
            *self matches Piece::Knight(col) ==> c == Some(col),
            *self matches Piece::Bishop(col) ==> c == Some(col),
            *self matches Piece::Rook(col) ==> c == Some(col),
            *self matches Piece::Queen(col) ==> c == Some(col),
            *self matches Piece::King(col) ==> c == Some(col),
    {
        match self {
            Piece::Empty => None,
            Piece::Pawn(color) => Some(*color),
            Piece::Knight(color) => Some(*color),
            Piece::Bishop(color) => Some(*color),
            Piece::Rook(color) => Some(*color),
            Piece::Queen(color) => Some(*color),
            Piece::King(color) => Some(*color),
        }
    }
}

impl PieceType {
    /// The English name of the piece kind.
    pub fn name(&self) -> (s: &'static str)
        ensures
            *self == PieceType::Empty ==> s@ == "None"@,
            *self == PieceType::Pawn ==> s@ == "Pawn"@,
            *self == PieceType::Knight ==> s@ == "Knight"@,
            *self == PieceType::Bishop ==> s@ == "Bishop"@,
            *self == PieceType::Rook ==> s@ == "Rook"@,
            *self == PieceType::Queen ==> s@ == "Queen"@,
            *self == PieceType::King ==> s@ == "King"@,
            *self == PieceType::All ==> s@ == "All"@,
    {
        match self {
            PieceType::Empty => "None",
            PieceType::Pawn => "Pawn",
            PieceType::Knight => "Knight",
            PieceType::Bishop => "Bishop",
            PieceType::Rook => "Rook",
            PieceType::Queen => "Queen",
            PieceType::King => "King",
            PieceType::All => "All",
        }
    }

    /// The index of this piece kind into per-kind tables.
    pub fn index(&self) -> (i: usize)
        ensures
            i == piece_type_index(*self),
    {
        match self {
            PieceType::All => 0,
            PieceType::Empty => 1,
            PieceType::Pawn => 2,
            PieceType::Knight => 3,
            PieceType::Bishop => 4,
            PieceType::Rook => 5,
            PieceType::Queen => 6,
            PieceType::King => 7,
        }
    }
}

} // verus!
