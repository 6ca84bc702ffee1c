//! Bitboards: 64-bit square sets with the mask constructions and the
//! low-bit-first square iterator that the magic machinery builds on.

use vstd::prelude::*;

verus! {

use crate::bits::{bit64, sq_seq};
use crate::types::{Direction, Square};
use vstd::std_specs::bits::u64_trailing_zeros;

/// A set of squares: bit `i` means square `i` is a member.
#[derive(Debug, Copy, Clone, PartialEq, Eq, Structural)]
pub struct Bitboard(pub u64);

/// Consumes a copy of a bitboard, yielding its squares lowest-index-first.
#[derive(Debug, Copy, Clone)]
pub struct BitboardIter {
    pub bitboard: Bitboard,
}

pub const RANK_1: u64 = 0xFF;

pub const RANK_2: u64 = 0xFF << 8;

pub const RANK_3: u64 = 0xFF << 16;

pub const RANK_4: u64 = 0xFF << 24;

pub const RANK_5: u64 = 0xFF << 32;

pub const RANK_6: u64 = 0xFF << 40;

pub const RANK_7: u64 = 0xFF << 48;

pub const RANK_8: u64 = 0xFF << 56;

pub const FILE_A: u64 = 0x0101010101010101;

pub const FILE_B: u64 = FILE_A << 1;

pub const FILE_C: u64 = FILE_A << 2;

pub const FILE_D: u64 = FILE_A << 3;

pub const FILE_E: u64 = FILE_A << 4;

pub const FILE_F: u64 = FILE_A << 5;

pub const FILE_G: u64 = FILE_A << 6;

pub const FILE_H: u64 = FILE_A << 7;

/// The bitboard of the file with index `f`.
pub open spec fn file_mask(f: int) -> u64 {
    FILE_A << (f as u64)
}

/// The bitboard of the rank with index `r`.
pub open spec fn rank_mask(r: int) -> u64 {
    RANK_1 << ((8 * r) as u64)
}

/// The board-edge squares that square `s` does not share a line with: the
/// outer files minus the file of `s`, and the outer ranks minus the rank of
/// `s`.
pub open spec fn edges_spec(s: int) -> u64 {
    ((FILE_A | FILE_H) & !file_mask(s % 8)) | ((RANK_1 | RANK_8) & !rank_mask(s / 8))
}

/// A single square's bit avoids the edge set of square `(sf, sr)` when it
/// shares the file or sits on an inner file, and likewise for its rank.
pub proof fn lemma_bit_outside_edges(q: u64, sf: u64, sr: u64)
    by (bit_vector)
    requires
        q < 64,
        sf < 8,
        sr < 8,
        (q % 8 == sf) || (1 <= q % 8 <= 6),
        (q / 8 == sr) || (1 <= q / 8 <= 6),
    ensures
        (1u64 << q) & (((FILE_A | FILE_H) & !(FILE_A << sf)) | ((RANK_1 | RANK_8) & !(RANK_1 << (8
            * sr)))) == 0,
{
}

/// The display character of each square of a bitboard: a filled dot for a
/// member, a space otherwise.
pub open spec fn bit_chars(x: u64) -> Seq<char> {
    Seq::new(
        64,
        |i: int|
            if x & (1u64 << (i as u64)) != 0 {
                '●'
            } else {
                ' '
            },
    )
}

/// The union of the single-square bitboards of a sequence of squares.
pub open spec fn squares_bits(s: Seq<Square>) -> u64
    decreases s.len(),
{
    if s.len() == 0 {
        0u64
    } else {
        squares_bits(s.drop_last()) | bit64(s.last().0 as int)
    }
}

impl Bitboard {
    /// The bitboard with exactly the given square set.
    pub fn square(square: Square) -> (b: Bitboard)
        requires
            square.on_board(),
        ensures
            b.0 == bit64(square.0 as int),
    {
        Bitboard(1u64 << (square.0 as u64))
    }

    /// The bitboard with exactly the given squares set.
    pub fn squares(squares: &[Square]) -> (b: Bitboard)
        requires
            forall|i: int| 0 <= i < squares@.len() ==> squares@[i].on_board(),
        ensures
            b.0 == squares_bits(squares@),
    {
        let mut bitboard = Bitboard(0);
        let n = squares.len();
        for i in 0..n
            invariant
                n == squares@.len(),
                forall|j: int| 0 <= j < squares@.len() ==> squares@[j].on_board(),
                bitboard.0 == squares_bits(squares@.take(i as int)),
        {
            let sq = squares[i];
            bitboard = Bitboard(bitboard.0 | (1u64 << (sq.0 as u64)));
            proof {
                assert(squares@.take(i + 1).drop_last() =~= squares@.take(i as int));
                assert(squares@.take(i + 1).last() == squares@[i as int]);
            }
        }
        proof {
            assert(squares@.take(n as int) =~= squares@);
        }
        bitboard
    }

    /// The edge squares that cannot matter as blockers for rays out of `s`:
    /// the outer files and ranks, minus the file and rank of `s` itself.
    pub fn edges(s: Square) -> (b: Bitboard)
        requires
            s.on_board(),
        ensures
            b.0 == edges_spec(s.0 as int),
    {
        let f = Bitboard::file(s);
        let r = Bitboard::rank(s);
        Bitboard(((FILE_A | FILE_H) & !f.0) | ((RANK_1 | RANK_8) & !r.0))
    }

    /// The bitboard of the file the square is on.
    pub fn file(square: Square) -> (b: Bitboard)
        requires
            square.on_board(),
        ensures
            b.0 == file_mask(square.0 as int % 8),
    {
        Bitboard(FILE_A << ((square.0 % 8) as u64))
    }

    /// The bitboard of the rank the square is on.
    pub fn rank(square: Square) -> (b: Bitboard)
        requires
            square.on_board(),
        ensures
            b.0 == rank_mask(square.0 as int / 8),
    {
        Bitboard(RANK_1 << ((8 * (square.0 / 8)) as u64))
    }

    /// Whether no square is set.
    pub fn empty(&self) -> (r: bool)
        ensures
            r == (self.0 == 0),
    {
        self.0 == 0
    }

    /// Shifts the whole set up or down by `amt` ranks; bits pushed off the
    /// board are lost, and file directions leave the set unchanged.
    pub fn shift(&self, d: Direction, amt: usize) -> (b: Bitboard)
        requires
            amt <= 7,
        ensures
            d == Direction::Up ==> b.0 == self.0 << ((8 * amt) as u64),
            d == Direction::Down ==> b.0 == self.0 >> ((8 * amt) as u64),
            d != Direction::Up && d != Direction::Down ==> b == *self,
    {
        match d {
            Direction::Up => Bitboard(self.0 << ((8 * amt) as u64)),
            Direction::Down => Bitboard(self.0 >> ((8 * amt) as u64)),
            _ => *self,
        }
    }

    /// The grid rendering of the set, a filled dot per member square, with
    /// the rank and file legend, under a leading newline.
    pub fn render(&self) -> (s: String)
        ensures
            s@ == seq!['\n'] + crate::util::grid_spec(bit_chars(self.0), true),
    {
        let mut chars: Vec<char> = Vec::new();
        let mut i: usize = 0;
        while i < 64
            invariant
                i <= 64,
                chars@.len() == i,
                forall|j: int| 0 <= j < i ==> chars@[j] == bit_chars(self.0)[j],
            decreases 64 - i,
        {
            if self.0 & (1u64 << (i as u64)) != 0 {
                chars.push('●');
            } else {
                chars.push(' ');
            }
            i = i + 1;
        }
        proof {
            assert(chars@ =~= bit_chars(self.0));
            reveal_strlit("\n");
        }
        let grid = crate::util::render_grid_slice(chars.as_slice(), true);
        let head = String::from_str("\n");
        head.concat(grid.as_str())
    }

    /// An iterator over the set squares, consuming a copy of the set.
    pub fn iter(&self) -> (it: BitboardIter)
        ensures
            it.bitboard == *self,
    {
        BitboardIter { bitboard: *self }
    }
}

impl BitboardIter {
    /// Yields the lowest set square and removes it from the working copy, or
    /// yields nothing once the copy is empty.
    pub fn next(&mut self) -> (r: Option<Square>)
        ensures
            old(self).bitboard.0 == 0 ==> r is None && *final(self) == *old(self),
            old(self).bitboard.0 != 0 ==> (r matches Some(sq) && sq.0 as u32
                == u64_trailing_zeros(old(self).bitboard.0) && final(self).bitboard.0 == (
            old(self).bitboard.0 & ((old(self).bitboard.0 - 1) as u64)) && sq_seq(
                old(self).bitboard.0,
            ) == seq![sq.0 as int] + sq_seq(final(self).bitboard.0)),
    {
        if self.bitboard.0 == 0 {
            return None;
        }
        proof {
            vstd::std_specs::bits::axiom_u64_trailing_zeros(self.bitboard.0);
        }
        let square = self.bitboard.0.trailing_zeros() as usize;
        self.bitboard.0 = self.bitboard.0 & (self.bitboard.0 - 1);
        Some(Square::from(square as isize))
    }
}

} // verus!
