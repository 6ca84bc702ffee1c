//! The descriptors behind magic lookups: per-square mask, multiplier, shift
//! and offset, the packed table owning all 64 per-square tables of a piece
//! kind, and the errors the construction can surface.

use vstd::prelude::*;

verus! {

use crate::bits::popcount;
use crate::magic::{magic_hash, serves_square};
use crate::movegen::sliding;
use crate::types::{Bitboard, PieceType, Square};

/// Everything a runtime lookup needs for one square: the magic descriptor
/// plus the square's offset into the shared table.
#[derive(Debug, Copy, Clone, PartialEq, Eq)]
pub struct SuperMagic {
    pub mask: Bitboard,
    pub magic: u64,
    pub shift: u8,
    pub offset: usize,
}

/// A per-square magic descriptor: the relevant-occupancy mask, the hash
/// multiplier, and the index shift.
#[derive(Debug, Copy, Clone, PartialEq, Eq)]
pub struct Magic {
    pub mask: Bitboard,
    pub magic: u64,
    pub shift: u8,
}

/// The packed attack tables of one piece kind: 64 per-square descriptors
/// whose offsets partition one shared table.
pub struct MagicBitboard {
    pub magics: Vec<SuperMagic>,
    pub table: Vec<Bitboard>,
}

/// A borrowed view of one square's slice of a `MagicBitboard`.
pub struct MagicBitboardSquare<'a> {
    pub magic: &'a SuperMagic,
    pub table: &'a Vec<Bitboard>,
}

/// The piece kinds magic tables are built for; a queen is the union of both.
#[derive(Debug, Copy, Clone, PartialEq, Eq, Structural)]
pub enum MagicPiece {
    Bishop,
    Rook,
}

/// What can go wrong while building or querying magic tables.
#[derive(Debug, Copy, Clone, PartialEq, Eq, Structural)]
pub enum MagicError {
    /// The oracle or the finder was handed a piece kind with no direction
    /// set.
    InvalidPieceKind,
    /// The attempt ceiling was reached without a collision-free magic for the
    /// named square and kind.
    MagicSearchExhausted { square: Square, piece: PieceType },
    /// An internal construction invariant failed, pointing at a defect in the
    /// oracle or the mask computation.
    InvariantViolation,
}

/// The fixed per-rank seeds the table builder hands the search generator, so
/// that builds are reproducible.
pub open spec fn rng_seed_spec(rank: int) -> u64 {
    if rank == 0 {
        728
    } else if rank == 1 {
        10316
    } else if rank == 2 {
        55013
    } else if rank == 3 {
        32803
    } else if rank == 4 {
        12281
    } else if rank == 5 {
        15100
    } else if rank == 6 {
        16645
    } else {
        255
    }
}

/// The search seed for squares of the given rank.
pub fn rng_seed(rank: usize) -> (s: u64)
    requires
        rank < 8,
    ensures
        s == rng_seed_spec(rank as int),
{
    match rank {
        0 => 728,
        1 => 10316,
        2 => 55013,
        3 => 32803,
        4 => 12281,
        5 => 15100,
        6 => 16645,
        _ => 255,
    }
}

/// The number of entries in a per-square table with the given shift.
pub open spec fn table_span(shift: u8) -> int {
    (1u64 << ((64 - shift) as u64)) as int
}

impl Magic {
    /// The shift matches the mask width: exactly `64 - popcount(mask)` with a
    /// nonempty, proper mask.
    pub open spec fn wf(self) -> bool {
        self.shift == 64 - popcount(self.mask.0) && 1 <= self.shift <= 63
    }

    /// The table index of an occupancy under this descriptor.
    pub fn index(&self, occupied: Bitboard) -> (i: usize)
        requires
            1 <= self.shift <= 63,
            table_span(self.shift) <= usize::MAX,
        ensures
            i == magic_hash(self.magic, self.mask.0, self.shift, occupied.0),
            i < table_span(self.shift),
    {
        crate::magic::magic_index(self.magic, self.mask, self.shift, occupied)
    }
}

impl SuperMagic {
    pub fn new(mask: Bitboard, magic: u64, shift: u8, offset: usize) -> (m: SuperMagic)
        ensures
            m.mask == mask,
            m.magic == magic,
            m.shift == shift,
            m.offset == offset,
    {
        SuperMagic { mask, magic, shift, offset }
    }

    /// The index into the shared table: the square's offset plus the magic
    /// hash of the occupancy.
    pub fn index(&self, occupied: Bitboard) -> (i: usize)
        requires
            1 <= self.shift <= 63,
            self.offset + table_span(self.shift) <= usize::MAX,
        ensures
            i == self.offset + magic_hash(self.magic, self.mask.0, self.shift, occupied.0),
            i < self.offset + table_span(self.shift),
    {
        self.offset + crate::magic::magic_index(self.magic, self.mask, self.shift, occupied)
    }
}

impl MagicBitboard {
    /// Bounds needed to index safely: 64 descriptors, each shift proper, each
    /// square's slice inside the shared table.
    pub open spec fn bounds_ok(self) -> bool {
        &&& self.magics@.len() == 64
        &&& forall|s: int|
            0 <= s < 64 ==> (1 <= (#[trigger] self.magics@[s]).shift <= 63 && self.magics@[s].offset
                + table_span(self.magics@[s].shift) <= self.table@.len())
    }

    /// The packed tables really serve piece kind `kind`: every square's
    /// descriptor hashes every relevant occupancy to its true attack set, and
    /// the offsets are the running sum of the table sizes, partitioning the
    /// shared table exactly.
    pub open spec fn wf_for(self, kind: PieceType) -> bool {
        &&& self.bounds_ok()
        &&& forall|s: int|
            0 <= s < 64 ==> serves_square(
                kind,
                s,
                (#[trigger] self.magics@[s]).mask.0,
                self.magics@[s].magic,
                self.magics@[s].shift,
                self.table@,
                self.magics@[s].offset as int,
            )
        &&& self.magics@[0].offset == 0
        &&& forall|s: int|
            0 <= s < 63 ==> (#[trigger] self.magics@[s + 1]).offset == self.magics@[s].offset
                + table_span(self.magics@[s].shift)
        &&& self.table@.len() == self.magics@[63].offset + table_span(self.magics@[63].shift)
    }

    pub fn new(magics: Vec<SuperMagic>, table: Vec<Bitboard>) -> (mb: MagicBitboard)
        ensures
            mb.magics == magics,
            mb.table == table,
    {
        MagicBitboard { magics, table }
    }

    /// Borrows the descriptor and shared table serving one square.
    pub fn get<'a>(&'a self, square: Square) -> (r: MagicBitboardSquare<'a>)
        requires
            square.on_board(),
            self.magics@.len() == 64,
        ensures
            *r.magic == self.magics@[square.0 as int],
            *r.table == self.table,
    {
        MagicBitboardSquare { magic: &self.magics[square.0 as usize], table: &self.table }
    }

    /// The O(1) runtime query: mask, multiply, shift, offset, index. On a
    /// table that serves `kind`, the result is the true attack set of the
    /// occupancy restricted to the square's relevant mask.
    pub fn lookup(&self, square: Square, occupied: Bitboard) -> (b: Bitboard)
        requires
            square.on_board(),
            self.bounds_ok(),
        ensures
            b == self.table@[self.magics@[square.0 as int].offset + magic_hash(
                self.magics@[square.0 as int].magic,
                self.magics@[square.0 as int].mask.0,
                self.magics@[square.0 as int].shift,
                occupied.0,
            )],
            forall|kind: PieceType|
                self.wf_for(kind) ==> b.0 == sliding(
                    kind,
                    square.0 as int,
                    occupied.0 & self.magics@[square.0 as int].mask.0,
                ),
            forall|kind: PieceType|
                crate::movegen::is_slider(kind) && self.wf_for(kind) ==> b.0 == sliding(
                    kind,
                    square.0 as int,
                    occupied.0,
                ),
    {
        let m = &self.magics[square.0 as usize];
        let n = self.table.len();
        proof {
            assert(m.offset + table_span(m.shift) <= n);
        }
        let i = m.offset + crate::magic::magic_index(m.magic, m.mask, m.shift, occupied);
        let b = self.table[i];
        proof {
            crate::bits::lemma_mask_and(occupied.0, m.mask.0);
            assert forall|kind: PieceType| self.wf_for(kind) implies b.0 == sliding(
                kind,
                square.0 as int,
                occupied.0 & m.mask.0,
            ) by {
                let masked = occupied.0 & m.mask.0;
                assert(masked & m.mask.0 == masked);
                assert(magic_hash(m.magic, m.mask.0, m.shift, occupied.0) == magic_hash(
                    m.magic,
                    m.mask.0,
                    m.shift,
                    masked,
                ));
            }
            assert forall|kind: PieceType|
                crate::movegen::is_slider(kind) && self.wf_for(kind) implies b.0 == sliding(
                kind,
                square.0 as int,
                occupied.0,
            ) by {
                crate::magic::lemma_mask_shift_invariant(*self, kind, square.0 as int);
                crate::magic::lemma_mask_irrelevant(kind, square.0 as int, occupied.0);
            }
        }
        b
    }
}

impl<'a> MagicBitboardSquare<'a> {
    /// The borrowed slice can be indexed: proper shift and the square's span
    /// inside the table.
    pub open spec fn in_bounds(self) -> bool {
        1 <= self.magic.shift <= 63 && self.magic.offset + table_span(self.magic.shift)
            <= self.table@.len()
    }

    /// This square view serves square `s` of piece kind `kind`.
    pub open spec fn serves(self, kind: PieceType, s: int) -> bool {
        serves_square(
            kind,
            s,
            self.magic.mask.0,
            self.magic.magic,
            self.magic.shift,
            self.table@,
            self.magic.offset as int,
        )
    }

    /// Looks up the attack set for an occupancy. On a view that serves square
    /// `s` of kind `kind`, the result is the true attack set of the
    /// occupancy restricted to the mask.
    pub fn at(&self, occupied: Bitboard) -> (b: Bitboard)
        requires
            self.in_bounds(),
        ensures
            b == self.table@[self.magic.offset + magic_hash(
                self.magic.magic,
                self.magic.mask.0,
                self.magic.shift,
                occupied.0,
            )],
            forall|kind: PieceType, s: int|
                self.serves(kind, s) ==> b.0 == sliding(
                    kind,
                    s,
                    occupied.0 & self.magic.mask.0,
                ),
            forall|kind: PieceType, s: int|
                crate::movegen::is_slider(kind) && 0 <= s < 64 && self.serves(kind, s) ==> b.0
                    == sliding(kind, s, occupied.0),
    {
        let n = self.table.len();
        proof {
            assert(self.magic.offset + table_span(self.magic.shift) <= n);
        }
        let i = self.magic.offset + crate::magic::magic_index(
            self.magic.magic,
            self.magic.mask,
            self.magic.shift,
            occupied,
        );
        let b = self.table[i];
        proof {
            crate::bits::lemma_mask_and(occupied.0, self.magic.mask.0);
            assert forall|kind: PieceType, s: int| self.serves(kind, s) implies b.0 == sliding(
                kind,
                s,
                occupied.0 & self.magic.mask.0,
            ) by {
                let masked = occupied.0 & self.magic.mask.0;
                assert(masked & self.magic.mask.0 == masked);
                assert(magic_hash(self.magic.magic, self.magic.mask.0, self.magic.shift, occupied.0)
                    == magic_hash(self.magic.magic, self.magic.mask.0, self.magic.shift, masked));
            }
            assert forall|kind: PieceType, s: int|
                crate::movegen::is_slider(kind) && 0 <= s < 64 && self.serves(kind, s) implies b.0
                == sliding(kind, s, occupied.0) by {
                crate::magic::lemma_mask_irrelevant(kind, s, occupied.0);
            }
        }
        b
    }
}

impl MagicPiece {
    /// The general piece kind this magic kind stands for.
    pub open spec fn ptype_spec(self) -> PieceType {
        match self {
            MagicPiece::Bishop => PieceType::Bishop,
            MagicPiece::Rook => PieceType::Rook,
        }
    }

    pub fn ptype(&self) -> (t: PieceType)
        ensures
            t == self.ptype_spec(),
    {
        match self {
            MagicPiece::Bishop => PieceType::Bishop,
            MagicPiece::Rook => PieceType::Rook,
        }
    }
}

} // verus!
