//! The precomputed context built once at startup: magic tables for both
//! sliding kinds plus fixed-offset pseudo-attack tables for every piece kind.

use vstd::prelude::*;

verus! {

use crate::bits::{bit64, lemma_mask_and};
use crate::magic::generate_magics;
use crate::movegen::{coord_on_board, sliding};
use crate::types::{Bitboard, MagicBitboard, MagicError, MagicPiece, PieceType, Square};

/// The bit of the square one `(df, dr)` step away from `s`, or no bit when
/// the step leaves the board.
pub open spec fn step_bit(s: int, df: int, dr: int) -> u64 {
    if coord_on_board(s % 8 + df, s / 8 + dr) {
        bit64((s / 8 + dr) * 8 + (s % 8 + df))
    } else {
        0u64
    }
}

/// The squares a knight on `s` attacks.
pub open spec fn knight_att(s: int) -> u64 {
    step_bit(s, -1, -2) | step_bit(s, 1, -2) | step_bit(s, -2, -1) | step_bit(s, 2, -1) | step_bit(
        s,
        -2,
        1,
    ) | step_bit(s, 2, 1) | step_bit(s, -1, 2) | step_bit(s, 1, 2)
}

/// The squares a king on `s` attacks.
pub open spec fn king_att(s: int) -> u64 {
    step_bit(s, -1, -1) | step_bit(s, 0, -1) | step_bit(s, 1, -1) | step_bit(s, -1, 0) | step_bit(
        s,
        1,
        0,
    ) | step_bit(s, -1, 1) | step_bit(s, 0, 1) | step_bit(s, 1, 1)
}

/// Per-square pseudo-attack tables, indexed by square: the attack set of each
/// piece kind on an otherwise empty board.
pub struct PseudoAttacks {
    pub knight: Vec<Bitboard>,
    pub bishop: Vec<Bitboard>,
    pub rook: Vec<Bitboard>,
    pub queen: Vec<Bitboard>,
    pub king: Vec<Bitboard>,
}

/// The full precomputed context: pseudo-attacks and both magic tables,
/// immutable once built and shared read-only by every lookup caller.
pub struct Pregen {
    pub attacks: PseudoAttacks,
    pub bishop_magics: MagicBitboard,
    pub rook_magics: MagicBitboard,
}

impl PseudoAttacks {
    /// Every table holds all 64 squares and each entry is the exact attack
    /// set of its piece kind from that square on an empty board.
    pub open spec fn wf(self) -> bool {
        &&& self.knight@.len() == 64
        &&& self.bishop@.len() == 64
        &&& self.rook@.len() == 64
        &&& self.queen@.len() == 64
        &&& self.king@.len() == 64
        &&& forall|s: int| 0 <= s < 64 ==> (#[trigger] self.knight@[s]).0 == knight_att(s)
        &&& forall|s: int| 0 <= s < 64 ==> (#[trigger] self.king@[s]).0 == king_att(s)
        &&& forall|s: int|
            0 <= s < 64 ==> (#[trigger] self.bishop@[s]).0 == sliding(PieceType::Bishop, s, 0)
        &&& forall|s: int|
            0 <= s < 64 ==> (#[trigger] self.rook@[s]).0 == sliding(PieceType::Rook, s, 0)
        &&& forall|s: int|
            0 <= s < 64 ==> (#[trigger] self.queen@[s]).0 == (sliding(PieceType::Bishop, s, 0)
                | sliding(PieceType::Rook, s, 0))
    }

    /// Five all-empty tables, one entry per square.
    pub fn new() -> (r: PseudoAttacks)
        ensures
            r.knight@.len() == 64,
            r.bishop@.len() == 64,
            r.rook@.len() == 64,
            r.queen@.len() == 64,
            r.king@.len() == 64,
    {
        let mut knight: Vec<Bitboard> = Vec::new();
        let mut bishop: Vec<Bitboard> = Vec::new();
        let mut rook: Vec<Bitboard> = Vec::new();
        let mut queen: Vec<Bitboard> = Vec::new();
        let mut king: Vec<Bitboard> = Vec::new();
        let mut k: usize = 0;
        while k < 64
            invariant
                k <= 64,
                knight@.len() == k,
                bishop@.len() == k,
                rook@.len() == k,
                queen@.len() == k,
                king@.len() == k,
            decreases 64 - k,
        {
            knight.push(Bitboard(0));
            bishop.push(Bitboard(0));
            rook.push(Bitboard(0));
            queen.push(Bitboard(0));
            king.push(Bitboard(0));
            k = k + 1;
        }
        PseudoAttacks { knight, bishop, rook, queen, king }
    }

    /// Fills every square's pseudo-attacks: knight and king from their fixed
    /// jump sets (each target gathers its jumps; the jump sets are symmetric,
    /// so this equals scattering from every source), sliders from an
    /// empty-occupancy magic lookup.
    #[verifier::loop_isolation(false)]
    pub fn init(bishop_magics: &MagicBitboard, rook_magics: &MagicBitboard) -> (r: PseudoAttacks)
        requires
            bishop_magics.wf_for(PieceType::Bishop),
            rook_magics.wf_for(PieceType::Rook),
        ensures
            r.wf(),
    {
        let mut attacks = PseudoAttacks::new();
        let mut sqi: usize = 0;
        while sqi < 64
            invariant
                sqi <= 64,
                attacks.knight@.len() == 64,
                attacks.bishop@.len() == 64,
                attacks.rook@.len() == 64,
                attacks.queen@.len() == 64,
                attacks.king@.len() == 64,
                forall|s: int| 0 <= s < sqi ==> (#[trigger] attacks.knight@[s]).0 == knight_att(s),
                forall|s: int| 0 <= s < sqi ==> (#[trigger] attacks.king@[s]).0 == king_att(s),
                forall|s: int|
                    0 <= s < sqi ==> (#[trigger] attacks.bishop@[s]).0 == sliding(
                        PieceType::Bishop,
                        s,
                        0,
                    ),
                forall|s: int|
                    0 <= s < sqi ==> (#[trigger] attacks.rook@[s]).0 == sliding(
                        PieceType::Rook,
                        s,
                        0,
                    ),
                forall|s: int|
                    0 <= s < sqi ==> (#[trigger] attacks.queen@[s]).0 == (sliding(
                        PieceType::Bishop,
                        s,
                        0,
                    ) | sliding(PieceType::Rook, s, 0)),
            decreases 64 - sqi,
        {
            let sq = Square(sqi as u8);
            let b = sqi as u8;
            let kn = step_bit_exec(b, -1, -2) | step_bit_exec(b, 1, -2) | step_bit_exec(b, -2, -1)
                | step_bit_exec(b, 2, -1) | step_bit_exec(b, -2, 1) | step_bit_exec(b, 2, 1)
                | step_bit_exec(b, -1, 2) | step_bit_exec(b, 1, 2);
            attacks.knight.set(sqi, Bitboard(kn));
            let kg = step_bit_exec(b, -1, -1) | step_bit_exec(b, 0, -1) | step_bit_exec(b, 1, -1)
                | step_bit_exec(b, -1, 0) | step_bit_exec(b, 1, 0) | step_bit_exec(b, -1, 1)
                | step_bit_exec(b, 0, 1) | step_bit_exec(b, 1, 1);
            attacks.king.set(sqi, Bitboard(kg));
            let bb = bishop_magics.lookup(sq, Bitboard(0));
            let rb = rook_magics.lookup(sq, Bitboard(0));
            proof {
                lemma_mask_and(0, bishop_magics.magics@[sqi as int].mask.0);
                lemma_mask_and(0, rook_magics.magics@[sqi as int].mask.0);
            }
            attacks.bishop.set(sqi, bb);
            attacks.rook.set(sqi, rb);
            attacks.queen.set(sqi, Bitboard(bb.0 | rb.0));
            sqi = sqi + 1;
        }
        attacks
    }
}

/// The bit of the square one step of `(df, dr)` away, or zero off the board.
fn step_bit_exec(sq: u8, df: i8, dr: i8) -> (b: u64)
    requires
        sq < 64,
        -2 <= df <= 2,
        -2 <= dr <= 2,
    ensures
        b == step_bit(sq as int, df as int, dr as int),
{
    let f = (sq % 8) as i8 + df;
    let r = (sq / 8) as i8 + dr;
    if f >= 0 && f <= 7 && r >= 0 && r <= 7 {
        1u64 << (((r as u8) * 8 + (f as u8)) as u64)
    } else {
        0
    }
}

impl Pregen {
    /// Both magic tables are sound for their kind and the pseudo-attacks are
    /// exact.
    pub open spec fn wf(self) -> bool {
        &&& self.attacks.wf()
        &&& self.bishop_magics.wf_for(PieceType::Bishop)
        &&& self.rook_magics.wf_for(PieceType::Rook)
    }

    /// Builds the whole precomputed context: the two magic tables, then the
    /// pseudo-attack tables derived from them.
    pub fn init() -> (res: Result<Pregen, MagicError>)
        ensures
            res matches Ok(p) ==> p.wf(),
            res matches Err(e) ==> e != MagicError::InvalidPieceKind,
    {
        let bishop = match generate_magics(&MagicPiece::Bishop) {
            Ok(mb) => mb,
            Err(e) => {
                return Err(e);
            },
        };
        let rook = match generate_magics(&MagicPiece::Rook) {
            Ok(mb) => mb,
            Err(e) => {
                return Err(e);
            },
        };
        let attacks = PseudoAttacks::init(&bishop, &rook);
        Ok(Pregen { attacks, bishop_magics: bishop, rook_magics: rook })
    }
}

} // verus!
