//! Magic bitboards: for each square, a multiplier ("magic") turns any
//! relevant blocker configuration into a dense table index. The finder
//! enumerates every subset of the square's relevant-occupancy mask with the
//! carry-rippler, records the oracle's ground-truth attack set for each, and
//! searches random sparse candidates until one hashes all subsets without a
//! real collision. The builder packs all 64 per-square tables into one shared
//! array behind running offsets.

use vstd::prelude::*;

verus! {

use crate::bits::{
    gather_bits,
    lemma_gather_full,
    lemma_gather_step,
    lemma_gather_zero,
    lemma_mask_and,
    lemma_rippler_least,
    lemma_rippler_step,
    lemma_two_pow_shift,
    next_subset,
    popcount,
    popcount_exec,
    two_pow,
};
use crate::movegen::{is_slider, sliding, sliding_attack};
use crate::types::bitboard::edges_spec;
use crate::types::magic::{rng_seed, table_span, Magic, MagicBitboard, MagicError, MagicPiece, SuperMagic};
use crate::types::{Bitboard, PieceType, Square};
use crate::util::PRNG;

/// How many candidate magics one square's search may try before giving up
/// with `MagicSearchExhausted`; candidates rejected by the sparseness filter
/// count too.
pub const MAX_ATTEMPTS: u64 = 100_000_000;

/// The dense index an occupancy hashes to: mask, multiply (wrapping), shift.
pub open spec fn magic_hash(magic: u64, mask: u64, shift: u8, occ: u64) -> u64 {
    ((occ & mask).wrapping_mul(magic)) >> (shift as u64)
}

/// The relevant-occupancy mask of a square: the squares whose occupancy can
/// change the attack set — the empty-board attack rays minus the board edges
/// a ray ends on anyway.
pub open spec fn mask_spec(kind: PieceType, s: int) -> u64 {
    sliding(kind, s, 0) & !edges_spec(s)
}

/// The slice of `table` starting at `offset` serves square `s` of piece kind
/// `kind`: the descriptor carries the true mask and matching shift, the slice
/// fits, and every occupancy that is a subset of the mask hashes inside the
/// slice to its ground-truth attack set.
pub open spec fn serves_square(
    kind: PieceType,
    s: int,
    mask: u64,
    magic: u64,
    shift: u8,
    table: Seq<Bitboard>,
    offset: int,
) -> bool {
    &&& mask == mask_spec(kind, s)
    &&& shift == 64 - popcount(mask)
    &&& 1 <= shift <= 63
    &&& offset >= 0
    &&& offset + table_span(shift) <= table.len()
    &&& forall|occ: u64|
        occ & mask == occ ==> table[offset + #[trigger] magic_hash(magic, mask, shift, occ)]
            == Bitboard(sliding(kind, s, occ))
}

/// Hashes an occupancy to its in-table index: `((occupied & mask) * magic) >>
/// shift`, the multiplication wrapping.
pub fn magic_index(magic: u64, mask: Bitboard, shift: u8, occupied: Bitboard) -> (i: usize)
    requires
        1 <= shift <= 63,
        table_span(shift) <= usize::MAX,
    ensures
        i == magic_hash(magic, mask.0, shift, occupied.0),
        i < table_span(shift),
{
    let blockers = occupied.0 & mask.0;
    let hash = blockers.wrapping_mul(magic);
    proof {
        crate::bits::lemma_shr_bound(hash, shift as u64);
    }
    (hash >> (shift as u64)) as usize
}

/// Finds a magic for one square: computes the relevant-occupancy mask,
/// enumerates all of its subsets with the carry-rippler, records the oracle's
/// attack set for each, then draws sparse candidates until one hashes every
/// subset without a real collision, reusing the table across attempts through
/// epoch stamps instead of clearing it. On success the returned table is
/// exact: every occupancy below the mask hashes to its ground-truth attacks.
#[verifier::loop_isolation(false)]
pub fn find_magic(piece: &MagicPiece, square: Square, rng: &mut PRNG) -> (res: Result<
    (Magic, Vec<Bitboard>),
    MagicError,
>)
    requires
        square.on_board(),
    ensures
        res matches Ok(p) ==> {
            &&& p.0.wf()
            &&& p.1@.len() == table_span(p.0.shift)
            &&& serves_square(
                piece.ptype_spec(),
                square.0 as int,
                p.0.mask.0,
                p.0.magic,
                p.0.shift,
                p.1@,
                0,
            )
        },
        res matches Err(e) ==> (e == MagicError::MagicSearchExhausted {
            square,
            piece: piece.ptype_spec(),
        } || e == MagicError::InvariantViolation),
{
    let kind = piece.ptype();
    let ghost s = square.0 as int;
    proof {
        assert(is_slider(kind));
    }
    let blockers = match sliding_attack(kind, square, Bitboard(0)) {
        Ok(b) => b,
        Err(_) => {
            proof {
                assert(false);
            }
            Bitboard(0)
        },
    };
    let mask: u64 = blockers.0 & !Bitboard::edges(square).0;
    proof {
        assert(mask == mask_spec(kind, s));
    }
    let index_bits: u32 = popcount_exec(mask);
    if index_bits == 0 || index_bits >= 64 {
        return Err(MagicError::InvariantViolation);
    }
    let shift: u8 = (64 - index_bits) as u8;
    let size64: u64 = 1u64 << (index_bits as u64);
    if size64 > (usize::MAX as u64) {
        return Err(MagicError::InvariantViolation);
    }
    let size: usize = size64 as usize;
    proof {
        assert(size == table_span(shift));
    }
    // The working attack table and the per-slot stamp of the attempt that
    // last wrote it.
    let mut table: Vec<Bitboard> = Vec::new();
    let mut epoch: Vec<u64> = Vec::new();
    let mut k: usize = 0;
    while k < size
        invariant
            k <= size,
            table@.len() == k,
            epoch@.len() == k,
            forall|j: int| 0 <= j < k ==> epoch@[j] == 0,
        decreases size - k,
    {
        table.push(Bitboard(0));
        epoch.push(0);
        k = k + 1;
    }
    // Enumerate every subset of the mask in carry-rippler order — strictly
    // increasing, so each loop records subsets completely up to the current
    // one — with the oracle's ground-truth attack set for each.
    let mut perms: Vec<(Bitboard, Bitboard)> = Vec::new();
    let mut subset: u64 = 0;
    let mut done = false;
    proof {
        lemma_mask_and(0, mask);
        lemma_gather_zero(mask);
    }
    while !done
        invariant
            subset & mask == subset,
            subset <= mask,
            !done ==> perms@.len() == gather_bits(subset, mask),
            done ==> perms@.len() == two_pow(popcount(mask)),
            forall|j: int|
                0 <= j < perms@.len() ==> ((#[trigger] perms@[j]).0.0 & mask == perms@[j].0.0
                    && perms@[j].1 == Bitboard(sliding(kind, s, perms@[j].0.0))),
            forall|t: u64|
                (#[trigger] (t & mask)) == t && t < subset ==> exists|j: int|
                    0 <= j < perms@.len() && (#[trigger] perms@[j]).0.0 == t,
            done ==> forall|t: u64|
                (#[trigger] (t & mask)) == t ==> exists|j: int|
                    0 <= j < perms@.len() && (#[trigger] perms@[j]).0.0 == t,
        decreases (mask - subset) * 2 + (if done {
            0int
        } else {
            1int
        }),
    {
        let att = match sliding_attack(kind, square, Bitboard(subset)) {
            Ok(b) => b,
            Err(_) => {
                proof {
                    assert(false);
                }
                Bitboard(0)
            },
        };
        let ghost perms0 = perms@;
        perms.push((Bitboard(subset), att));
        proof {
            assert(forall|j: int| 0 <= j < perms0.len() ==> perms@[j] == perms0[j]);
            assert(perms@[perms@.len() - 1].0.0 == subset);
        }
        if subset == mask {
            proof {
                lemma_gather_full(mask);
                assert forall|t: u64| (#[trigger] (t & mask)) == t implies exists|j: int|
                    0 <= j < perms@.len() && (#[trigger] perms@[j]).0.0 == t by {
                    lemma_mask_and(t, mask);
                    if t == mask {
                        assert(perms@[perms@.len() - 1].0.0 == t);
                    } else {
                        let j = choose|j: int| 0 <= j < perms0.len() && (#[trigger] perms0[j]).0.0
                            == t;
                        assert(perms@[j].0.0 == t);
                    }
                }
            }
            done = true;
        } else {
            let next = mask & subset.wrapping_sub(mask);
            proof {
                lemma_rippler_step(subset, mask);
                assert(next == next_subset(subset, mask));
                lemma_mask_and(next, mask);
                lemma_gather_step(subset, mask);
                assert forall|t: u64| (#[trigger] (t & mask)) == t && t < next implies exists|
                    j: int,
                |
                    0 <= j < perms@.len() && (#[trigger] perms@[j]).0.0 == t by {
                    if t == subset {
                        assert(perms@[perms@.len() - 1].0.0 == t);
                    } else if t > subset {
                        lemma_rippler_least(subset, mask, t);
                        assert(false);
                    } else {
                        let j = choose|j: int| 0 <= j < perms0.len() && (#[trigger] perms0[j]).0.0
                            == t;
                        assert(perms@[j].0.0 == t);
                    }
                }
            }
            subset = next;
        }
    }
    // The rippler cycle closes after exactly one entry per subset of the
    // mask, so the recorded pairs fill the table size exactly.
    proof {
        lemma_two_pow_shift(popcount(mask));
    }
    assert(perms.len() == size);
    // Search sparse candidates. A slot whose stamp is older than the current
    // attempt is free to claim; a slot claimed this attempt is a real
    // conflict unless it already holds the same attack set.
    let mut attempt_no: u64 = 0;
    let mut found = false;
    let mut magic_val: u64 = 0;
    while !found && attempt_no < MAX_ATTEMPTS
        invariant
            attempt_no <= MAX_ATTEMPTS,
            table@.len() == size,
            epoch@.len() == size,
            forall|j: int| 0 <= j < size ==> (#[trigger] epoch@[j]) <= attempt_no,
            found ==> forall|j: int|
                0 <= j < perms@.len() ==> table@[magic_hash(
                    magic_val,
                    mask,
                    shift,
                    (#[trigger] perms@[j]).0.0,
                ) as int] == perms@[j].1,
        decreases MAX_ATTEMPTS - attempt_no,
    {
        attempt_no = attempt_no + 1;
        let magic = rng.sparse();
        if popcount_exec(mask.wrapping_mul(magic) >> 56) < 6 {
            // The filter keeps only candidates whose product clusters set
            // bits in the top byte; scanning the rest is not worth it.
            continue ;
        }
        let mut ok = true;
        let mut i: usize = 0;
        while i < size
            invariant
                i <= size,
                table@.len() == size,
                epoch@.len() == size,
                forall|j: int| 0 <= j < size ==> (#[trigger] epoch@[j]) <= attempt_no,
                ok ==> forall|j: int|
                    0 <= j < i ==> {
                        let h = magic_hash(magic, mask, shift, (#[trigger] perms@[j]).0.0) as int;
                        0 <= h < size && epoch@[h] == attempt_no && table@[h] == perms@[j].1
                    },
            decreases size - i,
        {
            let pair = perms[i];
            let idx = magic_index(magic, Bitboard(mask), shift, pair.0);
            proof {
                lemma_mask_and(pair.0.0, mask);
            }
            let ghost epoch0 = epoch@;
            if epoch[idx] < attempt_no {
                epoch.set(idx, attempt_no);
                table.set(idx, pair.1);
                proof {
                    if ok {
                        assert forall|j: int| 0 <= j < i + 1 implies {
                            let h = magic_hash(
                                magic,
                                mask,
                                shift,
                                (#[trigger] perms@[j]).0.0,
                            ) as int;
                            0 <= h < size && epoch@[h] == attempt_no && table@[h] == perms@[j].1
                        } by {
                            let h = magic_hash(magic, mask, shift, perms@[j].0.0) as int;
                            if j < i {
                                assert(epoch0[h] == attempt_no);
                                assert(h != idx);
                            } else {
                                assert(h == idx);
                            }
                        }
                    }
                }
            } else if table[idx].0 != pair.1.0 {
                ok = false;
            } else {
                proof {
                    if ok {
                        assert(table@[idx as int].0 == pair.1.0);
                        assert(table@[idx as int] == Bitboard(table@[idx as int].0));
                        assert forall|j: int| 0 <= j < i + 1 implies {
                            let h = magic_hash(
                                magic,
                                mask,
                                shift,
                                (#[trigger] perms@[j]).0.0,
                            ) as int;
                            0 <= h < size && epoch@[h] == attempt_no && table@[h] == perms@[j].1
                        } by {
                            let h = magic_hash(magic, mask, shift, perms@[j].0.0) as int;
                            if j == i {
                                assert(h == idx);
                                assert(epoch@[h] <= attempt_no && !(epoch@[h] < attempt_no));
                                assert(perms@[j].1 == Bitboard(sliding(kind, s, perms@[j].0.0)));
                                assert(table@[h] == perms@[j].1);
                            }
                        }
                    }
                }
            }
            i = i + 1;
        }
        if ok {
            found = true;
            magic_val = magic;
        }
    }
    if !found {
        return Err(MagicError::MagicSearchExhausted { square, piece: kind });
    }
    let m = Magic { mask: Bitboard(mask), magic: magic_val, shift };
    proof {
        assert forall|occ: u64| occ & mask == occ implies table@[0 + #[trigger] magic_hash(
            magic_val,
            mask,
            shift,
            occ,
        )] == Bitboard(sliding(kind, s, occ)) by {
            let j = choose|j: int| 0 <= j < perms@.len() && (#[trigger] perms@[j]).0.0 == occ;
            assert(perms@[j].0.0 == occ);
            assert(table@[magic_hash(magic_val, mask, shift, perms@[j].0.0) as int]
                == perms@[j].1);
        }
        assert(serves_square(kind, s, mask, magic_val, shift, table@, 0));
    }
    Ok((m, table))
}

/// A square slice that serves keeps serving when the shared table grows on
/// the right.
pub proof fn lemma_serves_extend(
    kind: PieceType,
    s: int,
    mask: u64,
    magic: u64,
    shift: u8,
    t1: Seq<Bitboard>,
    t2: Seq<Bitboard>,
    off: int,
)
    requires
        serves_square(kind, s, mask, magic, shift, t1, off),
        t1.len() <= t2.len(),
        forall|i: int| 0 <= i < t1.len() ==> t1[i] == (#[trigger] t2[i]),
    ensures
        serves_square(kind, s, mask, magic, shift, t2, off),
{
    assert forall|occ: u64| occ & mask == occ implies t2[off + #[trigger] magic_hash(
        magic,
        mask,
        shift,
        occ,
    )] == Bitboard(sliding(kind, s, occ)) by {
        crate::bits::lemma_shr_bound((occ & mask).wrapping_mul(magic), shift as u64);
        let h = magic_hash(magic, mask, shift, occ) as int;
        assert(0 <= off + h < t1.len());
        assert(t2[off + h] == t1[off + h]);
    }
}

/// A table that serves a square on its own, placed whole at `off` inside a
/// larger table, serves the square there.
pub proof fn lemma_serves_shift(
    kind: PieceType,
    s: int,
    mask: u64,
    magic: u64,
    shift: u8,
    t1: Seq<Bitboard>,
    t2: Seq<Bitboard>,
    off: int,
)
    requires
        serves_square(kind, s, mask, magic, shift, t1, 0),
        0 <= off,
        off + t1.len() <= t2.len(),
        forall|i: int| 0 <= i < t1.len() ==> (#[trigger] t2[off + i]) == t1[i],
    ensures
        serves_square(kind, s, mask, magic, shift, t2, off),
{
    assert forall|occ: u64| occ & mask == occ implies t2[off + #[trigger] magic_hash(
        magic,
        mask,
        shift,
        occ,
    )] == Bitboard(sliding(kind, s, occ)) by {
        crate::bits::lemma_shr_bound((occ & mask).wrapping_mul(magic), shift as u64);
        let h = magic_hash(magic, mask, shift, occ) as int;
        assert(0 <= h < t1.len());
        assert(t2[off + h] == t1[h]);
    }
}

/// Builds the packed magic tables for one piece kind: runs the finder on all
/// 64 squares in index order, each with a fresh generator seeded by the fixed
/// per-rank seed, and concatenates the per-square tables behind a running
/// offset, so the offsets partition the shared table exactly.
#[verifier::loop_isolation(false)]
pub fn generate_magics(piece: &MagicPiece) -> (res: Result<MagicBitboard, MagicError>)
    ensures
        res matches Ok(mb) ==> mb.wf_for(piece.ptype_spec()),
        res matches Err(e) ==> (e matches MagicError::MagicSearchExhausted { square, piece: k }
            ==> k == piece.ptype_spec()) && (e != MagicError::InvalidPieceKind),
{
    let ghost kind = piece.ptype_spec();
    let mut super_table: Vec<Bitboard> = Vec::new();
    let mut magics: Vec<SuperMagic> = Vec::new();
    let mut offset: usize = 0;
    let mut sqi: usize = 0;
    while sqi < 64
        invariant
            sqi <= 64,
            magics@.len() == sqi,
            offset == super_table@.len(),
            forall|t: int|
                0 <= t < sqi ==> serves_square(
                    kind,
                    t,
                    (#[trigger] magics@[t]).mask.0,
                    magics@[t].magic,
                    magics@[t].shift,
                    super_table@,
                    magics@[t].offset as int,
                ),
            sqi == 0 ==> offset == 0,
            sqi > 0 ==> magics@[0].offset == 0,
            forall|t: int|
                0 <= t < sqi - 1 ==> (#[trigger] magics@[t + 1]).offset == magics@[t].offset
                    + table_span(magics@[t].shift),
            sqi > 0 ==> super_table@.len() == magics@[sqi - 1].offset + table_span(
                magics@[sqi - 1].shift,
            ),
            forall|t: int|
                0 <= t < sqi ==> (1 <= (#[trigger] magics@[t]).shift <= 63 && magics@[t].offset
                    + table_span(magics@[t].shift) <= super_table@.len()),
        decreases 64 - sqi,
    {
        let sq = Square(sqi as u8);
        let mut rng = PRNG::new(rng_seed(sqi / 8));
        let pair = match find_magic(piece, sq, &mut rng) {
            Ok(p) => p,
            Err(e) => {
                return Err(e);
            },
        };
        let m = pair.0;
        let mut tbl = pair.1;
        let tlen = tbl.len();
        let new_offset = match offset.checked_add(tlen) {
            Some(o) => o,
            None => {
                return Err(MagicError::InvariantViolation);
            },
        };
        magics.push(SuperMagic::new(m.mask, m.magic, m.shift, offset));
        let ghost magics0 = magics@;
        let ghost table0 = super_table@;
        let ghost tbl0 = tbl@;
        super_table.append(&mut tbl);
        proof {
            assert(super_table@ == table0 + tbl0);
            assert forall|t: int| 0 <= t < sqi + 1 implies serves_square(
                kind,
                t,
                (#[trigger] magics@[t]).mask.0,
                magics@[t].magic,
                magics@[t].shift,
                super_table@,
                magics@[t].offset as int,
            ) by {
                if t < sqi {
                    lemma_serves_extend(
                        kind,
                        t,
                        magics@[t].mask.0,
                        magics@[t].magic,
                        magics@[t].shift,
                        table0,
                        super_table@,
                        magics@[t].offset as int,
                    );
                } else {
                    assert(magics@[t].offset == offset);
                    assert(serves_square(kind, t, m.mask.0, m.magic, m.shift, tbl0, 0));
                    assert forall|i: int| 0 <= i < tbl0.len() implies (#[trigger] super_table@[
                        offset + i
                    ]) == tbl0[i] by {
                        assert(super_table@[offset + i] == tbl0[i]);
                    }
                    lemma_serves_shift(
                        kind,
                        t,
                        m.mask.0,
                        m.magic,
                        m.shift,
                        tbl0,
                        super_table@,
                        offset as int,
                    );
                }
            }
        }
        offset = new_offset;
        sqi = sqi + 1;
    }
    let mb = MagicBitboard::new(magics, super_table);
    Ok(mb)
}

/// Ground-truth equivalence: on tables serving a piece kind, any occupancy
/// that is a subset of a square's relevant mask hashes, at that square's
/// offset, to exactly the oracle's brute-force attack set — for every square
/// and every such subset, not a sample.
pub proof fn lemma_ground_truth(mb: MagicBitboard, kind: PieceType, s: int, occ: u64)
    requires
        mb.wf_for(kind),
        0 <= s < 64,
        occ & mb.magics@[s].mask.0 == occ,
    ensures
        mb.table@[mb.magics@[s].offset + magic_hash(
            mb.magics@[s].magic,
            mb.magics@[s].mask.0,
            mb.magics@[s].shift,
            occ,
        )] == Bitboard(sliding(kind, s, occ)),
{
    assert(serves_square(
        kind,
        s,
        mb.magics@[s].mask.0,
        mb.magics@[s].magic,
        mb.magics@[s].shift,
        mb.table@,
        mb.magics@[s].offset as int,
    ));
}

/// The mask/shift invariant: on a serving table, every square's shift is
/// exactly 64 minus the popcount of its mask.
pub proof fn lemma_mask_shift_invariant(mb: MagicBitboard, kind: PieceType, s: int)
    requires
        mb.wf_for(kind),
        0 <= s < 64,
    ensures
        mb.magics@[s].shift == 64 - popcount(mb.magics@[s].mask.0),
        mb.magics@[s].mask.0 == mask_spec(kind, s),
{
    assert(serves_square(
        kind,
        s,
        mb.magics@[s].mask.0,
        mb.magics@[s].magic,
        mb.magics@[s].shift,
        mb.table@,
        mb.magics@[s].offset as int,
    ));
}

/// Edge exclusion: a square's relevant-occupancy mask never holds any of the
/// square's edge squares — in particular, a corner rook's mask excludes the
/// two far board edges its rays run to.
pub proof fn lemma_edge_exclusion(kind: PieceType, s: int)
    requires
        0 <= s < 64,
    ensures
        mask_spec(kind, s) & edges_spec(s) == 0,
{
    lemma_mask_and(sliding(kind, s, 0), edges_spec(s));
}

/// Offsets from `s1` to `s2` only grow along the running-sum chain.
proof fn lemma_offsets_mono(mb: MagicBitboard, kind: PieceType, s1: int, s2: int)
    requires
        mb.wf_for(kind),
        0 <= s1 < s2 < 64,
    ensures
        mb.magics@[s1].offset + table_span(mb.magics@[s1].shift) <= mb.magics@[s2].offset,
    decreases s2 - s1,
{
    if s2 == s1 + 1 {
        assert(mb.magics@[s1 + 1].offset == mb.magics@[s1].offset + table_span(
            mb.magics@[s1].shift,
        ));
    } else {
        lemma_offsets_mono(mb, kind, s1, s2 - 1);
        assert(mb.magics@[(s2 - 1) + 1].offset == mb.magics@[s2 - 1].offset + table_span(
            mb.magics@[s2 - 1].shift,
        ));
        assert(mb.magics@[s2] == mb.magics@[(s2 - 1) + 1]);
    }
}

/// Any index below the end of square `s`'s successors lies in some square's
/// range at or after `s`.
proof fn lemma_partition_cover(mb: MagicBitboard, kind: PieceType, i: int, s: int)
    requires
        mb.wf_for(kind),
        0 <= s < 64,
        mb.magics@[s].offset <= i < mb.table@.len(),
    ensures
        exists|t: int|
            s <= t < 64 && (#[trigger] mb.magics@[t]).offset <= i < mb.magics@[t].offset
                + table_span(mb.magics@[t].shift),
    decreases 64 - s,
{
    if i < mb.magics@[s].offset + table_span(mb.magics@[s].shift) {
        assert(mb.magics@[s].offset <= i < mb.magics@[s].offset + table_span(
            mb.magics@[s].shift,
        ));
    } else {
        assert(s < 63) by {
            if s == 63 {
                assert(mb.table@.len() == mb.magics@[63].offset + table_span(
                    mb.magics@[63].shift,
                ));
            }
        }
        assert(mb.magics@[s + 1].offset == mb.magics@[s].offset + table_span(
            mb.magics@[s].shift,
        ));
        lemma_partition_cover(mb, kind, i, s + 1);
    }
}

/// Offset partition: on a serving table, the first square starts at zero,
/// each square starts where the one before it ends, every range lies inside
/// the shared array, ranges of distinct squares never overlap, and together
/// they cover every index of the array — no gaps, no overlaps.
pub proof fn lemma_offset_partition(mb: MagicBitboard, kind: PieceType)
    requires
        mb.wf_for(kind),
    ensures
        mb.magics@[0].offset == 0,
        forall|s: int|
            0 <= s < 63 ==> (#[trigger] mb.magics@[s + 1]).offset == mb.magics@[s].offset
                + table_span(mb.magics@[s].shift),
        forall|s: int|
            0 <= s < 64 ==> (#[trigger] mb.magics@[s]).offset + table_span(mb.magics@[s].shift)
                <= mb.table@.len(),
        forall|s1: int, s2: int|
            0 <= s1 < s2 < 64 ==> (#[trigger] mb.magics@[s1]).offset + table_span(
                mb.magics@[s1].shift,
            ) <= (#[trigger] mb.magics@[s2]).offset,
{
    assert forall|s1: int, s2: int| 0 <= s1 < s2 < 64 implies (#[trigger] mb.magics@[s1]).offset
        + table_span(mb.magics@[s1].shift) <= (#[trigger] mb.magics@[s2]).offset by {
        lemma_offsets_mono(mb, kind, s1, s2);
    }
}

/// No gaps: every index of the shared array lies inside some square's range,
/// which with `lemma_offset_partition` makes the 64 ranges an exact partition
/// of the array.
pub proof fn lemma_partition_covers_index(mb: MagicBitboard, kind: PieceType, i: int)
    requires
        mb.wf_for(kind),
        0 <= i < mb.table@.len(),
    ensures
        exists|t: int|
            0 <= t < 64 && (#[trigger] mb.magics@[t]).offset <= i < mb.magics@[t].offset
                + table_span(mb.magics@[t].shift),
{
    lemma_partition_cover(mb, kind, i, 0);
}

/// The squares `1` through `k` steps along `(df, dr)` from `(f, r)` all lie
/// on the board.
pub open spec fn path_on_board(f: int, r: int, df: int, dr: int, k: int) -> bool
    decreases k,
{
    if k <= 0 {
        true
    } else {
        crate::movegen::coord_on_board(f + df, r + dr) && path_on_board(f + df, r + dr, df, dr, k - 1)
    }
}

/// A path stays a path when one more on-board step is appended.
proof fn lemma_path_extend(f: int, r: int, df: int, dr: int, k: int)
    requires
        k >= 0,
        path_on_board(f, r, df, dr, k),
        crate::movegen::coord_on_board(f + (k + 1) * df, r + (k + 1) * dr),
    ensures
        path_on_board(f, r, df, dr, k + 1),
    decreases k,
{
    if k > 0 {
        assert((f + df) + k * df == f + (k + 1) * df) by (nonlinear_arith);
        assert((r + dr) + k * dr == r + (k + 1) * dr) by (nonlinear_arith);
        lemma_path_extend(f + df, r + dr, df, dr, k - 1);
    } else {
        assert((k + 1) * df == df) by (nonlinear_arith)
            requires
                k == 0,
        ;
        assert((k + 1) * dr == dr) by (nonlinear_arith)
            requires
                k == 0,
        ;
        assert(path_on_board(f + df, r + dr, df, dr, 0));
    }
}

/// On an empty board a ray reaches every square of its on-board path: the
/// `k`-step destination is in the ray's attack set.
proof fn lemma_ray_contains(f: int, r: int, df: int, dr: int, k: int, fuel: nat)
    requires
        1 <= k <= fuel,
        path_on_board(f, r, df, dr, k),
    ensures
        ({
            let q = crate::bits::bit64((r + k * dr) * 8 + (f + k * df));
            q & crate::movegen::ray_att(f, r, df, dr, 0, fuel) == q
        }),
    decreases k,
{
    let nf = f + df;
    let nr = r + dr;
    let b = crate::bits::bit64(nr * 8 + nf);
    lemma_mask_and(0, b);
    if k == 1 {
        assert(k * df == df) by (nonlinear_arith)
            requires
                k == 1,
        ;
        assert(k * dr == dr) by (nonlinear_arith)
            requires
                k == 1,
        ;
        assert(crate::bits::bit64((r + k * dr) * 8 + (f + k * df)) == b);
        crate::bits::lemma_or_subset(
            b,
            crate::movegen::ray_att(nf, nr, df, dr, 0, (fuel - 1) as nat),
            b,
            0,
        );
    } else {
        assert((f + df) + (k - 1) * df == f + k * df) by (nonlinear_arith);
        assert((r + dr) + (k - 1) * dr == r + k * dr) by (nonlinear_arith);
        lemma_ray_contains(nf, nr, df, dr, k - 1, (fuel - 1) as nat);
        let q = crate::bits::bit64((r + k * dr) * 8 + (f + k * df));
        crate::bits::lemma_or_subset(
            b,
            crate::movegen::ray_att(nf, nr, df, dr, 0, (fuel - 1) as nat),
            q,
            0,
        );
    }
}

/// Total ground truth: on serving tables, looking up any occupancy at all —
/// not only subsets of the mask — returns the oracle's attack set for that
/// occupancy, because blockers outside the mask never matter.
pub proof fn lemma_ground_truth_total(mb: MagicBitboard, kind: PieceType, s: int, occ: u64)
    requires
        mb.wf_for(kind),
        is_slider(kind),
        0 <= s < 64,
    ensures
        mb.table@[mb.magics@[s].offset + magic_hash(
            mb.magics@[s].magic,
            mb.magics@[s].mask.0,
            mb.magics@[s].shift,
            occ,
        )] == Bitboard(sliding(kind, s, occ)),
{
    let mask = mb.magics@[s].mask.0;
    lemma_mask_and(occ, mask);
    lemma_ground_truth(mb, kind, s, occ & mask);
    lemma_mask_shift_invariant(mb, kind, s);
    lemma_mask_irrelevant(kind, s, occ);
    assert(magic_hash(mb.magics@[s].magic, mask, mb.magics@[s].shift, occ) == magic_hash(
        mb.magics@[s].magic,
        mask,
        mb.magics@[s].shift,
        occ & mask,
    ));
}

/// Walking a ray under `occ & mask_spec` is the same walk as under `occ`: the
/// mask holds every interior square of the ray, and a blocker on the ray's
/// final edge square cannot change where the walk stops.
proof fn lemma_ray_irrelevant(
    kind: PieceType,
    s: int,
    df: int,
    dr: int,
    occ: u64,
    k: int,
    fuel: nat,
)
    requires
        is_slider(kind),
        0 <= s < 64,
        -1 <= df <= 1,
        -1 <= dr <= 1,
        !(df == 0 && dr == 0),
        0 <= k,
        k + fuel == 7,
        path_on_board(s % 8, s / 8, df, dr, k),
        crate::movegen::ray_att(s % 8, s / 8, df, dr, 0, 7) & sliding(kind, s, 0)
            == crate::movegen::ray_att(s % 8, s / 8, df, dr, 0, 7),
    ensures
        crate::movegen::ray_att(
            s % 8 + k * df,
            s / 8 + k * dr,
            df,
            dr,
            occ & mask_spec(kind, s),
            fuel,
        ) == crate::movegen::ray_att(s % 8 + k * df, s / 8 + k * dr, df, dr, occ, fuel),
    decreases fuel,
{
    let f0 = s % 8;
    let r0 = s / 8;
    let f = f0 + k * df;
    let r = r0 + k * dr;
    let m = mask_spec(kind, s);
    if fuel > 0 {
        let nf = f + df;
        let nr = r + dr;
        assert(f0 + (k + 1) * df == nf) by (nonlinear_arith)
            requires
                nf == (f0 + k * df) + df,
        ;
        assert(r0 + (k + 1) * dr == nr) by (nonlinear_arith)
            requires
                nr == (r0 + k * dr) + dr,
        ;
        if crate::movegen::coord_on_board(nf, nr) {
            lemma_path_extend(f0, r0, df, dr, k);
            let q = nr * 8 + nf;
            let b = crate::bits::bit64(q);
            if crate::movegen::coord_on_board(nf + df, nr + dr) {
                // An interior square: it lies on the empty-board ray and off
                // the edge set, so it lies in the mask, and both occupancies
                // agree on it.
                lemma_ray_contains(f0, r0, df, dr, k + 1, 7);
                let full_ray = crate::movegen::ray_att(f0, r0, df, dr, 0, 7);
                assert(b & full_ray == b);
                crate::bits::lemma_or_subset(full_ray, 0, b, sliding(kind, s, 0));
                assert(b & sliding(kind, s, 0) == b);
                assert(q % 8 == nf && q / 8 == nr) by (nonlinear_arith)
                    requires
                        q == nr * 8 + nf,
                        0 <= nf < 8,
                        0 <= nr < 8,
                ;
                let sf = (s % 8) as u64;
                let sr = (s / 8) as u64;
                assert(df == 0 ==> nf == f0);
                assert(dr == 0 ==> nr == r0);
                crate::types::bitboard::lemma_bit_outside_edges(q as u64, sf, sr);
                assert(crate::types::bitboard::file_mask(s % 8) == crate::types::bitboard::FILE_A
                    << sf);
                assert((8 * (s / 8)) as u64 == 8 * sr);
                assert(crate::types::bitboard::rank_mask(s / 8) == crate::types::bitboard::RANK_1
                    << (8 * sr));
                assert(b & edges_spec(s) == 0);
                crate::bits::lemma_or_subset(sliding(kind, s, 0), edges_spec(s), b, occ);
                assert(b & m == b);
                crate::bits::lemma_or_subset(m, 0, b, occ);
                assert((occ & m) & b == occ & b);
                lemma_ray_irrelevant(kind, s, df, dr, occ, k + 1, (fuel - 1) as nat);
            } else {
                // The ray's last square: the walk stops here whatever the
                // occupancy says about it.
                assert(crate::movegen::ray_att(nf, nr, df, dr, occ & m, (fuel - 1) as nat) == 0);
                assert(crate::movegen::ray_att(nf, nr, df, dr, occ, (fuel - 1) as nat) == 0);
                crate::bits::lemma_or_basics(b, 0, 0);
            }
        }
    }
}

/// Only the mask matters: blockers outside a square's relevant-occupancy mask
/// never change a sliding piece's attack set — the mask holds exactly the
/// squares whose occupancy can matter.
pub proof fn lemma_mask_irrelevant(kind: PieceType, s: int, occ: u64)
    requires
        is_slider(kind),
        0 <= s < 64,
    ensures
        sliding(kind, s, occ & mask_spec(kind, s)) == sliding(kind, s, occ),
{
    let f0 = s % 8;
    let r0 = s / 8;
    let e = sliding(kind, s, 0);
    if kind == PieceType::Rook {
        let a1 = crate::movegen::ray_att(f0, r0, 0, 1, 0, 7);
        let a2 = crate::movegen::ray_att(f0, r0, 1, 0, 0, 7);
        let a3 = crate::movegen::ray_att(f0, r0, 0, -1, 0, 7);
        let a4 = crate::movegen::ray_att(f0, r0, -1, 0, 0, 7);
        crate::bits::lemma_or_subset(a1, a2, a1, 0);
        crate::bits::lemma_or_subset(a1, a2, a2, 0);
        crate::bits::lemma_or_subset(a1 | a2, a3, a1, 0);
        crate::bits::lemma_or_subset(a1 | a2, a3, a2, 0);
        crate::bits::lemma_or_subset(a1 | a2, a3, a3, 0);
        crate::bits::lemma_or_subset((a1 | a2) | a3, a4, a1, 0);
        crate::bits::lemma_or_subset((a1 | a2) | a3, a4, a2, 0);
        crate::bits::lemma_or_subset((a1 | a2) | a3, a4, a3, 0);
        crate::bits::lemma_or_subset((a1 | a2) | a3, a4, a4, 0);
        lemma_dir_irrelevant(kind, s, 0, 1, occ);
        lemma_dir_irrelevant(kind, s, 1, 0, occ);
        lemma_dir_irrelevant(kind, s, 0, -1, occ);
        lemma_dir_irrelevant(kind, s, -1, 0, occ);
    } else {
        let a1 = crate::movegen::ray_att(f0, r0, 1, 1, 0, 7);
        let a2 = crate::movegen::ray_att(f0, r0, -1, 1, 0, 7);
        let a3 = crate::movegen::ray_att(f0, r0, 1, -1, 0, 7);
        let a4 = crate::movegen::ray_att(f0, r0, -1, -1, 0, 7);
        crate::bits::lemma_or_subset(a1, a2, a1, 0);
        crate::bits::lemma_or_subset(a1, a2, a2, 0);
        crate::bits::lemma_or_subset(a1 | a2, a3, a1, 0);
        crate::bits::lemma_or_subset(a1 | a2, a3, a2, 0);
        crate::bits::lemma_or_subset(a1 | a2, a3, a3, 0);
        crate::bits::lemma_or_subset((a1 | a2) | a3, a4, a1, 0);
        crate::bits::lemma_or_subset((a1 | a2) | a3, a4, a2, 0);
        crate::bits::lemma_or_subset((a1 | a2) | a3, a4, a3, 0);
        crate::bits::lemma_or_subset((a1 | a2) | a3, a4, a4, 0);
        lemma_dir_irrelevant(kind, s, 1, 1, occ);
        lemma_dir_irrelevant(kind, s, -1, 1, occ);
        lemma_dir_irrelevant(kind, s, 1, -1, occ);
        lemma_dir_irrelevant(kind, s, -1, -1, occ);
    }
}

/// One direction of `lemma_mask_irrelevant`: start the ray induction at the
/// origin.
proof fn lemma_dir_irrelevant(kind: PieceType, s: int, df: int, dr: int, occ: u64)
    requires
        is_slider(kind),
        0 <= s < 64,
        -1 <= df <= 1,
        -1 <= dr <= 1,
        !(df == 0 && dr == 0),
        crate::movegen::ray_att(s % 8, s / 8, df, dr, 0, 7) & sliding(kind, s, 0)
            == crate::movegen::ray_att(s % 8, s / 8, df, dr, 0, 7),
    ensures
        crate::movegen::ray_att(s % 8, s / 8, df, dr, occ & mask_spec(kind, s), 7)
            == crate::movegen::ray_att(s % 8, s / 8, df, dr, occ, 7),
{
    assert(path_on_board(s % 8, s / 8, df, dr, 0));
    assert(s % 8 + 0 * df == s % 8) by (nonlinear_arith);
    assert(s / 8 + 0 * dr == s / 8) by (nonlinear_arith);
    lemma_ray_irrelevant(kind, s, df, dr, occ, 0, 7);
}

} // verus!
