//! The sliding-attack oracle — the ground truth the magic tables are built
//! from and checked against — and the move generators that consume the
//! precomputed tables.

use vstd::prelude::*;

verus! {

use crate::bits::{bit64, sq_seq};
use crate::magic::mask_spec;
use crate::pregen::{king_att, knight_att, Pregen};
use crate::types::piece::{piece_type_index, type_of_piece};
use crate::types::{
    color_index,
    Bitboard,
    Board,
    Color,
    Direction,
    Move,
    MoveType,
    Piece,
    PieceType,
    Square,
};
use crate::types::magic::MagicError;

/// Whether a file/rank pair lies on the board.
pub open spec fn coord_on_board(f: int, r: int) -> bool {
    0 <= f < 8 && 0 <= r < 8
}

/// The squares a ray from file `f`, rank `r` in direction `(df, dr)` attacks
/// under occupancy `occ`: each step's destination is attacked, and the ray
/// stops at the board edge or just after the first occupied square.
pub open spec fn ray_att(f: int, r: int, df: int, dr: int, occ: u64, fuel: nat) -> u64
    decreases fuel,
{
    if fuel == 0 {
        0u64
    } else {
        let nf = f + df;
        let nr = r + dr;
        if !coord_on_board(nf, nr) {
            0u64
        } else {
            let b = bit64(nr * 8 + nf);
            if occ & b != 0 {
                b
            } else {
                b | ray_att(nf, nr, df, dr, occ, (fuel - 1) as nat)
            }
        }
    }
}

/// How many steps fit along one axis before leaving the board.
pub open spec fn axis_room(x: int, d: int) -> int {
    if d > 0 {
        7 - x
    } else if d < 0 {
        x
    } else {
        7
    }
}

/// How many steps a ray from `(f, r)` in direction `(df, dr)` can take before
/// leaving the board; fuel of at least this much makes `ray_att` exact.
pub open spec fn ray_room(f: int, r: int, df: int, dr: int) -> int {
    if axis_room(f, df) <= axis_room(r, dr) {
        axis_room(f, df)
    } else {
        axis_room(r, dr)
    }
}

/// The rook attack set from square `s` under occupancy `occ`: the four
/// orthogonal rays.
pub open spec fn rook_att(s: int, occ: u64) -> u64 {
    ray_att(s % 8, s / 8, 0, 1, occ, 7) | ray_att(s % 8, s / 8, 1, 0, occ, 7) | ray_att(
        s % 8,
        s / 8,
        0,
        -1,
        occ,
        7,
    ) | ray_att(s % 8, s / 8, -1, 0, occ, 7)
}

/// The bishop attack set from square `s` under occupancy `occ`: the four
/// diagonal rays.
pub open spec fn bishop_att(s: int, occ: u64) -> u64 {
    ray_att(s % 8, s / 8, 1, 1, occ, 7) | ray_att(s % 8, s / 8, -1, 1, occ, 7) | ray_att(
        s % 8,
        s / 8,
        1,
        -1,
        occ,
        7,
    ) | ray_att(s % 8, s / 8, -1, -1, occ, 7)
}

/// The piece kinds the sliding oracle is defined for.
pub open spec fn is_slider(kind: PieceType) -> bool {
    kind == PieceType::Rook || kind == PieceType::Bishop
}

/// The attack set of a sliding piece of kind `kind` on square `s` under
/// occupancy `occ`.
pub open spec fn sliding(kind: PieceType, s: int, occ: u64) -> u64 {
    match kind {
        PieceType::Rook => rook_att(s, occ),
        PieceType::Bishop => bishop_att(s, occ),
        _ => 0u64,
    }
}

/// Walks one ray and accumulates the attacked squares.
fn ray_walk(f0: u8, r0: u8, df: i8, dr: i8, occ: u64) -> (a: u64)
    requires
        f0 < 8,
        r0 < 8,
        -1 <= df <= 1,
        -1 <= dr <= 1,
        !(df == 0 && dr == 0),
    ensures
        a == ray_att(f0 as int, r0 as int, df as int, dr as int, occ, 7),
{
    let mut f: i8 = f0 as i8;
    let mut r: i8 = r0 as i8;
    let mut acc: u64 = 0;
    let ghost target = ray_att(f0 as int, r0 as int, df as int, dr as int, occ, 7);
    let ghost mut fuel: nat = 7;
    proof {
        crate::bits::lemma_or_basics(target, 0, 0);
    }
    loop
        invariant
            -1 <= df <= 1,
            -1 <= dr <= 1,
            !(df == 0 && dr == 0),
            0 <= f < 8,
            0 <= r < 8,
            fuel >= ray_room(f as int, r as int, df as int, dr as int),
            target == ray_att(f0 as int, r0 as int, df as int, dr as int, occ, 7),
            (acc | ray_att(f as int, r as int, df as int, dr as int, occ, fuel)) == target,
        decreases fuel,
    {
        let nf = f + df;
        let nr = r + dr;
        if nf < 0 || nf > 7 || nr < 0 || nr > 7 {
            proof {
                assert(ray_att(f as int, r as int, df as int, dr as int, occ, fuel) == 0);
                crate::bits::lemma_or_basics(acc, 0, 0);
            }
            return acc;
        }
        proof {
            assert(axis_room(f as int, df as int) >= 1);
            assert(axis_room(r as int, dr as int) >= 1);
            assert(fuel >= 1);
        }
        let b = 1u64 << (((nr as u8) * 8 + (nf as u8)) as u64);
        proof {
            assert(b == bit64((nr as int) * 8 + (nf as int)));
            assert(ray_att(f as int, r as int, df as int, dr as int, occ, fuel) == (if occ & b
                != 0 {
                b
            } else {
                b | ray_att(nf as int, nr as int, df as int, dr as int, occ, (fuel - 1) as nat)
            }));
        }
        f = nf;
        r = nr;
        proof {
            crate::bits::lemma_or_basics(
                acc,
                b,
                ray_att(f as int, r as int, df as int, dr as int, occ, (fuel - 1) as nat),
            );
        }
        acc = acc | b;
        if occ & b != 0 {
            return acc;
        }
        proof {
            fuel = (fuel - 1) as nat;
        }
    }
}

/// The sliding-attack oracle: ray-casts from `sq` in the direction set of
/// `ptype` until an edge or a blocker. A blocker square is itself attacked;
/// nothing behind it is. Only rooks and bishops have a direction set; any
/// other kind is rejected outright.
pub fn sliding_attack(ptype: PieceType, sq: Square, occupied: Bitboard) -> (res: Result<
    Bitboard,
    MagicError,
>)
    requires
        sq.on_board(),
    ensures
        is_slider(ptype) ==> (res matches Ok(b) && b.0 == sliding(ptype, sq.0 as int, occupied.0)),
        !is_slider(ptype) ==> res == Err::<Bitboard, MagicError>(MagicError::InvalidPieceKind),
{
    let f = sq.0 % 8;
    let r = sq.0 / 8;
    match ptype {
        PieceType::Rook => {
            let up = ray_walk(f, r, 0, 1, occupied.0);
            let right = ray_walk(f, r, 1, 0, occupied.0);
            let down = ray_walk(f, r, 0, -1, occupied.0);
            let left = ray_walk(f, r, -1, 0, occupied.0);
            Ok(Bitboard(up | right | down | left))
        },
        PieceType::Bishop => {
            let ur = ray_walk(f, r, 1, 1, occupied.0);
            let ul = ray_walk(f, r, -1, 1, occupied.0);
            let dr_ = ray_walk(f, r, 1, -1, occupied.0);
            let dl = ray_walk(f, r, -1, -1, occupied.0);
            Ok(Bitboard(ur | ul | dr_ | dl))
        },
        _ => Err(MagicError::InvalidPieceKind),
    }
}

/// The move-destination set `get_moves` returns for a piece of kind `p` on
/// square `s` under occupancy `occ`: fixed jump sets for knight and king,
/// magic-table attack sets for the sliders, the union of both slider sets for
/// a queen, and nothing for any other kind.
pub open spec fn moves_bits(p: Piece, s: int, occ: u64) -> u64 {
    match type_of_piece(p) {
        PieceType::Knight => knight_att(s),
        PieceType::King => king_att(s),
        PieceType::Rook => sliding(PieceType::Rook, s, occ),
        PieceType::Bishop => sliding(PieceType::Bishop, s, occ),
        PieceType::Queen => sliding(PieceType::Rook, s, occ) | sliding(PieceType::Bishop, s, occ),
        _ => 0u64,
    }
}

/// Looks up the precomputed destination set for a piece: knights and kings
/// from the fixed tables, sliders through the magic tables, a queen as the
/// union of the rook and bishop lookups, anything else empty.
pub fn get_moves(piece: Piece, sq: Square, occupied: Bitboard, pregen: &Pregen) -> (b: Bitboard)
    requires
        sq.on_board(),
        pregen.wf(),
    ensures
        b.0 == moves_bits(piece, sq.0 as int, occupied.0),
{
    let ghost s = sq.0 as int;
    match piece.ptype() {
        PieceType::Knight => pregen.attacks.knight[sq.0 as usize],
        PieceType::King => pregen.attacks.king[sq.0 as usize],
        PieceType::Rook => {
            let b = pregen.rook_magics.lookup(sq, occupied);
            proof {
                assert(pregen.rook_magics.magics@[s].mask.0 == mask_spec(PieceType::Rook, s));
                crate::magic::lemma_mask_irrelevant(PieceType::Rook, s, occupied.0);
            }
            b
        },
        PieceType::Bishop => {
            let b = pregen.bishop_magics.lookup(sq, occupied);
            proof {
                assert(pregen.bishop_magics.magics@[s].mask.0 == mask_spec(PieceType::Bishop, s));
                crate::magic::lemma_mask_irrelevant(PieceType::Bishop, s, occupied.0);
            }
            b
        },
        PieceType::Queen => {
            let r = pregen.rook_magics.lookup(sq, occupied);
            let d = pregen.bishop_magics.lookup(sq, occupied);
            proof {
                assert(pregen.rook_magics.magics@[s].mask.0 == mask_spec(PieceType::Rook, s));
                assert(pregen.bishop_magics.magics@[s].mask.0 == mask_spec(PieceType::Bishop, s));
                crate::magic::lemma_mask_irrelevant(PieceType::Rook, s, occupied.0);
                crate::magic::lemma_mask_irrelevant(PieceType::Bishop, s, occupied.0);
            }
            Bitboard(r.0 | d.0)
        },
        _ => Bitboard(0),
    }
}

/// Computes the single- and double-push pawn target sets for the side to
/// move; pushes are not yet emitted as moves, so the returned list is always
/// empty, exactly as callers currently rely on.
pub fn get_pawn_moves(sq: Square, ctx: Board) -> (moves: Vec<Move>)
    requires
        ctx.wf(),
    ensures
        moves@.len() == 0,
{
    let moves: Vec<Move> = Vec::new();
    let us = ctx.side_to_move;
    let start_rank = match us {
        Color::White => Bitboard(crate::types::bitboard::RANK_2),
        Color::Black => Bitboard(crate::types::bitboard::RANK_7),
    };
    let pawns = ctx.by_piece(Piece::Pawn(us));
    let double_pawns = Bitboard(pawns.0 & start_rank.0);
    let single_pawns = Bitboard(pawns.0 & !start_rank.0);
    let not_occupied = Bitboard(!ctx.pieces().0);
    let _single_moves = Bitboard(single_pawns.shift(Direction::Up, 1).0 & not_occupied.0);
    let _double_moves = Bitboard(single_pawns.shift(Direction::Up, 2).0 & not_occupied.0);
    let _ = double_pawns;
    moves
}

/// The quiet destinations of the piece on square `s`: its attack set under
/// the full occupancy, minus its own side's pieces.
pub open spec fn quiet_targets(board: Board, s: int) -> u64 {
    moves_bits(board.content@[s], s, board.pieces@[piece_type_index(PieceType::All)].0)
        & !board.colors@[color_index(board.side_to_move)].0
}

/// The quiet moves of the piece on square `s`, destinations in ascending
/// square order.
pub open spec fn moves_from(board: Board, s: int) -> Seq<Move> {
    sq_seq(quiet_targets(board, s)).map_values(
        |t: int| Move { from: Square(s as u8), to: Square(t as u8), move_type: MoveType::Quiet },
    )
}

/// Every quiet move of the side to move: sources in ascending square order,
/// destinations ascending within each source.
pub open spec fn pseudo_moves(board: Board) -> Seq<Move> {
    sq_seq(board.colors@[color_index(board.side_to_move)].0).map_values(
        |s: int| moves_from(board, s),
    ).flatten()
}

/// The moves still to be generated once the sources in `bb` remain.
pub open spec fn pending_moves(board: Board, bb: u64) -> Seq<Move> {
    sq_seq(bb).map_values(|s: int| moves_from(board, s)).flatten()
}

/// Generates every quiet move of the side to move: for each of its squares,
/// the piece's attack set minus its own pieces, one move per destination,
/// sources and destinations in ascending square order.
#[verifier::loop_isolation(false)]
pub fn pseudolegal_moves(board: &Board, pregen: &Pregen) -> (moves: Vec<Move>)
    requires
        board.wf(),
        pregen.wf(),
    ensures
        moves@ == pseudo_moves(*board),
{
    let mut moves: Vec<Move> = Vec::new();
    let mut it = board.by_color(board.side_to_move).iter();
    proof {
        assert(moves@ + pending_moves(*board, it.bitboard.0) =~= pending_moves(
            *board,
            it.bitboard.0,
        ));
    }
    while it.bitboard.0 != 0
        invariant
            moves@ + pending_moves(*board, it.bitboard.0) == pseudo_moves(*board),
        decreases it.bitboard.0,
    {
        let ghost bb0 = it.bitboard.0;
        let sq = match it.next() {
            Some(q) => q,
            None => {
                proof {
                    assert(false);
                }
                Square(0)
            },
        };
        proof {
            vstd::std_specs::bits::axiom_u64_trailing_zeros(bb0);
            assert(bb0 & ((bb0 - 1) as u64) < bb0) by (bit_vector)
                requires
                    bb0 != 0,
            ;
        }
        let piece = board.at(sq);
        let occupied = board.by_piece_type(PieceType::All);
        let own = board.by_color(board.side_to_move);
        let attacks = Bitboard(get_moves(piece, sq, occupied, pregen).0 & !own.0);
        let ghost f = |t: int|
            Move { from: Square(sq.0), to: Square(t as u8), move_type: MoveType::Quiet };
        proof {
            let g = |s: int| moves_from(*board, s);
            assert(sq_seq(bb0).map_values(g) =~= seq![g(sq.0 as int)] + sq_seq(
                it.bitboard.0,
            ).map_values(g));
            assert((seq![g(sq.0 as int)] + sq_seq(it.bitboard.0).map_values(g)).drop_first()
                =~= sq_seq(it.bitboard.0).map_values(g));
            assert(pending_moves(*board, bb0) == g(sq.0 as int) + pending_moves(
                *board,
                it.bitboard.0,
            ));
            assert(attacks.0 == quiet_targets(*board, sq.0 as int));
            assert(sq_seq(attacks.0).map_values(f) =~= moves_from(*board, sq.0 as int));
            assert(moves@ + (sq_seq(attacks.0).map_values(f) + pending_moves(
                *board,
                it.bitboard.0,
            )) =~= moves@ + pending_moves(*board, bb0));
        }
        let mut it2 = attacks.iter();
        while it2.bitboard.0 != 0
            invariant
                moves@ + (sq_seq(it2.bitboard.0).map_values(f) + pending_moves(
                    *board,
                    it.bitboard.0,
                )) == pseudo_moves(*board),
            decreases it2.bitboard.0,
        {
            let ghost tb0 = it2.bitboard.0;
            let ghost m0 = moves@;
            let to = match it2.next() {
                Some(q) => q,
                None => {
                    proof {
                        assert(false);
                    }
                    Square(0)
                },
            };
            proof {
                vstd::std_specs::bits::axiom_u64_trailing_zeros(tb0);
                assert(tb0 & ((tb0 - 1) as u64) < tb0) by (bit_vector)
                    requires
                        tb0 != 0,
                ;
            }
            moves.push(Move::new(sq, to, MoveType::Quiet));
            proof {
                assert(sq_seq(tb0).map_values(f) =~= seq![f(to.0 as int)] + sq_seq(
                    it2.bitboard.0,
                ).map_values(f));
                assert(moves@ =~= m0 + seq![f(to.0 as int)]);
                assert(moves@ + (sq_seq(it2.bitboard.0).map_values(f) + pending_moves(
                    *board,
                    it.bitboard.0,
                )) =~= m0 + (sq_seq(tb0).map_values(f) + pending_moves(*board, it.bitboard.0)));
            }
        }
        proof {
            assert(sq_seq(0u64).map_values(f) =~= Seq::<Move>::empty());
            assert(moves@ + pending_moves(*board, it.bitboard.0) =~= moves@ + (sq_seq(
                it2.bitboard.0,
            ).map_values(f) + pending_moves(*board, it.bitboard.0)));
        }
    }
    proof {
        assert(sq_seq(0u64).map_values(|s: int| moves_from(*board, s)) =~= Seq::<
            Seq<Move>,
        >::empty());
        assert(pending_moves(*board, 0) =~= Seq::<Move>::empty());
        assert(moves@ + pending_moves(*board, it.bitboard.0) =~= moves@);
    }
    moves
}

} // verus!
