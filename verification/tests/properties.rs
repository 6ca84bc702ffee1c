use tejuino::magic::{find_magic, generate_magics};
use tejuino::movegen::{pseudolegal_moves, sliding_attack};
use tejuino::pregen::Pregen;
use tejuino::types::bitboard::{FILE_H, RANK_8};
use tejuino::types::magic::MagicPiece;
use tejuino::types::{
    Bitboard, Board, Color, File, MagicError, Move, MoveType, Piece, PieceType, Rank, Square,
};
use tejuino::util::PRNG;
use tejuino::BOARD_START_FEN;

/// Ground truth: for a square of each piece kind, every one of the 2^n
/// occupancy subsets of its mask looks up exactly the oracle's attack set.
#[test]
fn ground_truth_every_subset() {
    for piece in [MagicPiece::Rook, MagicPiece::Bishop] {
        let mb = generate_magics(&piece).unwrap();
        for sqi in [0isize, 28, 63] {
            let sq = Square::from(sqi);
            let view = mb.get(sq);
            let mask = view.magic.mask.0;
            let mut subset: u64 = 0;
            let mut count: u64 = 0;
            loop {
                let looked_up = view.at(Bitboard(subset));
                let oracle = sliding_attack(piece.ptype(), sq, Bitboard(subset)).unwrap();
                assert_eq!(looked_up, oracle);
                count += 1;
                subset = mask & subset.wrapping_sub(mask);
                if subset == 0 {
                    break;
                }
            }
            assert_eq!(count, 1u64 << mask.count_ones());
        }
    }
}

/// Mask/shift invariant: for all 64 squares of both piece kinds,
/// `shift == 64 - popcount(mask)`.
#[test]
fn mask_shift_invariant() {
    for piece in [MagicPiece::Rook, MagicPiece::Bishop] {
        let mb = generate_magics(&piece).unwrap();
        assert_eq!(mb.magics.len(), 64);
        for m in &mb.magics {
            assert_eq!(m.shift as u32, 64 - m.mask.0.count_ones());
        }
    }
}

/// Offset partition: the 64 offsets plus their table sizes exactly partition
/// the shared array, no gaps and no overlaps.
#[test]
fn offset_partition() {
    for piece in [MagicPiece::Rook, MagicPiece::Bishop] {
        let mb = generate_magics(&piece).unwrap();
        let mut expected_offset: usize = 0;
        for m in &mb.magics {
            assert_eq!(m.offset, expected_offset);
            expected_offset += 1usize << (64 - m.shift as u32);
        }
        assert_eq!(expected_offset, mb.table.len());
    }
}

/// Determinism: two independent builds from the same fixed seeds produce
/// bit-identical magics and tables.
#[test]
fn deterministic_builds() {
    let a = generate_magics(&MagicPiece::Rook).unwrap();
    let b = generate_magics(&MagicPiece::Rook).unwrap();
    assert_eq!(a.magics, b.magics);
    assert_eq!(a.table, b.table);
}

/// Determinism of the generator itself: equal seeds give equal streams, and a
/// sparse draw is the AND of the next three plain draws.
#[test]
fn prng_deterministic() {
    let mut g1 = PRNG::new(0xDEADBEEF);
    let mut g2 = PRNG::new(0xDEADBEEF);
    for _ in 0..10 {
        assert_eq!(g1.next(), g2.next());
    }
    let mut g3 = PRNG::new(12345);
    let mut g4 = PRNG::new(12345);
    let a = g3.next();
    let b = g3.next();
    let c = g3.next();
    assert_eq!(g4.sparse(), a & b & c);
}

/// Edge exclusion: the corner square's masks exclude the far edges its rays
/// run along, whatever the occupancy there would be.
#[test]
fn edge_exclusion_corner() {
    let corner = Square::from(0);
    for piece in [MagicPiece::Rook, MagicPiece::Bishop] {
        let mut rng = PRNG::new(728);
        let (m, _table) = find_magic(&piece, corner, &mut rng).unwrap();
        assert_eq!(m.mask.0 & (FILE_H | RANK_8), 0);
        assert_eq!(m.mask.0 & Bitboard::edges(corner).0, 0);
    }
}

/// Iterator correctness: an eight-bit mask yields exactly eight squares in
/// ascending index order, and the consumed iterator yields nothing more.
#[test]
fn iterator_ascending_and_consumed() {
    let b = Bitboard(0xFF);
    let mut it = b.iter();
    let mut seen: Vec<u8> = Vec::new();
    while let Some(sq) = it.next() {
        seen.push(sq.0);
    }
    assert_eq!(seen, vec![0, 1, 2, 3, 4, 5, 6, 7]);
    assert_eq!(it.next(), None);
    assert_eq!(it.next(), None);
}

/// Sample scenario: the rook table for board index 0 has a 12-bit mask, hence
/// exactly 4096 entries, and the empty-occupancy entry equals the oracle's
/// empty-board attack set: the full first file and first rank minus the
/// origin.
#[test]
fn rook_corner_table() {
    let corner = Square::from(0);
    let mut rng = PRNG::new(728);
    let (m, table) = find_magic(&MagicPiece::Rook, corner, &mut rng).unwrap();
    assert_eq!(m.mask.0.count_ones(), 12);
    assert_eq!(table.len(), 4096);
    let oracle = sliding_attack(PieceType::Rook, corner, Bitboard(0)).unwrap();
    assert_eq!(table[m.index(Bitboard(0))], oracle);
    assert_eq!(oracle, Bitboard(0x01010101010101FE));
}

/// Failure scenario: the oracle rejects a non-sliding piece kind outright
/// instead of returning an empty set.
#[test]
fn oracle_rejects_non_slider() {
    let occupied = Bitboard(0x55AA);
    for kind in [
        PieceType::King,
        PieceType::Knight,
        PieceType::Pawn,
        PieceType::Queen,
        PieceType::All,
        PieceType::Empty,
    ] {
        let res = sliding_attack(kind, Square::from(35), occupied);
        assert_eq!(res, Err(MagicError::InvalidPieceKind));
    }
}

#[test]
fn file_rank_lookup() {
    assert_eq!(File::try_from(0).unwrap(), File::FileA);
    assert_eq!(Rank::try_from(7).unwrap(), Rank::Rank8);
    assert_eq!(File::try_from(8).unwrap_err(), "Invalid file: 8");
    assert_eq!(Rank::try_from(12).unwrap_err(), "Invalid rank: 12");
}

#[test]
fn square_and_move_names() {
    assert_eq!(Square::from(28).name(), "E4");
    assert_eq!(Square::from(0).name(), "A1");
    assert_eq!(Square::from(63).name(), "H8");
    let m = Move::new(Square::from(28), Square::from(36), MoveType::Quiet);
    assert_eq!(m.text(), "E4 -> E5");
}

#[test]
fn fen_start_position() {
    let board = Board::from(BOARD_START_FEN);
    assert_eq!(board.by_color(Color::White).0, 0xFFFF);
    assert_eq!(board.by_color(Color::Black).0, 0xFFFF_0000_0000_0000);
    assert_eq!(board.by_piece_type(PieceType::Pawn).0, 0x00FF_0000_0000_FF00);
    assert_eq!(board.pieces().0, 0xFFFF_0000_0000_FFFF);
    assert_eq!(board.at(Square::from(0)), Piece::Rook(Color::White));
    assert_eq!(board.at(Square::from(4)), Piece::King(Color::White));
    assert_eq!(board.at(Square::from(60)), Piece::King(Color::Black));
    assert_eq!(board.at(Square::from(35)), Piece::Empty);
    assert_eq!(
        board.by_piece(Piece::Pawn(Color::White)).0,
        0x0000_0000_0000_FF00
    );
}

/// In the starting position only the knights have quiet moves: four in all,
/// sources and destinations in ascending square order.
#[test]
fn pseudolegal_start_position() {
    let pregen = Pregen::init().unwrap();
    let board = Board::from(BOARD_START_FEN);
    let moves = pseudolegal_moves(&board, &pregen);
    let got: Vec<(u8, u8)> = moves.iter().map(|m| (m.from.0, m.to.0)).collect();
    assert_eq!(got, vec![(1, 16), (1, 18), (6, 21), (6, 23)]);
}

/// Index steps that would wrap a rank edge are rejected; ordinary steps land
/// one square over.
#[test]
fn steps_do_not_wrap_ranks() {
    let h4 = Square::from(31);
    assert!(!h4.safe_step(1)); // one step right would wrap to A5
    assert_eq!(h4.step(1), None);
    let e4 = Square::from(28);
    assert!(e4.safe_step(1));
    assert_eq!(e4.step(1), Some(Square::from(29)));
    assert_eq!(e4.step(8), Some(Square::from(36)));
    let a1 = Square::from(0);
    assert_eq!(a1.step(-1), None);
    assert_eq!(a1.step(-8), None);
}

#[test]
fn square_from_out_of_range_is_sentinel() {
    assert_eq!(Square::from(-1).0, 64);
    assert_eq!(Square::from(64).0, 64);
    assert!(!Square::in_range(64));
    assert!(Square::in_range(0) && Square::in_range(63));
}

#[test]
fn empty_bitboard_yields_nothing() {
    let mut it = Bitboard(0).iter();
    assert_eq!(it.next(), None);
    assert!(Bitboard(0).empty());
    assert!(!Bitboard(1).empty());
}

#[test]
fn grid_render_shape() {
    let board = Board::from(BOARD_START_FEN);
    let text = board.render();
    let lines: Vec<&str> = text.trim_start_matches('\n').lines().collect();
    assert_eq!(lines.len(), 18);
    assert!(lines[0].starts_with('┌'));
    assert!(lines[16].starts_with('└'));
    assert!(lines[15].contains('R'));
    assert!(lines[1].contains('r'));
    assert_eq!(lines[17], "  A   B   C   D   E   F  G   H");
}
