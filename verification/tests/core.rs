use tejuino::magic::{find_magic, generate_magics};
use tejuino::movegen::pseudolegal_moves;
use tejuino::pregen::Pregen;
use tejuino::types::bitboard::{FILE_A, FILE_H, RANK_1, RANK_8};
use tejuino::types::magic::MagicPiece;
use tejuino::types::{Bitboard, File, Rank, Square};
use tejuino::util::PRNG;
use tejuino::BOARD_START_FEN;

#[test]
fn test_square() {
    let all_files = vec![
        File::FileA,
        File::FileB,
        File::FileC,
        File::FileD,
        File::FileE,
        File::FileF,
        File::FileG,
        File::FileH,
    ];
    let all_ranks = vec![
        Rank::Rank1,
        Rank::Rank2,
        Rank::Rank3,
        Rank::Rank4,
        Rank::Rank5,
        Rank::Rank6,
        Rank::Rank7,
        Rank::Rank8,
    ];

    let mut it = Square::all();
    while let Some(sq) = it.next() {
        let n = sq.0 as usize;
        assert_eq!(Square::from(n as isize), sq);
        let file_n = n % 8;
        let rank_n = n / 8;
        assert_eq!(sq.file(), all_files[file_n]);
        assert_eq!(sq.rank(), all_ranks[rank_n]);
    }

    // square methods
    let e4 = Square::from(28);
    let e5 = Square::from(36);
    assert_eq!(e4.dist(e4), 0);
    assert_eq!(e4.dist(e5), 1);

    let knight_jumps: Vec<(Square, Square)> = vec![
        (Square::from(28), Square::from(18)), // E4 -> C3
        (Square::from(28), Square::from(22)), // E4 -> G3
        (Square::from(28), Square::from(34)), // E4 -> C5
        (Square::from(28), Square::from(38)), // E4 -> G5
        (Square::from(28), Square::from(11)), // E4 -> D2
        (Square::from(28), Square::from(13)), // E4 -> F2
        (Square::from(28), Square::from(43)), // E4 -> D6
        (Square::from(28), Square::from(45)), // E4 -> F6
        (Square::from(6), Square::from(21)),  // G1 -> F3
        (Square::from(63), Square::from(53)), // H8 -> F7
    ];

    for (from, to) in knight_jumps {
        println!("{} -> {}", from.name(), to.name());
        assert_eq!(from.dist(to), 2);
    }
}

#[test]
fn test_pregen() {
    let pregen = Pregen::init().unwrap();
    let e4 = 28usize;
    assert_eq!(
        pregen.attacks.king[e4],
        Bitboard::squares(&[
            Square::from(19), // D3
            Square::from(20), // E3
            Square::from(21), // F3
            Square::from(27), // D4
            Square::from(29), // F4
            Square::from(35), // D5
            Square::from(36), // E5
            Square::from(37), // F5
        ])
    );

    assert_eq!(
        pregen.attacks.knight[e4],
        Bitboard::squares(&[
            Square::from(18), // C3
            Square::from(22), // G3
            Square::from(34), // C5
            Square::from(38), // G5
            Square::from(11), // D2
            Square::from(13), // F2
            Square::from(43), // D6
            Square::from(45), // F6
        ])
    )
}

#[test]
fn test_edges() {
    let s = Square::from(0); // A1
    let b = Bitboard(
        ((FILE_A | FILE_H) & !Bitboard::file(s).0) | ((RANK_1 | RANK_8) & !Bitboard::rank(s).0),
    );
    println!("{}", b.render());
}

#[test]
fn test_magic() {
    let mut rng = PRNG::new(0x891750FBADEA5);
    let b5 = Square::from(33);
    let (m, table) = find_magic(&MagicPiece::Rook, b5, &mut rng).unwrap();
    let blockers = Bitboard::squares(&[
        Square::from(37), // F5
        Square::from(9),  // B2
        Square::from(41), // B6
    ]);
    println!("{}", table[m.index(Bitboard(0))].render());
    println!("{}", table[m.index(blockers)].render());

    let magic_bitboard = generate_magics(&MagicPiece::Rook).unwrap();
    let magic = magic_bitboard.get(b5);
    println!("{}", magic.at(blockers).render());

    assert_eq!(table[m.index(Bitboard(0))], magic.at(Bitboard(0)));
    assert_eq!(table[m.index(blockers)], magic.at(blockers));
}

#[test]
fn test_pseudo_gen() {
    let pregen = Pregen::init().unwrap();
    let board = tejuino::types::Board::from(BOARD_START_FEN);
    let moves = pseudolegal_moves(&board, &pregen);
    for m in moves {
        println!("{}", m.text());
    }
}
