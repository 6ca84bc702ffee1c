use tejuino::movegen::{get_moves, sliding_attack};
use tejuino::pregen::Pregen;
use tejuino::types::{Bitboard, Board, Color, PieceType, Square};
use tejuino::BOARD_START_FEN;

#[test]
fn test_print() {
    let my_board = Board::from(BOARD_START_FEN);
    println!("{}", my_board.render());
    println!(
        "{}\n{}\n{}",
        my_board.by_piece_type(PieceType::All).render(),
        my_board.by_color(Color::White).render(),
        my_board.by_color(Color::Black).render()
    );
}

#[test]
fn bitboard_test_print() {
    let b = Bitboard(0x0FF0);
    println!("{}", b.render());
    let mut it = b.iter();
    while let Some(sq) = it.next() {
        println!("{:?}", sq);
    }
}

#[test]
fn test_sliding_attack() {
    let occupied = Bitboard::squares(&[
        Square::from(33), // B5
        Square::from(37), // F5
        Square::from(11), // D2
        Square::from(51), // D7
        Square::from(35), // D5
    ]);
    let attack_bb = sliding_attack(PieceType::Rook, Square::from(35), occupied).unwrap();
    println!("{}", attack_bb.render());
    println!("{}", occupied.render());
}

#[test]
fn test_attack() {
    let pregen = Pregen::init().unwrap();
    let board = Board::from("rnbqkbnr/p1pppppp/8/2B5/4P3/5N2/PPPP1PPP/RNBQK2R w KQkq - 0 1");
    let square = Square::from(34); // C5
    let attack_bb = Bitboard(
        get_moves(
            board.at(square),
            square,
            board.by_piece_type(PieceType::All),
            &pregen,
        )
        .0 & !board.by_color(Color::White).0,
    );
    println!("{}", attack_bb.render());
}
