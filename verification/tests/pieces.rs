use chess::piece::{Color, Piece};
use chess::player::Player;

#[test]
fn other_swaps_sides() {
    assert_eq!(Color::White.other(), Color::Black);
    assert_eq!(Color::Black.other(), Color::White);
    assert_eq!(Color::White.other().other(), Color::White);
}

#[test]
fn get_color_gives_the_side() {
    assert_eq!(*Piece::King(Color::White).get_color(), Color::White);
    assert_eq!(*Piece::Knight(Color::Black).get_color(), Color::Black);
    assert_eq!(*Piece::Pawn(Color::Black).get_color(), Color::Black);
}

#[test]
fn is_some_piece_matches_every_piece() {
    let p = Piece::Rook(Color::White);
    assert!(p._is_some_piece(&Piece::Queen(Color::Black)));
    assert!(p._is_some_piece(&p));
}

#[test]
fn string_repr_of_every_piece() {
    let cases = [
        (Piece::King(Color::White), "K"),
        (Piece::Queen(Color::White), "Q"),
        (Piece::Rook(Color::White), "R"),
        (Piece::Bishop(Color::White), "B"),
        (Piece::Knight(Color::White), "N"),
        (Piece::Pawn(Color::White), "P"),
        (Piece::King(Color::Black), "k"),
        (Piece::Queen(Color::Black), "q"),
        (Piece::Rook(Color::Black), "r"),
        (Piece::Bishop(Color::Black), "b"),
        (Piece::Knight(Color::Black), "n"),
        (Piece::Pawn(Color::Black), "p"),
    ];
    for (piece, repr) in cases.iter() {
        assert_eq!(piece.get_string_repr(), *repr);
    }
}

#[test]
fn string_repr_case_tells_the_side() {
    for piece in [Piece::Bishop(Color::White), Piece::Bishop(Color::Black)] {
        let s = piece.get_string_repr();
        let upper = s.chars().all(|c| c.is_ascii_uppercase());
        assert_eq!(upper, *piece.get_color() == Color::White);
    }
}

#[test]
fn figurines() {
    assert_eq!(Piece::King(Color::White).figurine_text(), "\u{2654}");
    assert_eq!(Piece::Pawn(Color::White).figurine_text(), "\u{2659}");
    assert_eq!(Piece::King(Color::Black).figurine_text(), "\u{265A}");
    assert_eq!(Piece::Knight(Color::Black).figurine_text(), "\u{265E}");
    assert_eq!(Piece::Pawn(Color::Black).figurine_text(), "\u{265F}");
}

#[test]
fn new_player_has_no_pieces() {
    let p = Player::new(String::from("Player-1"), Color::White);
    assert_eq!(p.get_name(), "Player-1");
    assert_eq!(*p.get_color(), Color::White);
    assert!(p.get_acquired_pieces().is_empty());
}

#[test]
fn acquired_pieces_keep_their_order() {
    let mut p = Player::new(String::from("Player-2"), Color::Black);
    p.add_acquired_piece(Piece::Pawn(Color::White));
    p.add_acquired_piece(Piece::Queen(Color::White));
    p.add_acquired_piece(Piece::Pawn(Color::White));
    assert_eq!(
        p.get_acquired_pieces(),
        &vec![Piece::Pawn(Color::White), Piece::Queen(Color::White), Piece::Pawn(Color::White)]
    );
    assert_eq!(p.get_name(), "Player-2");
    assert_eq!(*p.get_color(), Color::Black);
}
