use chess_core::{Board, Color, GameCondition, Piece, Pos, RawBoard};

fn board_with(pieces: &[(usize, usize, Piece, Color)]) -> Board {
    let mut raw = RawBoard::default();
    for &(x, y, p, c) in pieces {
        raw.set(Pos::new_unchecked(x, y), p, c);
    }
    Board::with(raw)
}

#[test]
fn gc_pass_1() {
    let board = board_with(&[]);

    assert!(!board.is_king_check(Color::White));
    assert!(!board.is_king_check(Color::Black));
}

#[test]
fn gc_pass_2() {
    let board = board_with(&[
        (0, 0, Piece::King, Color::White),
        (0, 2, Piece::Rook, Color::Black),
    ]);

    assert!(board.is_king_check(Color::White));
    assert!(!board.is_king_check(Color::Black));
}

#[test]
fn gc_pass_3() {
    let board = board_with(&[
        (0, 0, Piece::King, Color::White),
        (0, 1, Piece::Pawn, Color::Black),
        (0, 7, Piece::Rook, Color::Black),
    ]);

    assert_eq!(board.game_condition(Color::White), GameCondition::Safe);
}

#[test]
fn gc_pass_4() {
    let board = board_with(&[
        (0, 0, Piece::King, Color::White),
        (0, 1, Piece::Pawn, Color::White),
        (0, 7, Piece::Rook, Color::Black),
    ]);

    assert_eq!(board.game_condition(Color::White), GameCondition::Safe);
}

#[test]
fn gc_pass_5() {
    let board = board_with(&[
        (0, 0, Piece::King, Color::White),
        (0, 1, Piece::Pawn, Color::White),
        (0, 7, Piece::Rook, Color::Black),
        (1, 7, Piece::Queen, Color::Black),
    ]);

    assert_eq!(board.game_condition(Color::White), GameCondition::Safe);
}

#[test]
fn gc_pass_6() {
    let board = board_with(&[
        (0, 0, Piece::King, Color::White),
        (0, 7, Piece::Rook, Color::Black),
        (1, 7, Piece::Queen, Color::Black),
    ]);

    assert_eq!(board.game_condition(Color::White), GameCondition::Mate);
}

#[test]
fn gc_pass_7() {
    let board = board_with(&[
        (1, 0, Piece::King, Color::White),
        (0, 7, Piece::Rook, Color::Black),
        (1, 7, Piece::Queen, Color::Black),
    ]);

    assert_eq!(board.game_condition(Color::White), GameCondition::Check);
}

#[test]
fn gc_pass_8() {
    let board = board_with(&[
        (0, 0, Piece::King, Color::White),
        (0, 7, Piece::Queen, Color::White),
        (0, 6, Piece::Rook, Color::Black),
        (1, 6, Piece::Rook, Color::Black),
    ]);

    assert_eq!(board.game_condition(Color::White), GameCondition::Check);
}

#[test]
fn initial_position_is_safe_for_both() {
    let board = Board::new();
    assert_eq!(board.game_condition(Color::White), GameCondition::Safe);
    assert_eq!(board.game_condition(Color::Black), GameCondition::Safe);
}

#[test]
fn lone_king_in_corner_is_stalemated() {
    // Black king at (7, 7), White queen at (5, 6): every king move is
    // covered, but the king is not attacked.
    let board = board_with(&[
        (7, 7, Piece::King, Color::Black),
        (5, 6, Piece::Queen, Color::White),
        (0, 0, Piece::King, Color::White),
    ]);
    assert_eq!(board.game_condition(Color::Black), GameCondition::Stale);
}
