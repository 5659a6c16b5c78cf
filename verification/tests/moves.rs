use chess_core::{Board, Color, Diff, DiffType, Piece, Pos, RawBoard};

fn board_with(pieces: &[(usize, usize, Piece, Color)]) -> Board {
    let mut raw = RawBoard::default();
    for &(x, y, p, c) in pieces {
        raw.set(Pos::new_unchecked(x, y), p, c);
    }
    Board::with(raw)
}

fn mv(fx: usize, fy: usize, tx: usize, ty: usize) -> Diff {
    Diff {
        ty: DiffType::Move,
        from: Pos::new_unchecked(fx, fy),
        to: Pos::new_unchecked(tx, ty),
    }
}

fn cap(fx: usize, fy: usize, tx: usize, ty: usize) -> Diff {
    Diff {
        ty: DiffType::Capture { cap: Pos::new_unchecked(tx, ty) },
        from: Pos::new_unchecked(fx, fy),
        to: Pos::new_unchecked(tx, ty),
    }
}

#[test]
fn gpmu_pass_1() {
    let board = Board::new();

    let moves = board
        .get_possible_moves_unchecked(Pos::new_unchecked(0, 1))
        .unwrap();

    assert_eq!(moves.len(), 2);
    assert!(moves.contains(&mv(0, 1, 0, 2)));
    assert!(moves.contains(&mv(0, 1, 0, 3)));
}

#[test]
fn gpmu_pass_2() {
    let board = Board::new();

    let moves = board
        .get_possible_moves_unchecked(Pos::new_unchecked(1, 0))
        .unwrap();

    assert_eq!(moves.len(), 2);
    assert!(moves.contains(&mv(1, 0, 0, 2)));
    assert!(moves.contains(&mv(1, 0, 2, 2)));
}

#[test]
fn gpmu_pass_3() {
    let board = Board::new();

    let moves = board
        .get_possible_moves_unchecked(Pos::new_unchecked(0, 0))
        .unwrap();
    assert!(moves.is_empty());

    let moves = board
        .get_possible_moves_unchecked(Pos::new_unchecked(2, 0))
        .unwrap();
    assert!(moves.is_empty());

    let moves = board
        .get_possible_moves_unchecked(Pos::new_unchecked(3, 0))
        .unwrap();
    assert!(moves.is_empty());

    let moves = board
        .get_possible_moves_unchecked(Pos::new_unchecked(4, 0))
        .unwrap();
    assert!(moves.is_empty());
}

#[test]
fn moves_empty_square_yields_none() {
    let board = Board::new();
    assert!(board
        .get_possible_moves_unchecked(Pos::new_unchecked(4, 4))
        .is_none());
    assert!(board.get_possible_moves(Pos::new_unchecked(4, 4)).is_none());
}

#[test]
fn rook_slides_until_blocked() {
    let board = board_with(&[
        (0, 0, Piece::Rook, Color::White),
        (0, 5, Piece::Pawn, Color::Black),
        (3, 0, Piece::Pawn, Color::White),
    ]);
    let moves = board
        .get_possible_moves_unchecked(Pos::new_unchecked(0, 0))
        .unwrap();
    // Up the file: four empty squares, then the black pawn is captured.
    for y in 1..5 {
        assert!(moves.contains(&mv(0, 0, 0, y)));
    }
    assert!(moves.contains(&cap(0, 0, 0, 5)));
    assert!(!moves.iter().any(|d| d.to == Pos::new_unchecked(0, 6)));
    // Along the rank: stops before its own pawn.
    assert!(moves.contains(&mv(0, 0, 1, 0)));
    assert!(moves.contains(&mv(0, 0, 2, 0)));
    assert!(!moves.iter().any(|d| d.to == Pos::new_unchecked(3, 0)));
    assert_eq!(moves.len(), 7);
}

#[test]
fn pawn_capture_is_diagonal_only() {
    let board = board_with(&[
        (1, 1, Piece::Pawn, Color::White),
        (1, 2, Piece::Rook, Color::Black),
        (2, 2, Piece::Rook, Color::Black),
    ]);
    let moves = board
        .get_possible_moves_unchecked(Pos::new_unchecked(1, 1))
        .unwrap();
    // Straight ahead is blocked for the move-only template; the diagonal
    // enemy piece is captured.
    assert!(moves.contains(&cap(1, 1, 2, 2)));
    assert!(!moves.iter().any(|d| d.to == Pos::new_unchecked(1, 2)));
}

#[test]
fn pawn_double_step_lacks_rank_check() {
    // Known gap carried from the move tables: the two-square template has
    // no starting-rank precondition, so an advanced pawn still offers it.
    let board = board_with(&[(0, 2, Piece::Pawn, Color::White)]);
    let moves = board
        .get_possible_moves_unchecked(Pos::new_unchecked(0, 2))
        .unwrap();
    assert_eq!(moves.len(), 2);
    assert!(moves.contains(&mv(0, 2, 0, 3)));
    assert!(moves.contains(&mv(0, 2, 0, 4)));
}

#[test]
fn black_pawn_moves_are_mirrored() {
    let board = board_with(&[
        (4, 6, Piece::Pawn, Color::Black),
        (3, 5, Piece::Rook, Color::White),
    ]);
    let moves = board
        .get_possible_moves_unchecked(Pos::new_unchecked(4, 6))
        .unwrap();
    assert!(moves.contains(&mv(4, 6, 4, 5)));
    assert!(moves.contains(&mv(4, 6, 4, 4)));
    assert!(moves.contains(&cap(4, 6, 3, 5)));
    assert_eq!(moves.len(), 3);
}

#[test]
fn pinned_bishop_has_no_legal_moves() {
    let board = board_with(&[
        (0, 0, Piece::King, Color::White),
        (0, 1, Piece::Bishop, Color::White),
        (0, 7, Piece::Rook, Color::Black),
    ]);
    let pseudo = board
        .get_possible_moves_unchecked(Pos::new_unchecked(0, 1))
        .unwrap();
    assert!(!pseudo.is_empty());
    let legal = board.get_possible_moves(Pos::new_unchecked(0, 1)).unwrap();
    assert!(legal.is_empty());
}

#[test]
fn legal_moves_allow_interposition() {
    let board = board_with(&[
        (0, 0, Piece::King, Color::White),
        (0, 7, Piece::Queen, Color::White),
        (0, 6, Piece::Rook, Color::Black),
        (1, 6, Piece::Rook, Color::Black),
    ]);
    // The queen may capture the checking rook; the king itself is stuck.
    let queen = board.get_possible_moves(Pos::new_unchecked(0, 7)).unwrap();
    assert!(queen.contains(&cap(0, 7, 0, 6)));
    let king = board.get_possible_moves(Pos::new_unchecked(0, 0)).unwrap();
    assert!(king.is_empty());
}
