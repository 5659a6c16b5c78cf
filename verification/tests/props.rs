use chess_core::{
    Board, Color, Diff, DiffType, Error, InvalidDiff, MoveType, Piece, Pos, RawBoard, Vector,
};

fn board_with(pieces: &[(usize, usize, Piece, Color)]) -> Board {
    let mut raw = RawBoard::default();
    for &(x, y, p, c) in pieces {
        raw.set(Pos::new_unchecked(x, y), p, c);
    }
    Board::with(raw)
}

#[test]
fn position_round_trips_through_vector() {
    for x in 0..8usize {
        for y in 0..8usize {
            let p = Pos::new(x, y).unwrap();
            let v = p.into();
            assert_eq!(v.x, x as i32);
            assert_eq!(v.y, y as i32);
            let back = Pos::try_from(v).unwrap();
            assert_eq!(back, p);
        }
    }
}

#[test]
fn out_of_range_positions_are_rejected() {
    assert!(Pos::new(8, 0).is_err());
    assert!(Pos::new(0, 8).is_err());
    assert!(Pos::new(100, 100).is_err());
    assert!(Pos::try_from(Vector { x: -1, y: 0 }).is_err());
    assert!(Pos::try_from(Vector { x: 0, y: -3 }).is_err());
    assert!(Pos::try_from(Vector { x: 8, y: 0 }).is_err());
    assert!(Pos::try_from(Vector { x: 3, y: 9 }).is_err());
}

#[test]
fn vector_arithmetic() {
    let z = Vector::zero();
    assert_eq!(z, Vector { x: 0, y: 0 });
    let a = Vector { x: 2, y: -1 };
    let b = Vector { x: -3, y: 4 };
    assert_eq!(a.plus(b), Vector { x: -1, y: 3 });
    assert_eq!(a.minus(b), Vector { x: 5, y: -5 });
    assert_eq!(a.scaled(-2), Vector { x: -4, y: 2 });
    assert_eq!(
        Vector { x: 7, y: -7 }.divided_by(2),
        Vector { x: 3, y: -3 }
    );
    assert_eq!(
        Vector { x: 7, y: -7 }.divided_by(-2),
        Vector { x: -3, y: 3 }
    );
    assert_eq!(
        Vector { x: i32::MIN, y: 9 }.divided_by(3),
        Vector { x: i32::MIN / 3, y: 3 }
    );
}

#[test]
fn capture_on_empty_square_fails_without_change() {
    let mut board = board_with(&[
        (0, 0, Piece::Rook, Color::White),
        (5, 5, Piece::Pawn, Color::Black),
    ]);
    let before = board.debug_render();
    let diff = Diff {
        ty: DiffType::Capture { cap: Pos::new_unchecked(4, 4) },
        from: Pos::new_unchecked(0, 0),
        to: Pos::new_unchecked(4, 4),
    };
    let r = board.apply(diff);
    assert_eq!(r, Err(Error::InvalidDiff(InvalidDiff::MoveOnCaptureTy)));
    assert_eq!(board.debug_render(), before);
}

#[test]
fn move_from_empty_square_fails() {
    let mut board = board_with(&[]);
    let diff = Diff {
        ty: DiffType::Move,
        from: Pos::new_unchecked(3, 3),
        to: Pos::new_unchecked(3, 4),
    };
    assert_eq!(board.apply(diff), Err(Error::NoPiece));
}

#[test]
fn move_onto_occupied_square_fails_without_change() {
    let mut board = board_with(&[
        (0, 0, Piece::Rook, Color::White),
        (0, 5, Piece::Pawn, Color::Black),
    ]);
    let before = board.debug_render();
    let diff = Diff {
        ty: DiffType::Move,
        from: Pos::new_unchecked(0, 0),
        to: Pos::new_unchecked(0, 5),
    };
    assert_eq!(
        board.apply(diff),
        Err(Error::InvalidDiff(InvalidDiff::CaptureOnMoveTy))
    );
    assert_eq!(board.debug_render(), before);
}

#[test]
fn apply_move_and_capture_update_the_board() {
    let mut board = board_with(&[
        (0, 0, Piece::Rook, Color::White),
        (0, 5, Piece::Pawn, Color::Black),
    ]);
    let r = board.apply(Diff {
        ty: DiffType::Move,
        from: Pos::new_unchecked(0, 0),
        to: Pos::new_unchecked(0, 3),
    });
    assert_eq!(r, Ok(()));
    assert!(board.get(Pos::new_unchecked(0, 0)).is_err());
    assert_eq!(
        board.get(Pos::new_unchecked(0, 3)),
        Ok((Piece::Rook, Color::White))
    );
    let r = board.apply(Diff {
        ty: DiffType::Capture { cap: Pos::new_unchecked(0, 5) },
        from: Pos::new_unchecked(0, 3),
        to: Pos::new_unchecked(0, 5),
    });
    assert_eq!(r, Ok(()));
    assert!(board.get(Pos::new_unchecked(0, 3)).is_err());
    assert_eq!(
        board.get(Pos::new_unchecked(0, 5)),
        Ok((Piece::Rook, Color::White))
    );
}

#[test]
fn promotion_requires_a_pawn() {
    let mut board = board_with(&[(0, 6, Piece::Rook, Color::White)]);
    let diff = Diff {
        ty: DiffType::Promote { piece: Piece::Queen },
        from: Pos::new_unchecked(0, 6),
        to: Pos::new_unchecked(0, 7),
    };
    assert_eq!(
        board.apply(diff),
        Err(Error::InvalidDiff(InvalidDiff::InvalidPromotionPiece))
    );
}

#[test]
fn promotion_requires_the_right_rank() {
    let mut board = board_with(&[(0, 4, Piece::Pawn, Color::White)]);
    let diff = Diff {
        ty: DiffType::Promote { piece: Piece::Queen },
        from: Pos::new_unchecked(0, 4),
        to: Pos::new_unchecked(0, 5),
    };
    assert_eq!(
        board.apply(diff),
        Err(Error::InvalidDiff(InvalidDiff::InvalidPromotionRow))
    );
}

#[test]
fn promotion_succeeds_on_the_last_rank() {
    let mut board = board_with(&[(0, 6, Piece::Pawn, Color::White)]);
    let diff = Diff {
        ty: DiffType::Promote { piece: Piece::Queen },
        from: Pos::new_unchecked(0, 6),
        to: Pos::new_unchecked(0, 7),
    };
    assert_eq!(board.apply(diff), Ok(()));
    assert!(board.get(Pos::new_unchecked(0, 6)).is_err());
    assert_eq!(
        board.get(Pos::new_unchecked(0, 7)),
        Ok((Piece::Queen, Color::White))
    );

    let mut board = board_with(&[(3, 1, Piece::Pawn, Color::Black)]);
    let diff = Diff {
        ty: DiffType::Promote { piece: Piece::Knight },
        from: Pos::new_unchecked(3, 1),
        to: Pos::new_unchecked(3, 0),
    };
    assert_eq!(board.apply(diff), Ok(()));
    assert_eq!(
        board.get(Pos::new_unchecked(3, 0)),
        Ok((Piece::Knight, Color::Black))
    );
}

#[test]
fn template_tables_have_expected_sizes() {
    assert_eq!(Piece::Pawn.get_moves().len(), 4);
    assert_eq!(Piece::Knight.get_moves().len(), 8);
    assert_eq!(Piece::Bishop.get_moves().len(), 4);
    assert_eq!(Piece::Rook.get_moves().len(), 4);
    assert_eq!(Piece::Queen.get_moves().len(), 8);
    assert_eq!(Piece::King.get_moves().len(), 8);
}

#[test]
fn idents_and_directions() {
    assert_eq!(Piece::Pawn.get_ident(), 'P');
    assert_eq!(Piece::Knight.get_ident(), 'N');
    assert_eq!(Piece::Bishop.get_ident(), 'B');
    assert_eq!(Piece::Rook.get_ident(), 'R');
    assert_eq!(Piece::Queen.get_ident(), 'Q');
    assert_eq!(Piece::King.get_ident(), 'K');
    assert_eq!(Color::White.get_ident(), 'W');
    assert_eq!(Color::Black.get_ident(), 'B');
    assert_eq!(Color::White.dir(), 1);
    assert_eq!(Color::Black.dir(), -1);
    assert!(!MoveType::Move.is_capture());
    assert!(MoveType::Capture.is_capture());
    assert!(MoveType::MoveCapture.is_capture());
    assert!(MoveType::Move.is_normal());
    assert!(!MoveType::Capture.is_normal());
    assert!(MoveType::MoveCapture.is_normal());
}

#[test]
fn iter_reports_every_occupant() {
    let mut raw = RawBoard::default();
    raw.set(Pos::new_unchecked(0, 0), Piece::King, Color::White);
    raw.set(Pos::new_unchecked(7, 7), Piece::King, Color::Black);
    raw.set(Pos::new_unchecked(3, 4), Piece::Queen, Color::White);
    let entries = raw.iter();
    assert_eq!(entries.len(), 3);
    assert!(entries.contains(&(Pos::new_unchecked(0, 0), Piece::King, Color::White)));
    assert!(entries.contains(&(Pos::new_unchecked(7, 7), Piece::King, Color::Black)));
    assert!(entries.contains(&(Pos::new_unchecked(3, 4), Piece::Queen, Color::White)));
}

#[test]
fn render_first_lines_of_initial_board() {
    let board = Board::new();
    let s = board.debug_render();
    let lines: Vec<&str> = s.lines().collect();
    assert_eq!(lines.len(), 16);
    assert_eq!(lines[0], "R. N. B. Q. K. B. N. R. ");
    assert_eq!(lines[1], ".B .B .B .B .B .B .B .B ");
    assert_eq!(lines[2], "P. P. P. P. P. P. P. P. ");
    assert_eq!(lines[3], ".B .B .B .B .B .B .B .B ");
    assert_eq!(lines[4], "__ __ __ __ __ __ __ __ ");
    assert_eq!(lines[14], "R. N. B. Q. K. B. N. R. ");
    assert_eq!(lines[15], ".W .W .W .W .W .W .W .W ");
}

fn piece_of_letter(c: u8) -> Piece {
    match c {
        b'P' => Piece::Pawn,
        b'N' => Piece::Knight,
        b'B' => Piece::Bishop,
        b'R' => Piece::Rook,
        b'Q' => Piece::Queen,
        b'K' => Piece::King,
        _ => panic!("not a piece letter"),
    }
}

fn reconstruct(s: &str) -> Vec<Vec<Option<(Piece, Color)>>> {
    // Plays the part of an outside consumer turning the dump back into an
    // occupancy grid.
    let lines: Vec<&str> = s.lines().collect();
    let mut grid: Vec<Vec<Option<(Piece, Color)>>> = vec![vec![None; 8]; 8];
    for y in 0..8usize {
        let top = lines[2 * (7 - y)].as_bytes();
        let bottom = lines[2 * (7 - y) + 1].as_bytes();
        for x in 0..8usize {
            if top[3 * x] != b'_' {
                let piece = piece_of_letter(top[3 * x]);
                let color = if bottom[3 * x + 1] == b'W' {
                    Color::White
                } else {
                    Color::Black
                };
                grid[y][x] = Some((piece, color));
            }
        }
    }
    grid
}

#[test]
fn render_round_trips_occupancy() {
    let boards = [
        Board::new(),
        board_with(&[
            (0, 0, Piece::King, Color::White),
            (0, 7, Piece::Rook, Color::Black),
            (4, 3, Piece::Bishop, Color::Black),
            (6, 2, Piece::Knight, Color::White),
        ]),
        board_with(&[]),
    ];
    for board in boards.iter() {
        let grid = reconstruct(&board.debug_render());
        for y in 0..8usize {
            for x in 0..8usize {
                let expected = board.get(Pos::new_unchecked(x, y)).ok();
                assert_eq!(grid[y][x], expected);
            }
        }
    }
}
