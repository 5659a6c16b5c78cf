use vstd::prelude::*;

use crate::math::Vector;

verus! {

/// The six piece kinds.
#[derive(Debug, Clone, Copy, PartialEq, Eq, Structural, Hash)]
pub enum Piece {
    King,
    Queen,
    Rook,
    Bishop,
    Knight,
    Pawn,
}

/// The two sides. A color carries a forward direction (see [`Color::dir`])
/// that mirrors move templates at generation time.
#[derive(Debug, Clone, Copy, PartialEq, Eq, Structural, Hash)]
pub enum Color {
    Black,
    White,
}

/// What a template step may do: move to an empty square, capture an
/// occupied one, or either.
#[derive(Debug, Clone, Copy, PartialEq, Eq, Structural, Hash)]
pub enum MoveType {
    Move,
    Capture,
    MoveCapture,
}

/// A move template: the piece it belongs to, the delta per step, the kind
/// of step, and the maximum number of steps (8 means slide until blocked).
#[derive(Debug, Clone, Copy, PartialEq, Eq, Structural, Hash)]
pub struct VMove(pub Piece, pub Vector, pub MoveType, pub u32);

/// The one-letter identifier of a piece kind in renderings.
pub open spec fn piece_ident(p: Piece) -> char {
    match p {
        Piece::Pawn => 'P',
        Piece::Knight => 'N',
        Piece::Bishop => 'B',
        Piece::Rook => 'R',
        Piece::Queen => 'Q',
        Piece::King => 'K',
    }
}

/// The one-letter identifier of a color in renderings.
pub open spec fn color_ident(c: Color) -> char {
    match c {
        Color::White => 'W',
        Color::Black => 'B',
    }
}

/// The forward direction of a color: +1 for White, -1 for Black.
pub open spec fn color_dir(c: Color) -> int {
    match c {
        Color::White => 1,
        Color::Black => -1,
    }
}

/// Every template delta is a unit or knight offset and every distance is
/// between one and the board width.
pub open spec fn template_wf(t: VMove) -> bool {
    &&& -2 <= t.1.x <= 2
    &&& -2 <= t.1.y <= 2
    &&& 1 <= t.3 <= 8
}

impl Piece {
    /// The ordered move templates of this piece kind, stated relative to
    /// White; generation mirrors them by the mover's color direction.
    pub open spec fn move_templates(self) -> Seq<VMove> {
        match self {
            Piece::Pawn => seq![
                VMove(Piece::Pawn, Vector { x: 0i32, y: 1i32 }, MoveType::Move, 1),
                VMove(Piece::Pawn, Vector { x: 0i32, y: 2i32 }, MoveType::Move, 1),
                VMove(Piece::Pawn, Vector { x: 1i32, y: 1i32 }, MoveType::Capture, 1),
                VMove(Piece::Pawn, Vector { x: -1i32, y: 1i32 }, MoveType::Capture, 1),
            ],
            Piece::Knight => seq![
                VMove(Piece::Knight, Vector { x: 1i32, y: -2i32 }, MoveType::MoveCapture, 1),
                VMove(Piece::Knight, Vector { x: 1i32, y: 2i32 }, MoveType::MoveCapture, 1),
                VMove(Piece::Knight, Vector { x: -1i32, y: -2i32 }, MoveType::MoveCapture, 1),
                VMove(Piece::Knight, Vector { x: -1i32, y: 2i32 }, MoveType::MoveCapture, 1),
                VMove(Piece::Knight, Vector { x: 2i32, y: -1i32 }, MoveType::MoveCapture, 1),
                VMove(Piece::Knight, Vector { x: 2i32, y: 1i32 }, MoveType::MoveCapture, 1),
                VMove(Piece::Knight, Vector { x: -2i32, y: -1i32 }, MoveType::MoveCapture, 1),
                VMove(Piece::Knight, Vector { x: -2i32, y: 1i32 }, MoveType::MoveCapture, 1),
            ],
            Piece::Bishop => seq![
                VMove(Piece::Bishop, Vector { x: 1i32, y: 1i32 }, MoveType::MoveCapture, 8),
                VMove(Piece::Bishop, Vector { x: 1i32, y: -1i32 }, MoveType::MoveCapture, 8),
                VMove(Piece::Bishop, Vector { x: -1i32, y: 1i32 }, MoveType::MoveCapture, 8),
                VMove(Piece::Bishop, Vector { x: -1i32, y: -1i32 }, MoveType::MoveCapture, 8),
            ],
            Piece::Rook => seq![
                VMove(Piece::Rook, Vector { x: 1i32, y: 0i32 }, MoveType::MoveCapture, 8),
                VMove(Piece::Rook, Vector { x: -1i32, y: 0i32 }, MoveType::MoveCapture, 8),
                VMove(Piece::Rook, Vector { x: 0i32, y: 1i32 }, MoveType::MoveCapture, 8),
                VMove(Piece::Rook, Vector { x: 0i32, y: -1i32 }, MoveType::MoveCapture, 8),
            ],
            Piece::Queen => seq![
                VMove(Piece::Queen, Vector { x: 1i32, y: 0i32 }, MoveType::MoveCapture, 8),
                VMove(Piece::Queen, Vector { x: -1i32, y: 0i32 }, MoveType::MoveCapture, 8),
                VMove(Piece::Queen, Vector { x: 0i32, y: 1i32 }, MoveType::MoveCapture, 8),
                VMove(Piece::Queen, Vector { x: 0i32, y: -1i32 }, MoveType::MoveCapture, 8),
                VMove(Piece::Queen, Vector { x: 1i32, y: 1i32 }, MoveType::MoveCapture, 8),
                VMove(Piece::Queen, Vector { x: 1i32, y: -1i32 }, MoveType::MoveCapture, 8),
                VMove(Piece::Queen, Vector { x: -1i32, y: 1i32 }, MoveType::MoveCapture, 8),
                VMove(Piece::Queen, Vector { x: -1i32, y: -1i32 }, MoveType::MoveCapture, 8),
            ],
            Piece::King => seq![
                VMove(Piece::King, Vector { x: 1i32, y: 0i32 }, MoveType::MoveCapture, 1),
                VMove(Piece::King, Vector { x: -1i32, y: 0i32 }, MoveType::MoveCapture, 1),
                VMove(Piece::King, Vector { x: 0i32, y: 1i32 }, MoveType::MoveCapture, 1),
                VMove(Piece::King, Vector { x: 0i32, y: -1i32 }, MoveType::MoveCapture, 1),
                VMove(Piece::King, Vector { x: 1i32, y: 1i32 }, MoveType::MoveCapture, 1),
                VMove(Piece::King, Vector { x: 1i32, y: -1i32 }, MoveType::MoveCapture, 1),
                VMove(Piece::King, Vector { x: -1i32, y: 1i32 }, MoveType::MoveCapture, 1),
                VMove(Piece::King, Vector { x: -1i32, y: -1i32 }, MoveType::MoveCapture, 1),
            ],
        }
    }

    pub fn get_ident(self) -> (r: char)
        ensures
            r == piece_ident(self),
    {
        match self {
            Piece::Pawn => 'P',
            Piece::Knight => 'N',
            Piece::Bishop => 'B',
            Piece::Rook => 'R',
            Piece::Queen => 'Q',
            Piece::King => 'K',
        }
    }

    /// The move templates of this piece kind as a vector.
    pub fn get_moves(self) -> (r: Vec<VMove>)
        ensures
            r@ == self.move_templates(),
    {
        let mut v: Vec<VMove> = Vec::new();
        match self {
            Piece::Pawn => {
                v.push(VMove(Piece::Pawn, Vector { x: 0, y: 1 }, MoveType::Move, 1));
                v.push(VMove(Piece::Pawn, Vector { x: 0, y: 2 }, MoveType::Move, 1));
                v.push(VMove(Piece::Pawn, Vector { x: 1, y: 1 }, MoveType::Capture, 1));
                v.push(VMove(Piece::Pawn, Vector { x: -1, y: 1 }, MoveType::Capture, 1));
                proof {
                    assert(v@ =~= self.move_templates());
                }
            }
            Piece::Knight => {
                v.push(VMove(Piece::Knight, Vector { x: 1, y: -2 }, MoveType::MoveCapture, 1));
                v.push(VMove(Piece::Knight, Vector { x: 1, y: 2 }, MoveType::MoveCapture, 1));
                v.push(VMove(Piece::Knight, Vector { x: -1, y: -2 }, MoveType::MoveCapture, 1));
                v.push(VMove(Piece::Knight, Vector { x: -1, y: 2 }, MoveType::MoveCapture, 1));
                v.push(VMove(Piece::Knight, Vector { x: 2, y: -1 }, MoveType::MoveCapture, 1));
                v.push(VMove(Piece::Knight, Vector { x: 2, y: 1 }, MoveType::MoveCapture, 1));
                v.push(VMove(Piece::Knight, Vector { x: -2, y: -1 }, MoveType::MoveCapture, 1));
                v.push(VMove(Piece::Knight, Vector { x: -2, y: 1 }, MoveType::MoveCapture, 1));
                proof {
                    assert(v@ =~= self.move_templates());
                }
            }
            Piece::Bishop => {
                v.push(VMove(Piece::Bishop, Vector { x: 1, y: 1 }, MoveType::MoveCapture, 8));
                v.push(VMove(Piece::Bishop, Vector { x: 1, y: -1 }, MoveType::MoveCapture, 8));
                v.push(VMove(Piece::Bishop, Vector { x: -1, y: 1 }, MoveType::MoveCapture, 8));
                v.push(VMove(Piece::Bishop, Vector { x: -1, y: -1 }, MoveType::MoveCapture, 8));
                proof {
                    assert(v@ =~= self.move_templates());
                }
            }
            Piece::Rook => {
                v.push(VMove(Piece::Rook, Vector { x: 1, y: 0 }, MoveType::MoveCapture, 8));
                v.push(VMove(Piece::Rook, Vector { x: -1, y: 0 }, MoveType::MoveCapture, 8));
                v.push(VMove(Piece::Rook, Vector { x: 0, y: 1 }, MoveType::MoveCapture, 8));
                v.push(VMove(Piece::Rook, Vector { x: 0, y: -1 }, MoveType::MoveCapture, 8));
                proof {
                    assert(v@ =~= self.move_templates());
                }
            }
            Piece::Queen => {
                v.push(VMove(Piece::Queen, Vector { x: 1, y: 0 }, MoveType::MoveCapture, 8));
                v.push(VMove(Piece::Queen, Vector { x: -1, y: 0 }, MoveType::MoveCapture, 8));
                v.push(VMove(Piece::Queen, Vector { x: 0, y: 1 }, MoveType::MoveCapture, 8));
                v.push(VMove(Piece::Queen, Vector { x: 0, y: -1 }, MoveType::MoveCapture, 8));
                v.push(VMove(Piece::Queen, Vector { x: 1, y: 1 }, MoveType::MoveCapture, 8));
                v.push(VMove(Piece::Queen, Vector { x: 1, y: -1 }, MoveType::MoveCapture, 8));
                v.push(VMove(Piece::Queen, Vector { x: -1, y: 1 }, MoveType::MoveCapture, 8));
                v.push(VMove(Piece::Queen, Vector { x: -1, y: -1 }, MoveType::MoveCapture, 8));
                proof {
                    assert(v@ =~= self.move_templates());
                }
            }
            Piece::King => {
                v.push(VMove(Piece::King, Vector { x: 1, y: 0 }, MoveType::MoveCapture, 1));
                v.push(VMove(Piece::King, Vector { x: -1, y: 0 }, MoveType::MoveCapture, 1));
                v.push(VMove(Piece::King, Vector { x: 0, y: 1 }, MoveType::MoveCapture, 1));
                v.push(VMove(Piece::King, Vector { x: 0, y: -1 }, MoveType::MoveCapture, 1));
                v.push(VMove(Piece::King, Vector { x: 1, y: 1 }, MoveType::MoveCapture, 1));
                v.push(VMove(Piece::King, Vector { x: 1, y: -1 }, MoveType::MoveCapture, 1));
                v.push(VMove(Piece::King, Vector { x: -1, y: 1 }, MoveType::MoveCapture, 1));
                v.push(VMove(Piece::King, Vector { x: -1, y: -1 }, MoveType::MoveCapture, 1));
                proof {
                    assert(v@ =~= self.move_templates());
                }
            }
        }
        v
    }
}



/// Two different templates of one piece kind never reach the same offset:
/// within their distances, their deltas scaled by any admissible step
/// counts differ in at least one component.
#[verifier::rlimit(100)]
pub proof fn lemma_templates_separate(p: Piece, i: int, j: int, a: int, b: int)
    requires
        0 <= i < j < p.move_templates().len(),
        1 <= a <= p.move_templates()[i].3,
        1 <= b <= p.move_templates()[j].3,
    ensures
        p.move_templates()[i].1.x * a != p.move_templates()[j].1.x * b
            || p.move_templates()[i].1.y * a != p.move_templates()[j].1.y * b,
{
    match p {
            Piece::Pawn => {
                if i == 0 {
                    if j == 1 {
                        assert(p.move_templates()[0].1.y * a != p.move_templates()[1].1.y * b)
                            by (nonlinear_arith)
                            requires
                                p.move_templates()[0].1.y == 1i32,
                                p.move_templates()[1].1.y == 2i32,
                                1 <= a <= 1,
                                1 <= b <= 1,
                        ;
                    } else if j == 2 {
                        assert(p.move_templates()[0].1.x * a != p.move_templates()[2].1.x * b)
                            by (nonlinear_arith)
                            requires
                                p.move_templates()[0].1.x == 0i32,
                                p.move_templates()[2].1.x == 1i32,
                                1 <= a <= 1,
                                1 <= b <= 1,
                        ;
                    } else if j == 3 {
                        assert(p.move_templates()[0].1.x * a != p.move_templates()[3].1.x * b)
                            by (nonlinear_arith)
                            requires
                                p.move_templates()[0].1.x == 0i32,
                                p.move_templates()[3].1.x == -1i32,
                                1 <= a <= 1,
                                1 <= b <= 1,
                        ;
                    } else {
                    }
                } else if i == 1 {
                    if j == 2 {
                        assert(p.move_templates()[1].1.x * a != p.move_templates()[2].1.x * b)
                            by (nonlinear_arith)
                            requires
                                p.move_templates()[1].1.x == 0i32,
                                p.move_templates()[2].1.x == 1i32,
                                1 <= a <= 1,
                                1 <= b <= 1,
                        ;
                    } else if j == 3 {
                        assert(p.move_templates()[1].1.x * a != p.move_templates()[3].1.x * b)
                            by (nonlinear_arith)
                            requires
                                p.move_templates()[1].1.x == 0i32,
                                p.move_templates()[3].1.x == -1i32,
                                1 <= a <= 1,
                                1 <= b <= 1,
                        ;
                    } else {
                    }
                } else if i == 2 {
                    if j == 3 {
                        assert(p.move_templates()[2].1.x * a != p.move_templates()[3].1.x * b)
                            by (nonlinear_arith)
                            requires
                                p.move_templates()[2].1.x == 1i32,
                                p.move_templates()[3].1.x == -1i32,
                                1 <= a <= 1,
                                1 <= b <= 1,
                        ;
                    } else {
                    }
                } else {
                }
            },
            Piece::Knight => {
                if i == 0 {
                    if j == 1 {
                        assert(p.move_templates()[0].1.y * a != p.move_templates()[1].1.y * b)
                            by (nonlinear_arith)
                            requires
                                p.move_templates()[0].1.y == -2i32,
                                p.move_templates()[1].1.y == 2i32,
                                1 <= a <= 1,
                                1 <= b <= 1,
                        ;
                    } else if j == 2 {
                        assert(p.move_templates()[0].1.x * a != p.move_templates()[2].1.x * b)
                            by (nonlinear_arith)
                            requires
                                p.move_templates()[0].1.x == 1i32,
                                p.move_templates()[2].1.x == -1i32,
                                1 <= a <= 1,
                                1 <= b <= 1,
                        ;
                    } else if j == 3 {
                        assert(p.move_templates()[0].1.x * a != p.move_templates()[3].1.x * b)
                            by (nonlinear_arith)
                            requires
                                p.move_templates()[0].1.x == 1i32,
                                p.move_templates()[3].1.x == -1i32,
                                1 <= a <= 1,
                                1 <= b <= 1,
                        ;
                    } else if j == 4 {
                        assert(p.move_templates()[0].1.x * a != p.move_templates()[4].1.x * b)
                            by (nonlinear_arith)
                            requires
                                p.move_templates()[0].1.x == 1i32,
                                p.move_templates()[4].1.x == 2i32,
                                1 <= a <= 1,
                                1 <= b <= 1,
                        ;
                    } else if j == 5 {
                        assert(p.move_templates()[0].1.x * a != p.move_templates()[5].1.x * b)
                            by (nonlinear_arith)
                            requires
                                p.move_templates()[0].1.x == 1i32,
                                p.move_templates()[5].1.x == 2i32,
                                1 <= a <= 1,
                                1 <= b <= 1,
                        ;
                    } else if j == 6 {
                        assert(p.move_templates()[0].1.x * a != p.move_templates()[6].1.x * b)
                            by (nonlinear_arith)
                            requires
                                p.move_templates()[0].1.x == 1i32,
                                p.move_templates()[6].1.x == -2i32,
                                1 <= a <= 1,
                                1 <= b <= 1,
                        ;
                    } else if j == 7 {
                        assert(p.move_templates()[0].1.x * a != p.move_templates()[7].1.x * b)
                            by (nonlinear_arith)
                            requires
                                p.move_templates()[0].1.x == 1i32,
                                p.move_templates()[7].1.x == -2i32,
                                1 <= a <= 1,
                                1 <= b <= 1,
                        ;
                    } else {
                    }
                } else if i == 1 {
                    if j == 2 {
                        assert(p.move_templates()[1].1.x * a != p.move_templates()[2].1.x * b)
                            by (nonlinear_arith)
                            requires
                                p.move_templates()[1].1.x == 1i32,
                                p.move_templates()[2].1.x == -1i32,
                                1 <= a <= 1,
                                1 <= b <= 1,
                        ;
                    } else if j == 3 {
                        assert(p.move_templates()[1].1.x * a != p.move_templates()[3].1.x * b)
                            by (nonlinear_arith)
                            requires
                                p.move_templates()[1].1.x == 1i32,
                                p.move_templates()[3].1.x == -1i32,
                                1 <= a <= 1,
                                1 <= b <= 1,
                        ;
                    } else if j == 4 {
                        assert(p.move_templates()[1].1.x * a != p.move_templates()[4].1.x * b)
                            by (nonlinear_arith)
                            requires
                                p.move_templates()[1].1.x == 1i32,
                                p.move_templates()[4].1.x == 2i32,
                                1 <= a <= 1,
                                1 <= b <= 1,
                        ;
                    } else if j == 5 {
                        assert(p.move_templates()[1].1.x * a != p.move_templates()[5].1.x * b)
                            by (nonlinear_arith)
                            requires
                                p.move_templates()[1].1.x == 1i32,
                                p.move_templates()[5].1.x == 2i32,
                                1 <= a <= 1,
                                1 <= b <= 1,
                        ;
                    } else if j == 6 {
                        assert(p.move_templates()[1].1.x * a != p.move_templates()[6].1.x * b)
                            by (nonlinear_arith)
                            requires
                                p.move_templates()[1].1.x == 1i32,
                                p.move_templates()[6].1.x == -2i32,
                                1 <= a <= 1,
                                1 <= b <= 1,
                        ;
                    } else if j == 7 {
                        assert(p.move_templates()[1].1.x * a != p.move_templates()[7].1.x * b)
                            by (nonlinear_arith)
                            requires
                                p.move_templates()[1].1.x == 1i32,
                                p.move_templates()[7].1.x == -2i32,
                                1 <= a <= 1,
                                1 <= b <= 1,
                        ;
                    } else {
                    }
                } else if i == 2 {
                    if j == 3 {
                        assert(p.move_templates()[2].1.y * a != p.move_templates()[3].1.y * b)
                            by (nonlinear_arith)
                            requires
                                p.move_templates()[2].1.y == -2i32,
                                p.move_templates()[3].1.y == 2i32,
                                1 <= a <= 1,
                                1 <= b <= 1,
                        ;
                    } else if j == 4 {
                        assert(p.move_templates()[2].1.x * a != p.move_templates()[4].1.x * b)
                            by (nonlinear_arith)
                            requires
                                p.move_templates()[2].1.x == -1i32,
                                p.move_templates()[4].1.x == 2i32,
                                1 <= a <= 1,
                                1 <= b <= 1,
                        ;
                    } else if j == 5 {
                        assert(p.move_templates()[2].1.x * a != p.move_templates()[5].1.x * b)
                            by (nonlinear_arith)
                            requires
                                p.move_templates()[2].1.x == -1i32,
                                p.move_templates()[5].1.x == 2i32,
                                1 <= a <= 1,
                                1 <= b <= 1,
                        ;
                    } else if j == 6 {
                        assert(p.move_templates()[2].1.x * a != p.move_templates()[6].1.x * b)
                            by (nonlinear_arith)
                            requires
                                p.move_templates()[2].1.x == -1i32,
                                p.move_templates()[6].1.x == -2i32,
                                1 <= a <= 1,
                                1 <= b <= 1,
                        ;
                    } else if j == 7 {
                        assert(p.move_templates()[2].1.x * a != p.move_templates()[7].1.x * b)
                            by (nonlinear_arith)
                            requires
                                p.move_templates()[2].1.x == -1i32,
                                p.move_templates()[7].1.x == -2i32,
                                1 <= a <= 1,
                                1 <= b <= 1,
                        ;
                    } else {
                    }
                } else if i == 3 {
                    if j == 4 {
                        assert(p.move_templates()[3].1.x * a != p.move_templates()[4].1.x * b)
                            by (nonlinear_arith)
                            requires
                                p.move_templates()[3].1.x == -1i32,
                                p.move_templates()[4].1.x == 2i32,
                                1 <= a <= 1,
                                1 <= b <= 1,
                        ;
                    } else if j == 5 {
                        assert(p.move_templates()[3].1.x * a != p.move_templates()[5].1.x * b)
                            by (nonlinear_arith)
                            requires
                                p.move_templates()[3].1.x == -1i32,
                                p.move_templates()[5].1.x == 2i32,
                                1 <= a <= 1,
                                1 <= b <= 1,
                        ;
                    } else if j == 6 {
                        assert(p.move_templates()[3].1.x * a != p.move_templates()[6].1.x * b)
                            by (nonlinear_arith)
                            requires
                                p.move_templates()[3].1.x == -1i32,
                                p.move_templates()[6].1.x == -2i32,
                                1 <= a <= 1,
                                1 <= b <= 1,
                        ;
                    } else if j == 7 {
                        assert(p.move_templates()[3].1.x * a != p.move_templates()[7].1.x * b)
                            by (nonlinear_arith)
                            requires
                                p.move_templates()[3].1.x == -1i32,
                                p.move_templates()[7].1.x == -2i32,
                                1 <= a <= 1,
                                1 <= b <= 1,
                        ;
                    } else {
                    }
                } else if i == 4 {
                    if j == 5 {
                        assert(p.move_templates()[4].1.y * a != p.move_templates()[5].1.y * b)
                            by (nonlinear_arith)
                            requires
                                p.move_templates()[4].1.y == -1i32,
                                p.move_templates()[5].1.y == 1i32,
                                1 <= a <= 1,
                                1 <= b <= 1,
                        ;
                    } else if j == 6 {
                        assert(p.move_templates()[4].1.x * a != p.move_templates()[6].1.x * b)
                            by (nonlinear_arith)
                            requires
                                p.move_templates()[4].1.x == 2i32,
                                p.move_templates()[6].1.x == -2i32,
                                1 <= a <= 1,
                                1 <= b <= 1,
                        ;
                    } else if j == 7 {
                        assert(p.move_templates()[4].1.x * a != p.move_templates()[7].1.x * b)
                            by (nonlinear_arith)
                            requires
                                p.move_templates()[4].1.x == 2i32,
                                p.move_templates()[7].1.x == -2i32,
                                1 <= a <= 1,
                                1 <= b <= 1,
                        ;
                    } else {
                    }
                } else if i == 5 {
                    if j == 6 {
                        assert(p.move_templates()[5].1.x * a != p.move_templates()[6].1.x * b)
                            by (nonlinear_arith)
                            requires
                                p.move_templates()[5].1.x == 2i32,
                                p.move_templates()[6].1.x == -2i32,
                                1 <= a <= 1,
                                1 <= b <= 1,
                        ;
                    } else if j == 7 {
                        assert(p.move_templates()[5].1.x * a != p.move_templates()[7].1.x * b)
                            by (nonlinear_arith)
                            requires
                                p.move_templates()[5].1.x == 2i32,
                                p.move_templates()[7].1.x == -2i32,
                                1 <= a <= 1,
                                1 <= b <= 1,
                        ;
                    } else {
                    }
                } else if i == 6 {
                    if j == 7 {
                        assert(p.move_templates()[6].1.y * a != p.move_templates()[7].1.y * b)
                            by (nonlinear_arith)
                            requires
                                p.move_templates()[6].1.y == -1i32,
                                p.move_templates()[7].1.y == 1i32,
                                1 <= a <= 1,
                                1 <= b <= 1,
                        ;
                    } else {
                    }
                } else {
                }
            },
            Piece::Bishop => {
                if i == 0 {
                    if j == 1 {
                        assert(p.move_templates()[0].1.y * a != p.move_templates()[1].1.y * b)
                            by (nonlinear_arith)
                            requires
                                p.move_templates()[0].1.y == 1i32,
                                p.move_templates()[1].1.y == -1i32,
                                1 <= a <= 8,
                                1 <= b <= 8,
                        ;
                    } else if j == 2 {
                        assert(p.move_templates()[0].1.x * a != p.move_templates()[2].1.x * b)
                            by (nonlinear_arith)
                            requires
                                p.move_templates()[0].1.x == 1i32,
                                p.move_templates()[2].1.x == -1i32,
                                1 <= a <= 8,
                                1 <= b <= 8,
                        ;
                    } else if j == 3 {
                        assert(p.move_templates()[0].1.x * a != p.move_templates()[3].1.x * b)
                            by (nonlinear_arith)
                            requires
                                p.move_templates()[0].1.x == 1i32,
                                p.move_templates()[3].1.x == -1i32,
                                1 <= a <= 8,
                                1 <= b <= 8,
                        ;
                    } else {
                    }
                } else if i == 1 {
                    if j == 2 {
                        assert(p.move_templates()[1].1.x * a != p.move_templates()[2].1.x * b)
                            by (nonlinear_arith)
                            requires
                                p.move_templates()[1].1.x == 1i32,
                                p.move_templates()[2].1.x == -1i32,
                                1 <= a <= 8,
                                1 <= b <= 8,
                        ;
                    } else if j == 3 {
                        assert(p.move_templates()[1].1.x * a != p.move_templates()[3].1.x * b)
                            by (nonlinear_arith)
                            requires
                                p.move_templates()[1].1.x == 1i32,
                                p.move_templates()[3].1.x == -1i32,
                                1 <= a <= 8,
                                1 <= b <= 8,
                        ;
                    } else {
                    }
                } else if i == 2 {
                    if j == 3 {
                        assert(p.move_templates()[2].1.y * a != p.move_templates()[3].1.y * b)
                            by (nonlinear_arith)
                            requires
                                p.move_templates()[2].1.y == 1i32,
                                p.move_templates()[3].1.y == -1i32,
                                1 <= a <= 8,
                                1 <= b <= 8,
                        ;
                    } else {
                    }
                } else {
                }
            },
            Piece::Rook => {
                if i == 0 {
                    if j == 1 {
                        assert(p.move_templates()[0].1.x * a != p.move_templates()[1].1.x * b)
                            by (nonlinear_arith)
                            requires
                                p.move_templates()[0].1.x == 1i32,
                                p.move_templates()[1].1.x == -1i32,
                                1 <= a <= 8,
                                1 <= b <= 8,
                        ;
                    } else if j == 2 {
                        assert(p.move_templates()[0].1.x * a != p.move_templates()[2].1.x * b)
                            by (nonlinear_arith)
                            requires
                                p.move_templates()[0].1.x == 1i32,
                                p.move_templates()[2].1.x == 0i32,
                                1 <= a <= 8,
                                1 <= b <= 8,
                        ;
                    } else if j == 3 {
                        assert(p.move_templates()[0].1.x * a != p.move_templates()[3].1.x * b)
                            by (nonlinear_arith)
                            requires
                                p.move_templates()[0].1.x == 1i32,
                                p.move_templates()[3].1.x == 0i32,
                                1 <= a <= 8,
                                1 <= b <= 8,
                        ;
                    } else {
                    }
                } else if i == 1 {
                    if j == 2 {
                        assert(p.move_templates()[1].1.x * a != p.move_templates()[2].1.x * b)
                            by (nonlinear_arith)
                            requires
                                p.move_templates()[1].1.x == -1i32,
                                p.move_templates()[2].1.x == 0i32,
                                1 <= a <= 8,
                                1 <= b <= 8,
                        ;
                    } else if j == 3 {
                        assert(p.move_templates()[1].1.x * a != p.move_templates()[3].1.x * b)
                            by (nonlinear_arith)
                            requires
                                p.move_templates()[1].1.x == -1i32,
                                p.move_templates()[3].1.x == 0i32,
                                1 <= a <= 8,
                                1 <= b <= 8,
                        ;
                    } else {
                    }
                } else if i == 2 {
                    if j == 3 {
                        assert(p.move_templates()[2].1.y * a != p.move_templates()[3].1.y * b)
                            by (nonlinear_arith)
                            requires
                                p.move_templates()[2].1.y == 1i32,
                                p.move_templates()[3].1.y == -1i32,
                                1 <= a <= 8,
                                1 <= b <= 8,
                        ;
                    } else {
                    }
                } else {
                }
            },
            Piece::Queen => {
                if i == 0 {
                    if j == 1 {
                        assert(p.move_templates()[0].1.x * a != p.move_templates()[1].1.x * b)
                            by (nonlinear_arith)
                            requires
                                p.move_templates()[0].1.x == 1i32,
                                p.move_templates()[1].1.x == -1i32,
                                1 <= a <= 8,
                                1 <= b <= 8,
                        ;
                    } else if j == 2 {
                        assert(p.move_templates()[0].1.x * a != p.move_templates()[2].1.x * b)
                            by (nonlinear_arith)
                            requires
                                p.move_templates()[0].1.x == 1i32,
                                p.move_templates()[2].1.x == 0i32,
                                1 <= a <= 8,
                                1 <= b <= 8,
                        ;
                    } else if j == 3 {
                        assert(p.move_templates()[0].1.x * a != p.move_templates()[3].1.x * b)
                            by (nonlinear_arith)
                            requires
                                p.move_templates()[0].1.x == 1i32,
                                p.move_templates()[3].1.x == 0i32,
                                1 <= a <= 8,
                                1 <= b <= 8,
                        ;
                    } else if j == 4 {
                        assert(p.move_templates()[0].1.y * a != p.move_templates()[4].1.y * b)
                            by (nonlinear_arith)
                            requires
                                p.move_templates()[0].1.y == 0i32,
                                p.move_templates()[4].1.y == 1i32,
                                1 <= a <= 8,
                                1 <= b <= 8,
                        ;
                    } else if j == 5 {
                        assert(p.move_templates()[0].1.y * a != p.move_templates()[5].1.y * b)
                            by (nonlinear_arith)
                            requires
                                p.move_templates()[0].1.y == 0i32,
                                p.move_templates()[5].1.y == -1i32,
                                1 <= a <= 8,
                                1 <= b <= 8,
                        ;
                    } else if j == 6 {
                        assert(p.move_templates()[0].1.x * a != p.move_templates()[6].1.x * b)
                            by (nonlinear_arith)
                            requires
                                p.move_templates()[0].1.x == 1i32,
                                p.move_templates()[6].1.x == -1i32,
                                1 <= a <= 8,
                                1 <= b <= 8,
                        ;
                    } else if j == 7 {
                        assert(p.move_templates()[0].1.x * a != p.move_templates()[7].1.x * b)
                            by (nonlinear_arith)
                            requires
                                p.move_templates()[0].1.x == 1i32,
                                p.move_templates()[7].1.x == -1i32,
                                1 <= a <= 8,
                                1 <= b <= 8,
                        ;
                    } else {
                    }
                } else if i == 1 {
                    if j == 2 {
                        assert(p.move_templates()[1].1.x * a != p.move_templates()[2].1.x * b)
                            by (nonlinear_arith)
                            requires
                                p.move_templates()[1].1.x == -1i32,
                                p.move_templates()[2].1.x == 0i32,
                                1 <= a <= 8,
                                1 <= b <= 8,
                        ;
                    } else if j == 3 {
                        assert(p.move_templates()[1].1.x * a != p.move_templates()[3].1.x * b)
                            by (nonlinear_arith)
                            requires
                                p.move_templates()[1].1.x == -1i32,
                                p.move_templates()[3].1.x == 0i32,
                                1 <= a <= 8,
                                1 <= b <= 8,
                        ;
                    } else if j == 4 {
                        assert(p.move_templates()[1].1.x * a != p.move_templates()[4].1.x * b)
                            by (nonlinear_arith)
                            requires
                                p.move_templates()[1].1.x == -1i32,
                                p.move_templates()[4].1.x == 1i32,
                                1 <= a <= 8,
                                1 <= b <= 8,
                        ;
                    } else if j == 5 {
                        assert(p.move_templates()[1].1.x * a != p.move_templates()[5].1.x * b)
                            by (nonlinear_arith)
                            requires
                                p.move_templates()[1].1.x == -1i32,
                                p.move_templates()[5].1.x == 1i32,
                                1 <= a <= 8,
                                1 <= b <= 8,
                        ;
                    } else if j == 6 {
                        assert(p.move_templates()[1].1.y * a != p.move_templates()[6].1.y * b)
                            by (nonlinear_arith)
                            requires
                                p.move_templates()[1].1.y == 0i32,
                                p.move_templates()[6].1.y == 1i32,
                                1 <= a <= 8,
                                1 <= b <= 8,
                        ;
                    } else if j == 7 {
                        assert(p.move_templates()[1].1.y * a != p.move_templates()[7].1.y * b)
                            by (nonlinear_arith)
                            requires
                                p.move_templates()[1].1.y == 0i32,
                                p.move_templates()[7].1.y == -1i32,
                                1 <= a <= 8,
                                1 <= b <= 8,
                        ;
                    } else {
                    }
                } else if i == 2 {
                    if j == 3 {
                        assert(p.move_templates()[2].1.y * a != p.move_templates()[3].1.y * b)
                            by (nonlinear_arith)
                            requires
                                p.move_templates()[2].1.y == 1i32,
                                p.move_templates()[3].1.y == -1i32,
                                1 <= a <= 8,
                                1 <= b <= 8,
                        ;
                    } else if j == 4 {
                        assert(p.move_templates()[2].1.x * a != p.move_templates()[4].1.x * b)
                            by (nonlinear_arith)
                            requires
                                p.move_templates()[2].1.x == 0i32,
                                p.move_templates()[4].1.x == 1i32,
                                1 <= a <= 8,
                                1 <= b <= 8,
                        ;
                    } else if j == 5 {
                        assert(p.move_templates()[2].1.x * a != p.move_templates()[5].1.x * b)
                            by (nonlinear_arith)
                            requires
                                p.move_templates()[2].1.x == 0i32,
                                p.move_templates()[5].1.x == 1i32,
                                1 <= a <= 8,
                                1 <= b <= 8,
                        ;
                    } else if j == 6 {
                        assert(p.move_templates()[2].1.x * a != p.move_templates()[6].1.x * b)
                            by (nonlinear_arith)
                            requires
                                p.move_templates()[2].1.x == 0i32,
                                p.move_templates()[6].1.x == -1i32,
                                1 <= a <= 8,
                                1 <= b <= 8,
                        ;
                    } else if j == 7 {
                        assert(p.move_templates()[2].1.x * a != p.move_templates()[7].1.x * b)
                            by (nonlinear_arith)
                            requires
                                p.move_templates()[2].1.x == 0i32,
                                p.move_templates()[7].1.x == -1i32,
                                1 <= a <= 8,
                                1 <= b <= 8,
                        ;
                    } else {
                    }
                } else if i == 3 {
                    if j == 4 {
                        assert(p.move_templates()[3].1.x * a != p.move_templates()[4].1.x * b)
                            by (nonlinear_arith)
                            requires
                                p.move_templates()[3].1.x == 0i32,
                                p.move_templates()[4].1.x == 1i32,
                                1 <= a <= 8,
                                1 <= b <= 8,
                        ;
                    } else if j == 5 {
                        assert(p.move_templates()[3].1.x * a != p.move_templates()[5].1.x * b)
                            by (nonlinear_arith)
                            requires
                                p.move_templates()[3].1.x == 0i32,
                                p.move_templates()[5].1.x == 1i32,
                                1 <= a <= 8,
                                1 <= b <= 8,
                        ;
                    } else if j == 6 {
                        assert(p.move_templates()[3].1.x * a != p.move_templates()[6].1.x * b)
                            by (nonlinear_arith)
                            requires
                                p.move_templates()[3].1.x == 0i32,
                                p.move_templates()[6].1.x == -1i32,
                                1 <= a <= 8,
                                1 <= b <= 8,
                        ;
                    } else if j == 7 {
                        assert(p.move_templates()[3].1.x * a != p.move_templates()[7].1.x * b)
                            by (nonlinear_arith)
                            requires
                                p.move_templates()[3].1.x == 0i32,
                                p.move_templates()[7].1.x == -1i32,
                                1 <= a <= 8,
                                1 <= b <= 8,
                        ;
                    } else {
                    }
                } else if i == 4 {
                    if j == 5 {
                        assert(p.move_templates()[4].1.y * a != p.move_templates()[5].1.y * b)
                            by (nonlinear_arith)
                            requires
                                p.move_templates()[4].1.y == 1i32,
                                p.move_templates()[5].1.y == -1i32,
                                1 <= a <= 8,
                                1 <= b <= 8,
                        ;
                    } else if j == 6 {
                        assert(p.move_templates()[4].1.x * a != p.move_templates()[6].1.x * b)
                            by (nonlinear_arith)
                            requires
                                p.move_templates()[4].1.x == 1i32,
                                p.move_templates()[6].1.x == -1i32,
                                1 <= a <= 8,
                                1 <= b <= 8,
                        ;
                    } else if j == 7 {
                        assert(p.move_templates()[4].1.x * a != p.move_templates()[7].1.x * b)
                            by (nonlinear_arith)
                            requires
                                p.move_templates()[4].1.x == 1i32,
                                p.move_templates()[7].1.x == -1i32,
                                1 <= a <= 8,
                                1 <= b <= 8,
                        ;
                    } else {
                    }
                } else if i == 5 {
                    if j == 6 {
                        assert(p.move_templates()[5].1.x * a != p.move_templates()[6].1.x * b)
                            by (nonlinear_arith)
                            requires
                                p.move_templates()[5].1.x == 1i32,
                                p.move_templates()[6].1.x == -1i32,
                                1 <= a <= 8,
                                1 <= b <= 8,
                        ;
                    } else if j == 7 {
                        assert(p.move_templates()[5].1.x * a != p.move_templates()[7].1.x * b)
                            by (nonlinear_arith)
                            requires
                                p.move_templates()[5].1.x == 1i32,
                                p.move_templates()[7].1.x == -1i32,
                                1 <= a <= 8,
                                1 <= b <= 8,
                        ;
                    } else {
                    }
                } else if i == 6 {
                    if j == 7 {
                        assert(p.move_templates()[6].1.y * a != p.move_templates()[7].1.y * b)
                            by (nonlinear_arith)
                            requires
                                p.move_templates()[6].1.y == 1i32,
                                p.move_templates()[7].1.y == -1i32,
                                1 <= a <= 8,
                                1 <= b <= 8,
                        ;
                    } else {
                    }
                } else {
                }
            },
            Piece::King => {
                if i == 0 {
                    if j == 1 {
                        assert(p.move_templates()[0].1.x * a != p.move_templates()[1].1.x * b)
                            by (nonlinear_arith)
                            requires
                                p.move_templates()[0].1.x == 1i32,
                                p.move_templates()[1].1.x == -1i32,
                                1 <= a <= 1,
                                1 <= b <= 1,
                        ;
                    } else if j == 2 {
                        assert(p.move_templates()[0].1.x * a != p.move_templates()[2].1.x * b)
                            by (nonlinear_arith)
                            requires
                                p.move_templates()[0].1.x == 1i32,
                                p.move_templates()[2].1.x == 0i32,
                                1 <= a <= 1,
                                1 <= b <= 1,
                        ;
                    } else if j == 3 {
                        assert(p.move_templates()[0].1.x * a != p.move_templates()[3].1.x * b)
                            by (nonlinear_arith)
                            requires
                                p.move_templates()[0].1.x == 1i32,
                                p.move_templates()[3].1.x == 0i32,
                                1 <= a <= 1,
                                1 <= b <= 1,
                        ;
                    } else if j == 4 {
                        assert(p.move_templates()[0].1.y * a != p.move_templates()[4].1.y * b)
                            by (nonlinear_arith)
                            requires
                                p.move_templates()[0].1.y == 0i32,
                                p.move_templates()[4].1.y == 1i32,
                                1 <= a <= 1,
                                1 <= b <= 1,
                        ;
                    } else if j == 5 {
                        assert(p.move_templates()[0].1.y * a != p.move_templates()[5].1.y * b)
                            by (nonlinear_arith)
                            requires
                                p.move_templates()[0].1.y == 0i32,
                                p.move_templates()[5].1.y == -1i32,
                                1 <= a <= 1,
                                1 <= b <= 1,
                        ;
                    } else if j == 6 {
                        assert(p.move_templates()[0].1.x * a != p.move_templates()[6].1.x * b)
                            by (nonlinear_arith)
                            requires
                                p.move_templates()[0].1.x == 1i32,
                                p.move_templates()[6].1.x == -1i32,
                                1 <= a <= 1,
                                1 <= b <= 1,
                        ;
                    } else if j == 7 {
                        assert(p.move_templates()[0].1.x * a != p.move_templates()[7].1.x * b)
                            by (nonlinear_arith)
                            requires
                                p.move_templates()[0].1.x == 1i32,
                                p.move_templates()[7].1.x == -1i32,
                                1 <= a <= 1,
                                1 <= b <= 1,
                        ;
                    } else {
                    }
                } else if i == 1 {
                    if j == 2 {
                        assert(p.move_templates()[1].1.x * a != p.move_templates()[2].1.x * b)
                            by (nonlinear_arith)
                            requires
                                p.move_templates()[1].1.x == -1i32,
                                p.move_templates()[2].1.x == 0i32,
                                1 <= a <= 1,
                                1 <= b <= 1,
                        ;
                    } else if j == 3 {
                        assert(p.move_templates()[1].1.x * a != p.move_templates()[3].1.x * b)
                            by (nonlinear_arith)
                            requires
                                p.move_templates()[1].1.x == -1i32,
                                p.move_templates()[3].1.x == 0i32,
                                1 <= a <= 1,
                                1 <= b <= 1,
                        ;
                    } else if j == 4 {
                        assert(p.move_templates()[1].1.x * a != p.move_templates()[4].1.x * b)
                            by (nonlinear_arith)
                            requires
                                p.move_templates()[1].1.x == -1i32,
                                p.move_templates()[4].1.x == 1i32,
                                1 <= a <= 1,
                                1 <= b <= 1,
                        ;
                    } else if j == 5 {
                        assert(p.move_templates()[1].1.x * a != p.move_templates()[5].1.x * b)
                            by (nonlinear_arith)
                            requires
                                p.move_templates()[1].1.x == -1i32,
                                p.move_templates()[5].1.x == 1i32,
                                1 <= a <= 1,
                                1 <= b <= 1,
                        ;
                    } else if j == 6 {
                        assert(p.move_templates()[1].1.y * a != p.move_templates()[6].1.y * b)
                            by (nonlinear_arith)
                            requires
                                p.move_templates()[1].1.y == 0i32,
                                p.move_templates()[6].1.y == 1i32,
                                1 <= a <= 1,
                                1 <= b <= 1,
                        ;
                    } else if j == 7 {
                        assert(p.move_templates()[1].1.y * a != p.move_templates()[7].1.y * b)
                            by (nonlinear_arith)
                            requires
                                p.move_templates()[1].1.y == 0i32,
                                p.move_templates()[7].1.y == -1i32,
                                1 <= a <= 1,
                                1 <= b <= 1,
                        ;
                    } else {
                    }
                } else if i == 2 {
                    if j == 3 {
                        assert(p.move_templates()[2].1.y * a != p.move_templates()[3].1.y * b)
                            by (nonlinear_arith)
                            requires
                                p.move_templates()[2].1.y == 1i32,
                                p.move_templates()[3].1.y == -1i32,
                                1 <= a <= 1,
                                1 <= b <= 1,
                        ;
                    } else if j == 4 {
                        assert(p.move_templates()[2].1.x * a != p.move_templates()[4].1.x * b)
                            by (nonlinear_arith)
                            requires
                                p.move_templates()[2].1.x == 0i32,
                                p.move_templates()[4].1.x == 1i32,
                                1 <= a <= 1,
                                1 <= b <= 1,
                        ;
                    } else if j == 5 {
                        assert(p.move_templates()[2].1.x * a != p.move_templates()[5].1.x * b)
                            by (nonlinear_arith)
                            requires
                                p.move_templates()[2].1.x == 0i32,
                                p.move_templates()[5].1.x == 1i32,
                                1 <= a <= 1,
                                1 <= b <= 1,
                        ;
                    } else if j == 6 {
                        assert(p.move_templates()[2].1.x * a != p.move_templates()[6].1.x * b)
                            by (nonlinear_arith)
                            requires
                                p.move_templates()[2].1.x == 0i32,
                                p.move_templates()[6].1.x == -1i32,
                                1 <= a <= 1,
                                1 <= b <= 1,
                        ;
                    } else if j == 7 {
                        assert(p.move_templates()[2].1.x * a != p.move_templates()[7].1.x * b)
                            by (nonlinear_arith)
                            requires
                                p.move_templates()[2].1.x == 0i32,
                                p.move_templates()[7].1.x == -1i32,
                                1 <= a <= 1,
                                1 <= b <= 1,
                        ;
                    } else {
                    }
                } else if i == 3 {
                    if j == 4 {
                        assert(p.move_templates()[3].1.x * a != p.move_templates()[4].1.x * b)
                            by (nonlinear_arith)
                            requires
                                p.move_templates()[3].1.x == 0i32,
                                p.move_templates()[4].1.x == 1i32,
                                1 <= a <= 1,
                                1 <= b <= 1,
                        ;
                    } else if j == 5 {
                        assert(p.move_templates()[3].1.x * a != p.move_templates()[5].1.x * b)
                            by (nonlinear_arith)
                            requires
                                p.move_templates()[3].1.x == 0i32,
                                p.move_templates()[5].1.x == 1i32,
                                1 <= a <= 1,
                                1 <= b <= 1,
                        ;
                    } else if j == 6 {
                        assert(p.move_templates()[3].1.x * a != p.move_templates()[6].1.x * b)
                            by (nonlinear_arith)
                            requires
                                p.move_templates()[3].1.x == 0i32,
                                p.move_templates()[6].1.x == -1i32,
                                1 <= a <= 1,
                                1 <= b <= 1,
                        ;
                    } else if j == 7 {
                        assert(p.move_templates()[3].1.x * a != p.move_templates()[7].1.x * b)
                            by (nonlinear_arith)
                            requires
                                p.move_templates()[3].1.x == 0i32,
                                p.move_templates()[7].1.x == -1i32,
                                1 <= a <= 1,
                                1 <= b <= 1,
                        ;
                    } else {
                    }
                } else if i == 4 {
                    if j == 5 {
                        assert(p.move_templates()[4].1.y * a != p.move_templates()[5].1.y * b)
                            by (nonlinear_arith)
                            requires
                                p.move_templates()[4].1.y == 1i32,
                                p.move_templates()[5].1.y == -1i32,
                                1 <= a <= 1,
                                1 <= b <= 1,
                        ;
                    } else if j == 6 {
                        assert(p.move_templates()[4].1.x * a != p.move_templates()[6].1.x * b)
                            by (nonlinear_arith)
                            requires
                                p.move_templates()[4].1.x == 1i32,
                                p.move_templates()[6].1.x == -1i32,
                                1 <= a <= 1,
                                1 <= b <= 1,
                        ;
                    } else if j == 7 {
                        assert(p.move_templates()[4].1.x * a != p.move_templates()[7].1.x * b)
                            by (nonlinear_arith)
                            requires
                                p.move_templates()[4].1.x == 1i32,
                                p.move_templates()[7].1.x == -1i32,
                                1 <= a <= 1,
                                1 <= b <= 1,
                        ;
                    } else {
                    }
                } else if i == 5 {
                    if j == 6 {
                        assert(p.move_templates()[5].1.x * a != p.move_templates()[6].1.x * b)
                            by (nonlinear_arith)
                            requires
                                p.move_templates()[5].1.x == 1i32,
                                p.move_templates()[6].1.x == -1i32,
                                1 <= a <= 1,
                                1 <= b <= 1,
                        ;
                    } else if j == 7 {
                        assert(p.move_templates()[5].1.x * a != p.move_templates()[7].1.x * b)
                            by (nonlinear_arith)
                            requires
                                p.move_templates()[5].1.x == 1i32,
                                p.move_templates()[7].1.x == -1i32,
                                1 <= a <= 1,
                                1 <= b <= 1,
                        ;
                    } else {
                    }
                } else if i == 6 {
                    if j == 7 {
                        assert(p.move_templates()[6].1.y * a != p.move_templates()[7].1.y * b)
                            by (nonlinear_arith)
                            requires
                                p.move_templates()[6].1.y == 1i32,
                                p.move_templates()[7].1.y == -1i32,
                                1 <= a <= 1,
                                1 <= b <= 1,
                        ;
                    } else {
                    }
                } else {
                }
            },
    }
}

/// Every entry of every template table is well-formed and tagged with its
/// own piece kind.
pub proof fn lemma_move_templates_wf(p: Piece)
    ensures
        forall|i: int|
            0 <= i < p.move_templates().len() ==> template_wf(#[trigger] p.move_templates()[i]),
{
}

impl Color {
    pub fn get_ident(self) -> (r: char)
        ensures
            r == color_ident(self),
    {
        match self {
            Color::White => 'W',
            Color::Black => 'B',
        }
    }

    /// The forward direction of this color.
    pub fn dir(self) -> (r: i32)
        ensures
            r as int == color_dir(self),
    {
        match self {
            Color::White => 1,
            Color::Black => -1,
        }
    }
}

impl MoveType {
    /// Whether a step of this kind may land on an enemy piece.
    pub open spec fn spec_is_capture(self) -> bool {
        !(self is Move)
    }

    /// Whether a step of this kind may land on an empty square.
    pub open spec fn spec_is_normal(self) -> bool {
        !(self is Capture)
    }

    pub fn is_capture(self) -> (r: bool)
        ensures
            r == self.spec_is_capture(),
    {
        match self {
            MoveType::Move => false,
            _ => true,
        }
    }

    pub fn is_normal(self) -> (r: bool)
        ensures
            r == self.spec_is_normal(),
    {
        match self {
            MoveType::Capture => false,
            _ => true,
        }
    }
}

} // verus!
