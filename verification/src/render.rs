use vstd::prelude::*;

use crate::board::{grid_wf, in_bounds, sq, Board, Pos, Square};
use crate::pieces::{color_ident, piece_ident, Color, Piece};

verus! {

/// The length of one rendered line: eight cells of three characters each,
/// then a newline.
pub open spec fn line_len() -> int {
    25
}

/// The length of the whole rendering: two lines per rank, eight ranks.
pub open spec fn render_len() -> int {
    400
}

/// The character at offset `i` of the textual dump of grid `b`. Ranks are
/// printed top (y = 7) to bottom; each rank takes two lines of eight
/// three-character cells. An occupied cell shows its piece letter on the
/// first line and its color letter on the second; an empty cell shows
/// filler on both.
pub open spec fn render_char(b: Seq<Option<Square>>, i: int) -> char {
    let line = i / 25;
    let col = i % 25;
    let x = col / 3;
    let k = col % 3;
    let y = 7 - line / 2;
    if col == 24 {
        '\n'
    } else if line % 2 == 0 {
        match sq(b, x, y) {
            Some(p) => if k == 0 {
                piece_ident(p.0)
            } else if k == 1 {
                '.'
            } else {
                ' '
            },
            None => if k == 2 {
                ' '
            } else {
                '_'
            },
        }
    } else {
        match sq(b, x, y) {
            Some(p) => if k == 0 {
                '.'
            } else if k == 1 {
                color_ident(p.1)
            } else {
                ' '
            },
            None => if k == 2 {
                ' '
            } else {
                '_'
            },
        }
    }
}

/// The full textual dump of grid `b`.
pub open spec fn render_spec(b: Seq<Option<Square>>) -> Seq<char> {
    Seq::new(render_len() as nat, |i: int| render_char(b, i))
}

/// The piece kind a rendering letter stands for, if any.
pub open spec fn piece_of_ident(c: char) -> Option<Piece> {
    if c == 'P' {
        Some(Piece::Pawn)
    } else if c == 'N' {
        Some(Piece::Knight)
    } else if c == 'B' {
        Some(Piece::Bishop)
    } else if c == 'R' {
        Some(Piece::Rook)
    } else if c == 'Q' {
        Some(Piece::Queen)
    } else if c == 'K' {
        Some(Piece::King)
    } else {
        None
    }
}

/// The color a rendering letter stands for, if any.
pub open spec fn color_of_ident(c: char) -> Option<Color> {
    if c == 'W' {
        Some(Color::White)
    } else if c == 'B' {
        Some(Color::Black)
    } else {
        None
    }
}

/// What a reader recovers for square (x, y) from a rendering `s`: the
/// piece letter at the cell's spot on the rank's first line together with
/// the color letter on its second line, or `None` for a filler cell.
pub open spec fn read_render(s: Seq<char>, x: int, y: int) -> Option<Square> {
    let i1 = (2 * (7 - y)) * 25 + 3 * x;
    let i2 = (2 * (7 - y) + 1) * 25 + 3 * x + 1;
    if s[i1] == '_' {
        None
    } else {
        match (piece_of_ident(s[i1]), color_of_ident(s[i2])) {
            (Some(p), Some(c)) => Some((p, c)),
            _ => None,
        }
    }
}

/// Rendering loses nothing: reading any square back out of the rendered
/// text yields exactly that square's occupant, so reconstructing
/// occupancy from a rendering reproduces the board.
pub proof fn lemma_render_round_trip(b: Seq<Option<Square>>, x: int, y: int)
    requires
        grid_wf(b),
        in_bounds(x, y),
    ensures
        read_render(render_spec(b), x, y) == sq(b, x, y),
{
    let q1 = 2 * (7 - y);
    let i1 = q1 * 25 + 3 * x;
    let i2 = (q1 + 1) * 25 + 3 * x + 1;
    vstd::arithmetic::div_mod::lemma_fundamental_div_mod_converse(i1, 25, q1, 3 * x);
    vstd::arithmetic::div_mod::lemma_fundamental_div_mod_converse(3 * x, 3, x, 0);
    vstd::arithmetic::div_mod::lemma_fundamental_div_mod_converse(q1, 2, 7 - y, 0);
    vstd::arithmetic::div_mod::lemma_fundamental_div_mod_converse(i2, 25, q1 + 1, 3 * x + 1);
    vstd::arithmetic::div_mod::lemma_fundamental_div_mod_converse(3 * x + 1, 3, x, 1);
    vstd::arithmetic::div_mod::lemma_fundamental_div_mod_converse(q1 + 1, 2, 7 - y, 1);
    assert(render_spec(b)[i1] == render_char(b, i1));
    assert(render_spec(b)[i2] == render_char(b, i2));
}

/// Relies on String::push, which appends the one character to the string.
#[verifier::external_body]
fn push_char(s: &mut String, c: char)
    ensures
        final(s)@ == old(s)@.push(c),
{
    s.push(c);
}

impl Board {
    /// A human-readable 8x8 textual dump: piece letter and color letter
    /// per occupied cell, filler for empty ones. Diagnostic only, not a
    /// persisted format.
    pub fn debug_render(&self) -> (r: String)
        requires
            self.wf(),
        ensures
            r@ == render_spec(self@),
    {
        let ghost gb = self@;
        let mut s = String::new();
        let mut i: usize = 0;
        while i < 400
            invariant
                self.wf(),
                gb == self@,
                i <= 400,
                s@.len() == i,
                forall|j: int| 0 <= j < i ==> s@[j] == render_char(gb, j),
            decreases 400 - i,
        {
            let line = i / 25;
            let col = i % 25;
            let c: char = if col == 24 {
                '\n'
            } else {
                let x = col / 3;
                let k = col % 3;
                let y = 7 - line / 2;
                let occ = match self.get(Pos::new_unchecked(x, y)) {
                    Ok(p) => Some(p),
                    Err(_) => None,
                };
                if line % 2 == 0 {
                    match occ {
                        Some((pt, _)) => if k == 0 {
                            pt.get_ident()
                        } else if k == 1 {
                            '.'
                        } else {
                            ' '
                        },
                        None => if k == 2 {
                            ' '
                        } else {
                            '_'
                        },
                    }
                } else {
                    match occ {
                        Some((_, cl)) => if k == 0 {
                            '.'
                        } else if k == 1 {
                            cl.get_ident()
                        } else {
                            ' '
                        },
                        None => if k == 2 {
                            ' '
                        } else {
                            '_'
                        },
                    }
                }
            };
            proof {
                assert(c == render_char(gb, i as int));
            }
            push_char(&mut s, c);
            i = i + 1;
        }
        proof {
            assert(s@ =~= render_spec(gb));
        }
        s
    }
}

} // verus!
