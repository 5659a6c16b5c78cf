use vstd::prelude::*;

use crate::error::{Error, InvalidDiff, OutOfBounds};
use crate::math::Vector;
use crate::pieces::{color_dir, template_wf, Color, Piece, VMove};

verus! {

broadcast use vstd::seq_lib::lemma_seq_contains_after_push, Seq::add_empty_left, Seq::add_empty_right;

/// An occupant of a square: a piece kind together with its color.
pub type Square = (Piece, Color);

/// Whether a coordinate lies on the 8x8 grid.
pub open spec fn in_bounds(x: int, y: int) -> bool {
    0 <= x < 8 && 0 <= y < 8
}

/// A board model is the row-major sequence of its 64 squares.
pub open spec fn grid_wf(b: Seq<Option<Square>>) -> bool {
    b.len() == 64
}

/// The occupant of square (x, y) in a board model.
pub open spec fn sq(b: Seq<Option<Square>>, x: int, y: int) -> Option<Square> {
    b[y * 8 + x]
}

/// A validated board coordinate; always on the grid.
#[derive(Debug, Clone, Copy, PartialEq, Eq, Structural, Hash)]
pub struct Pos(usize, usize);

impl View for Pos {
    type V = (int, int);

    closed spec fn view(&self) -> (int, int) {
        (self.0 as int, self.1 as int)
    }
}

/// The position with the given coordinates.
pub closed spec fn mk_pos(x: int, y: int) -> Pos {
    Pos(x as usize, y as usize)
}

/// For on-board coordinates, `mk_pos` is the one position with that view.
pub broadcast proof fn lemma_mk_pos(x: int, y: int)
    requires
        in_bounds(x, y),
    ensures
        (#[trigger] mk_pos(x, y))@ == (x, y),
{
}

/// A position is determined by its view.
pub proof fn lemma_pos_view_determines(p: Pos, x: int, y: int)
    requires
        p@ == (x, y),
    ensures
        p == mk_pos(x, y),
{
}

impl Pos {
    #[verifier::type_invariant]
    spec fn inv(self) -> bool {
        self.0 < 8 && self.1 < 8
    }

    /// Build a position from coordinates already known to be on the grid.
    pub fn new_unchecked(x: usize, y: usize) -> (r: Self)
        requires
            x < 8,
            y < 8,
        ensures
            r == mk_pos(x as int, y as int),
            r@ == (x as int, y as int),
    {
        Self(x, y)
    }

    /// Build a position from coordinates, failing when either is off the grid.
    pub fn new(x: usize, y: usize) -> (r: Result<Self, OutOfBounds>)
        ensures
            x < 8 && y < 8 <==> r is Ok,
            r matches Ok(p) ==> p == mk_pos(x as int, y as int) && p@ == (x as int, y as int),
    {
        if x < 8 && y < 8 {
            Ok(Self(x, y))
        } else {
            Err(OutOfBounds)
        }
    }

    /// Build a position from a vector, failing when it points off the grid.
    pub fn try_from(v: Vector) -> (r: Result<Self, OutOfBounds>)
        ensures
            in_bounds(v.x as int, v.y as int) <==> r is Ok,
            r matches Ok(p) ==> p == mk_pos(v.x as int, v.y as int) && p@ == (v.x as int, v.y as int),
    {
        let Vector { x, y } = v;
        if x >= 0 && y >= 0 && x < 8 && y < 8 {
            Ok(Self(x as usize, y as usize))
        } else {
            Err(OutOfBounds)
        }
    }

    /// The coordinates of this position as a vector.
    pub fn into(self) -> (r: Vector)
        ensures
            r.x as int == self@.0,
            r.y as int == self@.1,
            0 <= r.x < 8 && 0 <= r.y < 8,
    {
        proof {
            use_type_invariant(&self);
        }
        Vector { x: self.0 as i32, y: self.1 as i32 }
    }
}

/// A proposed atomic board transition.
#[derive(Debug, Clone, Copy, PartialEq, Eq, Structural, Hash)]
pub enum DiffType {
    /// A pawn at its promotion rank becomes `piece`.
    Promote { piece: Piece },
    /// The piece at `cap` (normally the target square; kept distinct to
    /// allow an en-passant extension) is removed.
    Capture { cap: Pos },
    /// A plain relocation; the target must be empty.
    Move,
}

/// A proposed atomic board transition: the piece at `from` goes to `to`,
/// acting as `ty` says.
#[derive(Debug, Clone, Copy, PartialEq, Eq, Structural, Hash)]
pub struct Diff {
    pub ty: DiffType,
    pub from: Pos,
    pub to: Pos,
}

/// The classification of a position for one color, computed on demand.
#[derive(Debug, Clone, Copy, PartialEq, Eq, Structural, Hash)]
pub enum GameCondition {
    /// Not in check, and some piece of the color can move.
    Safe,
    /// Not in check, and no piece of the color can move.
    Stale,
    /// In check, but some legal move remains.
    Check,
    /// In check, with no legal move.
    Mate,
}

/// The squares strictly before step `k` along a mirrored delta from
/// (ox, oy) are all on the board and empty.
pub open spec fn clear_to(
    b: Seq<Option<Square>>,
    ox: int,
    oy: int,
    dx: int,
    dy: int,
    k: int,
) -> bool
    decreases k,
{
    k <= 1 || {
        &&& clear_to(b, ox, oy, dx, dy, k - 1)
        &&& in_bounds(ox + dx * (k - 1), oy + dy * (k - 1))
        &&& sq(b, ox + dx * (k - 1), oy + dy * (k - 1)) is None
    }
}

/// A clear path up to step `k` keeps every strictly earlier step on the
/// board and empty.
pub proof fn lemma_clear_to_all(
    b: Seq<Option<Square>>,
    ox: int,
    oy: int,
    dx: int,
    dy: int,
    k: int,
    j: int,
)
    requires
        clear_to(b, ox, oy, dx, dy, k),
        1 <= j < k,
    ensures
        in_bounds(ox + dx * j, oy + dy * j),
        sq(b, ox + dx * j, oy + dy * j) is None,
    decreases k,
{
    if j < k - 1 {
        lemma_clear_to_all(b, ox, oy, dx, dy, k - 1, j);
    }
}

/// Whether the mirrored template `t` (already scaled deltas are derived
/// here from the mover's color) emits exactly the diff `d` at step `k`
/// from origin (ox, oy) on board `b`: the target is on the board, the
/// path before it is clear, and the target occupancy admits the step.
pub open spec fn template_emits(
    b: Seq<Option<Square>>,
    ox: int,
    oy: int,
    c: Color,
    t: VMove,
    k: int,
    d: Diff,
) -> bool {
    let dx = t.1.x * color_dir(c);
    let dy = t.1.y * color_dir(c);
    let tx = ox + dx * k;
    let ty = oy + dy * k;
    &&& 1 <= k <= t.3
    &&& in_bounds(tx, ty)
    &&& clear_to(b, ox, oy, dx, dy, k)
    &&& match sq(b, tx, ty) {
        Some(victim) => {
            &&& victim.1 != c
            &&& t.2.spec_is_capture()
            &&& d == (Diff {
                ty: DiffType::Capture { cap: mk_pos(tx, ty) },
                from: mk_pos(ox, oy),
                to: mk_pos(tx, ty),
            })
        },
        None => {
            &&& t.2.spec_is_normal()
            &&& d == (Diff { ty: DiffType::Move, from: mk_pos(ox, oy), to: mk_pos(tx, ty) })
        },
    }
}

/// `d` is a pseudo-legal move from (ox, oy) on board `b`: consistent with
/// the occupant's piece geometry and the occupancy, ignoring whether it
/// exposes the mover's own king.
pub open spec fn pseudo_legal_at(b: Seq<Option<Square>>, ox: int, oy: int, d: Diff) -> bool {
    &&& in_bounds(ox, oy)
    &&& sq(b, ox, oy) is Some
    &&& {
        let occ = sq(b, ox, oy)->0;
        exists|ti: int, k: int|
            0 <= ti < occ.0.move_templates().len() && #[trigger] template_emits(
                b,
                ox,
                oy,
                occ.1,
                occ.0.move_templates()[ti],
                k,
                d,
            )
    }
}

/// The diffs the mirrored template `t` emits from step `k` on, in step
/// order. The direction ends at the board edge, at a blocking piece
/// (captured first, where the template allows), or when the distance is
/// spent.
pub open spec fn template_run(
    b: Seq<Option<Square>>,
    ox: int,
    oy: int,
    c: Color,
    t: VMove,
    k: int,
) -> Seq<Diff>
    decreases t.3 + 1 - k,
{
    let dx = t.1.x * color_dir(c);
    let dy = t.1.y * color_dir(c);
    let tx = ox + dx * k;
    let ty = oy + dy * k;
    if k < 1 || k > t.3 || !in_bounds(tx, ty) {
        Seq::empty()
    } else {
        match sq(b, tx, ty) {
            Some(victim) => if victim.1 != c && t.2.spec_is_capture() {
                seq![
                    Diff {
                        ty: DiffType::Capture { cap: mk_pos(tx, ty) },
                        from: mk_pos(ox, oy),
                        to: mk_pos(tx, ty),
                    },
                ]
            } else {
                Seq::empty()
            },
            None => {
                let rest = template_run(b, ox, oy, c, t, k + 1);
                if t.2.spec_is_normal() {
                    seq![
                        Diff { ty: DiffType::Move, from: mk_pos(ox, oy), to: mk_pos(tx, ty) },
                    ] + rest
                } else {
                    rest
                }
            },
        }
    }
}

/// The runs of the templates from index `ti` on, concatenated in
/// template order.
pub open spec fn runs_from(
    b: Seq<Option<Square>>,
    ox: int,
    oy: int,
    c: Color,
    ts: Seq<VMove>,
    ti: int,
) -> Seq<Diff>
    decreases ts.len() - ti,
{
    if ti < 0 || ti >= ts.len() {
        Seq::empty()
    } else {
        template_run(b, ox, oy, c, ts[ti], 1) + runs_from(b, ox, oy, c, ts, ti + 1)
    }
}

/// The pseudo-legal diffs from (ox, oy), in generation order: template
/// order, then step order within each template; empty for an unoccupied
/// square.
pub open spec fn pseudo_move_seq(b: Seq<Option<Square>>, ox: int, oy: int) -> Seq<Diff> {
    match sq(b, ox, oy) {
        Some(occ) => runs_from(b, ox, oy, occ.1, occ.0.move_templates(), 0),
        None => Seq::empty(),
    }
}

/// A diff determines the template and step that emitted it: two
/// emissions of the same diff from one origin coincide, so the
/// generation loop never produces a duplicate.
proof fn lemma_emission_unique(
    b: Seq<Option<Square>>,
    ox: int,
    oy: int,
    pt: Piece,
    c: Color,
    ti: int,
    k: int,
    tj: int,
    kk: int,
    d: Diff,
)
    requires
        in_bounds(ox, oy),
        sq(b, ox, oy) == Some((pt, c)),
        0 <= ti < pt.move_templates().len(),
        0 <= tj < pt.move_templates().len(),
        template_emits(b, ox, oy, c, pt.move_templates()[ti], k, d),
        template_emits(b, ox, oy, c, pt.move_templates()[tj], kk, d),
    ensures
        ti == tj,
        k == kk,
{
    let t1 = pt.move_templates()[ti];
    let t2 = pt.move_templates()[tj];
    let dir = color_dir(c);
    let tx1 = ox + t1.1.x * dir * k;
    let ty1 = oy + t1.1.y * dir * k;
    let tx2 = ox + t2.1.x * dir * kk;
    let ty2 = oy + t2.1.y * dir * kk;
    lemma_mk_pos(tx1, ty1);
    lemma_mk_pos(tx2, ty2);
    assert(d.to == mk_pos(tx1, ty1));
    assert(d.to == mk_pos(tx2, ty2));
    assert(tx1 == tx2 && ty1 == ty2);
    assert(t1.1.x * k == t2.1.x * kk && t1.1.y * k == t2.1.y * kk) by (nonlinear_arith)
        requires
            dir == 1 || dir == -1,
            t1.1.x * dir * k == t2.1.x * dir * kk,
            t1.1.y * dir * k == t2.1.y * dir * kk,
    ;
    if ti < tj {
        crate::pieces::lemma_templates_separate(pt, ti, tj, k, kk);
        assert(false);
    } else if tj < ti {
        crate::pieces::lemma_templates_separate(pt, tj, ti, kk, k);
        assert(false);
    } else {
        if k != kk {
            assert(t1.1.x * dir == 0 && t1.1.y * dir == 0) by (nonlinear_arith)
                requires
                    t1.1.x * dir * k == t1.1.x * dir * kk,
                    t1.1.y * dir * k == t1.1.y * dir * kk,
                    k != kk,
                    t1.1.x * k == t1.1.x * kk,
                    t1.1.y * k == t1.1.y * kk,
            ;
            assert(tx1 == ox && ty1 == oy) by (nonlinear_arith)
                requires
                    t1.1.x * dir == 0,
                    t1.1.y * dir == 0,
                    tx1 == ox + t1.1.x * dir * k,
                    ty1 == oy + t1.1.y * dir * k,
            ;
            assert(sq(b, tx1, ty1) == Some((pt, c)));
            assert(false);
        }
    }
}

/// The king of color `col` is attacked: some square holds an opposing
/// piece one of whose pseudo-legal moves lands on a square holding
/// (King, col). Pseudo-legal (not legality-filtered) opponent moves are
/// used deliberately, avoiding a circular dependency on legality.
pub open spec fn in_check(b: Seq<Option<Square>>, col: Color) -> bool {
    exists|ox: int, oy: int, d: Diff|
        {
            &&& in_bounds(ox, oy)
            &&& #[trigger] pseudo_legal_at(b, ox, oy, d)
            &&& (sq(b, ox, oy)->0).1 != col
            &&& sq(b, d.to@.0, d.to@.1) == Some((Piece::King, col))
        }
}

/// No pseudo-legal move from (ox, oy) lands on the king of color `col`.
pub open spec fn no_attack_from(b: Seq<Option<Square>>, ox: int, oy: int, col: Color) -> bool {
    forall|d: Diff|
        #[trigger] pseudo_legal_at(b, ox, oy, d) ==> sq(b, d.to@.0, d.to@.1) != Some(
            (Piece::King, col),
        )
}

/// Some piece of color `col` has at least one legal move.
pub open spec fn has_legal_move(b: Seq<Option<Square>>, col: Color) -> bool {
    exists|ox: int, oy: int, d: Diff|
        {
            &&& in_bounds(ox, oy)
            &&& #[trigger] legal_at(b, ox, oy, d)
            &&& (sq(b, ox, oy)->0).1 == col
        }
}

/// The classification of grid `b` for color `col`: Mate when in check
/// without a legal move, Check when in check with one, Stale when out of
/// check without one, Safe otherwise.
pub open spec fn spec_game_condition(b: Seq<Option<Square>>, col: Color) -> GameCondition {
    if in_check(b, col) {
        if has_legal_move(b, col) {
            GameCondition::Check
        } else {
            GameCondition::Mate
        }
    } else {
        if has_legal_move(b, col) {
            GameCondition::Safe
        } else {
            GameCondition::Stale
        }
    }
}

/// The rank on which a pawn of color `c` stands just before promoting.
pub open spec fn promo_from_rank(c: Color) -> int {
    if c is White {
        6
    } else {
        1
    }
}

/// The rank a pawn of color `c` promotes on: the rank nearest the
/// opponent's back rank.
pub open spec fn promo_rank(c: Color) -> int {
    if c is White {
        7
    } else {
        0
    }
}

/// What applying `d` to grid `b` yields: the grid after the transition,
/// or the error the attempt is refused with. A refused diff changes
/// nothing.
pub open spec fn apply_outcome(b: Seq<Option<Square>>, d: Diff) -> Result<
    Seq<Option<Square>>,
    Error,
> {
    let fx = d.from@.0;
    let fy = d.from@.1;
    let tx = d.to@.0;
    let ty = d.to@.1;
    match d.ty {
        DiffType::Move => {
            if sq(b, fx, fy) is None {
                Err(Error::NoPiece)
            } else if sq(b, tx, ty) is Some {
                Err(Error::InvalidDiff(InvalidDiff::CaptureOnMoveTy))
            } else {
                Ok(b.update(fy * 8 + fx, None).update(ty * 8 + tx, sq(b, fx, fy)))
            }
        },
        DiffType::Capture { cap } => {
            if sq(b, fx, fy) is None {
                Err(Error::NoPiece)
            } else if sq(b, cap@.0, cap@.1) is None {
                Err(Error::InvalidDiff(InvalidDiff::MoveOnCaptureTy))
            } else {
                Ok(
                    b.update(fy * 8 + fx, None).update(cap@.1 * 8 + cap@.0, None).update(
                        ty * 8 + tx,
                        sq(b, fx, fy),
                    ),
                )
            }
        },
        DiffType::Promote { piece } => {
            match sq(b, fx, fy) {
                None => Err(Error::NoPiece),
                Some(p) => {
                    if !(p.0 is Pawn) {
                        Err(Error::InvalidDiff(InvalidDiff::InvalidPromotionPiece))
                    } else if fy != promo_from_rank(p.1) || ty != promo_rank(p.1) {
                        Err(Error::InvalidDiff(InvalidDiff::InvalidPromotionRow))
                    } else {
                        Ok(b.update(fy * 8 + fx, None).update(ty * 8 + tx, Some((piece, p.1))))
                    }
                },
            }
        },
    }
}

/// A Capture-typed diff whose capture square is empty is refused with
/// MoveOnCaptureTy; together with `Board::apply`'s contract this means
/// the attempt leaves the board unchanged.
pub proof fn lemma_capture_on_empty_refused(b: Seq<Option<Square>>, d: Diff)
    requires
        d.ty matches DiffType::Capture { cap } && sq(b, cap@.0, cap@.1) is None,
        sq(b, d.from@.0, d.from@.1) is Some,
    ensures
        apply_outcome(b, d) == Err::<Seq<Option<Square>>, Error>(
            Error::InvalidDiff(InvalidDiff::MoveOnCaptureTy),
        ),
{
}

/// The back-rank piece at file `x` in the standard initial position.
pub open spec fn back_rank_piece(x: int) -> Piece {
    if x == 0 || x == 7 {
        Piece::Rook
    } else if x == 1 || x == 6 {
        Piece::Knight
    } else if x == 2 || x == 5 {
        Piece::Bishop
    } else if x == 3 {
        Piece::Queen
    } else {
        Piece::King
    }
}

/// The occupant of square (x, y) in the standard initial position.
pub open spec fn initial_square(x: int, y: int) -> Option<Square> {
    if y == 0 {
        Some((back_rank_piece(x), Color::White))
    } else if y == 1 {
        Some((Piece::Pawn, Color::White))
    } else if y == 6 {
        Some((Piece::Pawn, Color::Black))
    } else if y == 7 {
        Some((back_rank_piece(x), Color::Black))
    } else {
        None
    }
}

/// `d` is a legal move from (ox, oy): pseudo-legal, and applying it
/// leaves the mover's own king unattacked.
pub open spec fn legal_at(b: Seq<Option<Square>>, ox: int, oy: int, d: Diff) -> bool {
    &&& pseudo_legal_at(b, ox, oy, d)
    &&& match apply_outcome(b, d) {
        Ok(b2) => !in_check(b2, (sq(b, ox, oy)->0).1),
        Err(_) => false,
    }
}

/// The diffs of `s` that are legal from (ox, oy), kept in their relative
/// order.
pub open spec fn keep_legal(b: Seq<Option<Square>>, ox: int, oy: int, s: Seq<Diff>) -> Seq<Diff>
    decreases s.len(),
{
    if s.len() == 0 {
        Seq::empty()
    } else {
        let rest = keep_legal(b, ox, oy, s.drop_first());
        if legal_at(b, ox, oy, s[0]) {
            seq![s[0]] + rest
        } else {
            rest
        }
    }
}

/// A pseudo-legal diff is never refused: it moves an existing piece to an
/// empty square, or captures an occupied one, so `apply_outcome` accepts
/// it, and the grid stays well-formed.
pub proof fn lemma_pseudo_legal_applies(b: Seq<Option<Square>>, ox: int, oy: int, d: Diff)
    requires
        grid_wf(b),
        pseudo_legal_at(b, ox, oy, d),
    ensures
        apply_outcome(b, d) is Ok,
        grid_wf(apply_outcome(b, d)->Ok_0),
{
    let occ = sq(b, ox, oy)->0;
    let (ti, k) = choose|ti: int, k: int|
        0 <= ti < occ.0.move_templates().len() && #[trigger] template_emits(
            b,
            ox,
            oy,
            occ.1,
            occ.0.move_templates()[ti],
            k,
            d,
        );
    let t = occ.0.move_templates()[ti];
    let dx = t.1.x * color_dir(occ.1);
    let dy = t.1.y * color_dir(occ.1);
    let tx = ox + dx * k;
    let ty = oy + dy * k;
    lemma_mk_pos(ox, oy);
    lemma_mk_pos(tx, ty);
    match sq(b, tx, ty) {
        Some(victim) => {
            assert(d.from@ == (ox, oy));
            assert(d.to@ == (tx, ty));
        },
        None => {
            assert(d.from@ == (ox, oy));
            assert(d.to@ == (tx, ty));
        },
    }
}

/// The 8x8 occupancy grid, stored row-major: square (x, y) is entry
/// `y * 8 + x`. The storage itself does not prevent double placement;
/// callers relocating a piece must remove before setting.
#[derive(Debug, Clone, PartialEq, Eq, Hash)]
pub struct RawBoard {
    data: Vec<Option<Square>>,
}

impl View for RawBoard {
    type V = Seq<Option<Square>>;

    closed spec fn view(&self) -> Seq<Option<Square>> {
        self.data@
    }
}

impl RawBoard {
    /// The grid always holds exactly 64 squares.
    pub open spec fn wf(self) -> bool {
        grid_wf(self@)
    }

    /// Write an occupant to a square unconditionally.
    pub fn set(&mut self, pos: Pos, piece: Piece, color: Color)
        requires
            old(self).wf(),
        ensures
            final(self).wf(),
            final(self)@ == old(self)@.update(pos@.1 * 8 + pos@.0, Some((piece, color))),
    {
        proof {
            use_type_invariant(&pos);
        }
        let Pos(x, y) = pos;
        self.data.set(y * 8 + x, Some((piece, color)));
    }

    /// Swap the occupant of a square with the given one, returning the
    /// previous occupant.
    pub fn replace(&mut self, pos: Pos, piece: Option<Square>) -> (r: Option<Square>)
        requires
            old(self).wf(),
        ensures
            final(self).wf(),
            final(self)@ == old(self)@.update(pos@.1 * 8 + pos@.0, piece),
            r == sq(old(self)@, pos@.0, pos@.1),
    {
        proof {
            use_type_invariant(&pos);
        }
        let Pos(x, y) = pos;
        let prev = self.data[y * 8 + x];
        self.data.set(y * 8 + x, piece);
        prev
    }

    /// Empty a square, returning the previous occupant.
    pub fn remove(&mut self, pos: Pos) -> (r: Option<Square>)
        requires
            old(self).wf(),
        ensures
            final(self).wf(),
            final(self)@ == old(self)@.update(pos@.1 * 8 + pos@.0, None),
            r == sq(old(self)@, pos@.0, pos@.1),
    {
        self.replace(pos, None)
    }

    /// The occupant of a square, or `NoPiece` when it is empty.
    pub fn get(&self, pos: Pos) -> (r: Result<Square, Error>)
        requires
            self.wf(),
        ensures
            r matches Ok(p) ==> sq(self@, pos@.0, pos@.1) == Some(p),
            r matches Err(e) ==> e == Error::NoPiece && sq(self@, pos@.0, pos@.1) is None,
    {
        proof {
            use_type_invariant(&pos);
        }
        let Pos(x, y) = pos;
        match self.data[y * 8 + x] {
            Some(p) => Ok(p),
            None => Err(Error::NoPiece),
        }
    }

    /// Every occupied square with its occupant, in an unspecified order.
    pub fn iter(&self) -> (r: Vec<(Pos, Piece, Color)>)
        requires
            self.wf(),
        ensures
            forall|e: int|
                0 <= e < r@.len() ==> in_bounds((#[trigger] r@[e]).0@.0, r@[e].0@.1) && sq(
                    self@,
                    r@[e].0@.0,
                    r@[e].0@.1,
                ) == Some((r@[e].1, r@[e].2)),
            forall|x: int, y: int|
                in_bounds(x, y) && #[trigger] sq(self@, x, y) is Some ==> exists|e: int|
                    0 <= e < r@.len() && (#[trigger] r@[e]).0 == mk_pos(x, y),
            forall|e1: int, e2: int|
                0 <= e1 < e2 < r@.len() ==> (#[trigger] r@[e1]).0 != (#[trigger] r@[e2]).0,
    {
        let mut r: Vec<(Pos, Piece, Color)> = Vec::new();
        let mut i: usize = 0;
        while i < 64
            invariant
                self.wf(),
                i <= 64,
                forall|e: int|
                    0 <= e < r@.len() ==> in_bounds((#[trigger] r@[e]).0@.0, r@[e].0@.1) && sq(
                        self@,
                        r@[e].0@.0,
                        r@[e].0@.1,
                    ) == Some((r@[e].1, r@[e].2)),
                forall|j: int|
                    0 <= j < i && #[trigger] self@[j] is Some ==> exists|e: int|
                        0 <= e < r@.len() && (#[trigger] r@[e]).0 == mk_pos(j % 8, j / 8),
                forall|e: int|
                    0 <= e < r@.len() ==> (#[trigger] r@[e]).0@.1 * 8 + r@[e].0@.0 < i,
                forall|e1: int, e2: int|
                    0 <= e1 < e2 < r@.len() ==> (#[trigger] r@[e1]).0 != (#[trigger] r@[e2]).0,
            decreases 64 - i,
        {
            let x: usize = i % 8;
            let y: usize = i / 8;
            match self.data[i] {
                Some((pt, c)) => {
                    let p = Pos::new_unchecked(x, y);
                    let ghost r_old = r@;
                    r.push((p, pt, c));
                    proof {
                        assert(y * 8 + x == i);
                        assert(sq(self@, x as int, y as int) == Some((pt, c)));
                        assert(r@[r_old.len() as int].0 == mk_pos(i as int % 8, i as int / 8));
                        assert forall|e: int| 0 <= e < r@.len() implies in_bounds(
                            (#[trigger] r@[e]).0@.0,
                            r@[e].0@.1,
                        ) && sq(self@, r@[e].0@.0, r@[e].0@.1) == Some((r@[e].1, r@[e].2)) by {
                            if e < r_old.len() {
                                assert(r@[e] == r_old[e]);
                            }
                        }
                        assert forall|e1: int, e2: int| 0 <= e1 < e2 < r@.len() implies (
                        #[trigger] r@[e1]).0 != (#[trigger] r@[e2]).0 by {
                            if e2 == r_old.len() {
                                assert(r@[e1] == r_old[e1]);
                                assert(r@[e1].0@.1 * 8 + r@[e1].0@.0 < i);
                                assert(r@[e2].0@ == (x as int, y as int));
                            } else {
                                assert(r@[e1] == r_old[e1]);
                                assert(r@[e2] == r_old[e2]);
                            }
                        }
                        assert forall|j: int|
                            0 <= j < i + 1 && #[trigger] self@[j] is Some implies exists|e: int|
                            0 <= e < r@.len() && (#[trigger] r@[e]).0 == mk_pos(j % 8, j / 8) by {
                            if j < i {
                                let e = choose|e: int|
                                    0 <= e < r_old.len() && r_old[e].0 == mk_pos(j % 8, j / 8);
                                assert(r@[e] == r_old[e]);
                                assert(r@[e].0 == mk_pos(j % 8, j / 8));
                            } else {
                                assert(r@[r_old.len() as int].0 == mk_pos(j % 8, j / 8));
                            }
                        }
                    }
                },
                None => {},
            }
            i = i + 1;
        }
        r
    }

    /// An independent, fully detached copy of the grid.
    pub fn duplicate(&self) -> (r: RawBoard)
        requires
            self.wf(),
        ensures
            r@ == self@,
    {
        let mut data: Vec<Option<Square>> = Vec::new();
        let mut i: usize = 0;
        while i < 64
            invariant
                i <= 64,
                self.wf(),
                data@.len() == i,
                forall|j: int| 0 <= j < i ==> data@[j] == self@[j],
            decreases 64 - i,
        {
            data.push(self.data[i]);
            i = i + 1;
        }
        let r = RawBoard { data };
        proof {
            assert(r@ =~= self@);
        }
        r
    }
}

/// The board a game is played on. Exclusively owned by one caller;
/// simulation during legality filtering runs on detached copies.
#[derive(Debug)]
pub struct Board {
    board: RawBoard,
}

impl View for Board {
    type V = Seq<Option<Square>>;

    closed spec fn view(&self) -> Seq<Option<Square>> {
        self.board@
    }
}

impl Board {
    /// The wrapped grid always holds exactly 64 squares.
    pub open spec fn wf(self) -> bool {
        grid_wf(self@)
    }

    /// A board holding the standard initial position.
    pub fn new() -> (r: Self)
        ensures
            r.wf(),
            forall|x: int, y: int|
                in_bounds(x, y) ==> #[trigger] sq(r@, x, y) == initial_square(x, y),
    {
        let mut board = RawBoard::default();

        board.set(Pos::new_unchecked(0, 0), Piece::Rook, Color::White);
        board.set(Pos::new_unchecked(7, 0), Piece::Rook, Color::White);

        board.set(Pos::new_unchecked(1, 0), Piece::Knight, Color::White);
        board.set(Pos::new_unchecked(6, 0), Piece::Knight, Color::White);

        board.set(Pos::new_unchecked(2, 0), Piece::Bishop, Color::White);
        board.set(Pos::new_unchecked(5, 0), Piece::Bishop, Color::White);

        board.set(Pos::new_unchecked(3, 0), Piece::Queen, Color::White);
        board.set(Pos::new_unchecked(4, 0), Piece::King, Color::White);

        board.set(Pos::new_unchecked(0, 7), Piece::Rook, Color::Black);
        board.set(Pos::new_unchecked(7, 7), Piece::Rook, Color::Black);

        board.set(Pos::new_unchecked(1, 7), Piece::Knight, Color::Black);
        board.set(Pos::new_unchecked(6, 7), Piece::Knight, Color::Black);

        board.set(Pos::new_unchecked(2, 7), Piece::Bishop, Color::Black);
        board.set(Pos::new_unchecked(5, 7), Piece::Bishop, Color::Black);

        board.set(Pos::new_unchecked(3, 7), Piece::Queen, Color::Black);
        board.set(Pos::new_unchecked(4, 7), Piece::King, Color::Black);

        let ghost base = board@;
        let mut i: usize = 0;
        while i < 8
            invariant
                board.wf(),
                i <= 8,
                forall|x: int, y: int|
                    in_bounds(x, y) ==> #[trigger] sq(board@, x, y) == (if y == 1 && x < i {
                        Some((Piece::Pawn, Color::White))
                    } else if y == 6 && x < i {
                        Some((Piece::Pawn, Color::Black))
                    } else {
                        sq(base, x, y)
                    }),
            decreases 8 - i,
        {
            let ghost prev = board@;
            board.set(Pos::new_unchecked(i, 1), Piece::Pawn, Color::White);
            board.set(Pos::new_unchecked(i, 6), Piece::Pawn, Color::Black);
            proof {
                assert forall|x: int, y: int| in_bounds(x, y) implies #[trigger] sq(board@, x, y)
                    == (if y == 1 && x < i + 1 {
                    Some((Piece::Pawn, Color::White))
                } else if y == 6 && x < i + 1 {
                    Some((Piece::Pawn, Color::Black))
                } else {
                    sq(base, x, y)
                }) by {
                    let v = sq(prev, x, y);
                }
            }
            i = i + 1;
        }
        proof {
            assert forall|x: int, y: int| in_bounds(x, y) implies #[trigger] sq(board@, x, y)
                == initial_square(x, y) by {}
        }
        Self { board }
    }

    /// A board seeded from an arbitrary occupancy grid.
    pub fn with(board: RawBoard) -> (r: Self)
        requires
            board.wf(),
        ensures
            r.wf(),
            r@ == board@,
    {
        Self { board }
    }

    /// The occupant of a square, or `NoPiece` when it is empty.
    pub fn get(&self, pos: Pos) -> (r: Result<Square, Error>)
        requires
            self.wf(),
        ensures
            r matches Ok(p) ==> sq(self@, pos@.0, pos@.1) == Some(p),
            r matches Err(e) ==> e == Error::NoPiece && sq(self@, pos@.0, pos@.1) is None,
    {
        self.board.get(pos)
    }

    /// Check a diff against the current state and apply it. On success all
    /// edits of the one diff become visible atomically; a refused diff
    /// leaves the grid unmodified.
    pub fn apply(&mut self, diff: Diff) -> (r: Result<(), Error>)
        requires
            old(self).wf(),
        ensures
            final(self).wf(),
            match apply_outcome(old(self)@, diff) {
                Ok(b2) => r is Ok && final(self)@ == b2,
                Err(e) => r == Err::<(), Error>(e) && final(self)@ == old(self)@,
            },
    {
        let Diff { ty, from, to } = diff;
        match ty {
            DiffType::Move => {
                let (piece, color) = match self.board.get(from) {
                    Ok(p) => p,
                    Err(e) => {
                        return Err(e);
                    },
                };
                match self.board.get(to) {
                    Ok(_) => {
                        return Err(Error::InvalidDiff(InvalidDiff::CaptureOnMoveTy));
                    },
                    Err(_) => {},
                }
                self.board.remove(from);
                self.board.set(to, piece, color);
                Ok(())
            },
            DiffType::Capture { cap } => {
                let (piece, color) = match self.board.get(from) {
                    Ok(p) => p,
                    Err(e) => {
                        return Err(e);
                    },
                };
                match self.board.get(cap) {
                    Ok(_) => {},
                    Err(_) => {
                        return Err(Error::InvalidDiff(InvalidDiff::MoveOnCaptureTy));
                    },
                }
                self.board.remove(from);
                self.board.replace(cap, None);
                self.board.set(to, piece, color);
                Ok(())
            },
            DiffType::Promote { piece } => {
                let (pt, color) = match self.board.get(from) {
                    Ok(p) => p,
                    Err(e) => {
                        return Err(e);
                    },
                };
                match pt {
                    Piece::Pawn => {},
                    _ => {
                        return Err(Error::InvalidDiff(InvalidDiff::InvalidPromotionPiece));
                    },
                }
                let from_rank: usize = match color {
                    Color::White => 6,
                    Color::Black => 1,
                };
                let to_rank: usize = match color {
                    Color::White => 7,
                    Color::Black => 0,
                };
                proof {
                    use_type_invariant(&from);
                    use_type_invariant(&to);
                }
                let Pos(_, fy) = from;
                let Pos(_, ty2) = to;
                if fy == from_rank && ty2 == to_rank {
                    self.board.remove(from);
                    self.board.set(to, piece, color);
                    Ok(())
                } else {
                    Err(Error::InvalidDiff(InvalidDiff::InvalidPromotionRow))
                }
            },
        }
    }

    /// All pseudo-legal moves of the piece at `pos`, without the
    /// king-safety filter; `None` when the square is unoccupied.
    #[verifier::rlimit(100)]
    pub fn get_possible_moves_unchecked(&self, pos: Pos) -> (r: Option<Vec<Diff>>)
        requires
            self.wf(),
        ensures
            r is Some <==> sq(self@, pos@.0, pos@.1) is Some,
            r matches Some(v) ==> forall|d: Diff|
                #[trigger] v@.contains(d) <==> pseudo_legal_at(self@, pos@.0, pos@.1, d),
            r matches Some(v) ==> v@.no_duplicates(),
            r matches Some(v) ==> v@ == pseudo_move_seq(self@, pos@.0, pos@.1),
    {
        proof {
            use_type_invariant(&pos);
        }
        let ghost gb = self@;
        let ghost gox = pos@.0;
        let ghost goy = pos@.1;
        let (pt, color) = match self.board.get(pos) {
            Ok(p) => p,
            Err(_) => {
                return None;
            },
        };
        let templates = pt.get_moves();
        let dir = color.dir();
        let Pos(oxu, oyu) = pos;
        let ox: i32 = oxu as i32;
        let oy: i32 = oyu as i32;
        let mut out: Vec<Diff> = Vec::new();
        let mut ti: usize = 0;
        proof {
            assert(out@ + runs_from(gb, gox, goy, color, pt.move_templates(), 0) == runs_from(
                gb,
                gox,
                goy,
                color,
                pt.move_templates(),
                0,
            ));
        }
        while ti < templates.len()
            invariant
                self.wf(),
                gb == self@,
                pos@ == (gox, goy),
                ox as int == gox,
                oy as int == goy,
                in_bounds(gox, goy),
                sq(gb, gox, goy) == Some((pt, color)),
                templates@ == pt.move_templates(),
                ti <= templates@.len(),
                dir as int == color_dir(color),
                out@.no_duplicates(),
                pseudo_move_seq(gb, gox, goy) == out@ + runs_from(
                    gb,
                    gox,
                    goy,
                    color,
                    pt.move_templates(),
                    ti as int,
                ),
                forall|d: Diff|
                    #[trigger] out@.contains(d) <==> exists|tj: int, kk: int|
                        0 <= tj < ti && template_emits(
                            gb,
                            gox,
                            goy,
                            color,
                            pt.move_templates()[tj],
                            kk,
                            d,
                        ),
            decreases templates@.len() - ti,
        {
            let t = templates[ti];
            proof {
                crate::pieces::lemma_move_templates_wf(pt);
                assert(template_wf(t));
                assert(color_dir(color) == 1 || color_dir(color) == -1);
                assert(-2 <= t.1.x * color_dir(color) <= 2 && -2 <= t.1.y * color_dir(color)
                    <= 2) by (nonlinear_arith)
                    requires
                        -2 <= t.1.x <= 2,
                        -2 <= t.1.y <= 2,
                        color_dir(color) == 1 || color_dir(color) == -1,
                ;
            }
            let dx: i32 = t.1.x * dir;
            let dy: i32 = t.1.y * dir;
            let dist: u32 = t.3;
            let ghost gdx = t.1.x * color_dir(color);
            let ghost gdy = t.1.y * color_dir(color);
            let ghost out0 = out@;
            let mut k: u32 = 1;
            proof {
                assert(runs_from(gb, gox, goy, color, pt.move_templates(), ti as int)
                    == template_run(gb, gox, goy, color, t, 1) + runs_from(
                    gb,
                    gox,
                    goy,
                    color,
                    pt.move_templates(),
                    ti as int + 1,
                ));
                vstd::seq_lib::lemma_concat_associative(
                    out@,
                    template_run(gb, gox, goy, color, t, 1),
                    runs_from(gb, gox, goy, color, pt.move_templates(), ti as int + 1),
                );
            }
            while k <= dist
                invariant_except_break
                    self.wf(),
                    gb == self@,
                    pos@ == (gox, goy),
                    ox as int == gox,
                    oy as int == goy,
                    in_bounds(gox, goy),
                    template_wf(t),
                    t == pt.move_templates()[ti as int],
                    0 <= ti < pt.move_templates().len(),
                    dx as int == gdx,
                    dy as int == gdy,
                    gdx == t.1.x * color_dir(color),
                    gdy == t.1.y * color_dir(color),
                    -2 <= gdx <= 2,
                    -2 <= gdy <= 2,
                    dist == t.3,
                    1 <= k <= dist + 1,
                    sq(gb, gox, goy) == Some((pt, color)),
                    out@.no_duplicates(),
                    pseudo_move_seq(gb, gox, goy) == out@ + template_run(
                        gb,
                        gox,
                        goy,
                        color,
                        t,
                        k as int,
                    ) + runs_from(gb, gox, goy, color, pt.move_templates(), ti as int + 1),
                    clear_to(gb, gox, goy, gdx, gdy, k as int),
                    forall|d: Diff|
                        #[trigger] out0.contains(d) <==> exists|tj: int, kk: int|
                            0 <= tj < ti && template_emits(
                                gb,
                                gox,
                                goy,
                                color,
                                pt.move_templates()[tj],
                                kk,
                                d,
                            ),
                    forall|d: Diff|
                        #[trigger] out@.contains(d) <==> out0.contains(d) || (exists|j: int|
                            1 <= j < k && template_emits(gb, gox, goy, color, t, j, d)),
                ensures
                    out@.no_duplicates(),
                    pseudo_move_seq(gb, gox, goy) == out@ + runs_from(
                        gb,
                        gox,
                        goy,
                        color,
                        pt.move_templates(),
                        ti as int + 1,
                    ),
                    forall|d: Diff|
                        #[trigger] out@.contains(d) <==> out0.contains(d) || (exists|j: int|
                            template_emits(gb, gox, goy, color, t, j, d)),
                decreases dist + 1 - k,
            {
                let kc: i32 = k as i32;
                proof {
                    assert(-16 <= dx as int * kc as int <= 16) by (nonlinear_arith)
                        requires
                            -2 <= dx as int <= 2,
                            1 <= kc as int <= 8,
                    ;
                    assert(-16 <= dy as int * kc as int <= 16) by (nonlinear_arith)
                        requires
                            -2 <= dy as int <= 2,
                            1 <= kc as int <= 8,
                    ;
                }
                let txi: i32 = ox + dx * kc;
                let tyi: i32 = oy + dy * kc;
                let ghost gtx = gox + gdx * (k as int);
                let ghost gty = goy + gdy * (k as int);
                if txi < 0 || txi >= 8 || tyi < 0 || tyi >= 8 {
                    proof {
                        assert forall|j: int, d: Diff|
                            #[trigger] template_emits(gb, gox, goy, color, t, j, d) implies 1 <= j
                            < k by {
                            if j >= k {
                                if j == k {
                                    assert(!in_bounds(gtx, gty));
                                } else {
                                    lemma_clear_to_all(gb, gox, goy, gdx, gdy, j, k as int);
                                }
                            }
                        }
                        assert(template_run(gb, gox, goy, color, t, k as int)
                            == Seq::<Diff>::empty());
                    }
                    break;
                }
                let tpos = Pos::new_unchecked(txi as usize, tyi as usize);
                proof {
                    lemma_pos_view_determines(pos, gox, goy);
                }
                let ghost out_prev = out@;
                match self.board.get(tpos) {
                    Ok(victim) => {
                        if victim.1 != color && t.2.is_capture() {
                            let d_new = Diff {
                                ty: DiffType::Capture { cap: tpos },
                                from: pos,
                                to: tpos,
                            };
                            proof {
                                assert(template_emits(gb, gox, goy, color, t, k as int, d_new));
                                assert(!out@.contains(d_new)) by {
                                    if out@.contains(d_new) {
                                        if out0.contains(d_new) {
                                            let (tj, kj) = choose|tj: int, kj: int|
                                                0 <= tj < ti && template_emits(
                                                    gb,
                                                    gox,
                                                    goy,
                                                    color,
                                                    pt.move_templates()[tj],
                                                    kj,
                                                    d_new,
                                                );
                                            lemma_emission_unique(
                                                gb,
                                                gox,
                                                goy,
                                                pt,
                                                color,
                                                ti as int,
                                                k as int,
                                                tj,
                                                kj,
                                                d_new,
                                            );
                                        } else {
                                            let j = choose|j: int|
                                                1 <= j < k && template_emits(
                                                    gb,
                                                    gox,
                                                    goy,
                                                    color,
                                                    t,
                                                    j,
                                                    d_new,
                                                );
                                            lemma_emission_unique(
                                                gb,
                                                gox,
                                                goy,
                                                pt,
                                                color,
                                                ti as int,
                                                k as int,
                                                ti as int,
                                                j,
                                                d_new,
                                            );
                                        }
                                    }
                                }
                            }
                            out.push(d_new);
                            proof {
                                assert(template_run(gb, gox, goy, color, t, k as int)
                                    == seq![d_new]);
                                assert(out_prev.push(d_new) =~= out_prev + seq![d_new]);
                            }
                        } else {
                            proof {
                                assert(template_run(gb, gox, goy, color, t, k as int)
                                    == Seq::<Diff>::empty());
                            }
                        }
                        proof {
                            assert forall|j: int, d: Diff|
                                #[trigger] template_emits(gb, gox, goy, color, t, j, d) implies j
                                <= k by {
                                if j > k {
                                    lemma_clear_to_all(gb, gox, goy, gdx, gdy, j, k as int);
                                }
                            }
                        }
                        break;
                    },
                    Err(_) => {
                        if t.2.is_normal() {
                            let d_new = Diff { ty: DiffType::Move, from: pos, to: tpos };
                            proof {
                                assert(template_emits(gb, gox, goy, color, t, k as int, d_new));
                                assert(!out@.contains(d_new)) by {
                                    if out@.contains(d_new) {
                                        if out0.contains(d_new) {
                                            let (tj, kj) = choose|tj: int, kj: int|
                                                0 <= tj < ti && template_emits(
                                                    gb,
                                                    gox,
                                                    goy,
                                                    color,
                                                    pt.move_templates()[tj],
                                                    kj,
                                                    d_new,
                                                );
                                            lemma_emission_unique(
                                                gb,
                                                gox,
                                                goy,
                                                pt,
                                                color,
                                                ti as int,
                                                k as int,
                                                tj,
                                                kj,
                                                d_new,
                                            );
                                        } else {
                                            let j = choose|j: int|
                                                1 <= j < k && template_emits(
                                                    gb,
                                                    gox,
                                                    goy,
                                                    color,
                                                    t,
                                                    j,
                                                    d_new,
                                                );
                                            lemma_emission_unique(
                                                gb,
                                                gox,
                                                goy,
                                                pt,
                                                color,
                                                ti as int,
                                                k as int,
                                                ti as int,
                                                j,
                                                d_new,
                                            );
                                        }
                                    }
                                }
                            }
                            out.push(d_new);
                            proof {
                                assert(template_run(gb, gox, goy, color, t, k as int) == seq![
                                    d_new,
                                ] + template_run(gb, gox, goy, color, t, k as int + 1));
                                assert(out_prev.push(d_new) =~= out_prev + seq![d_new]);
                                vstd::seq_lib::lemma_concat_associative(
                                    out_prev,
                                    seq![d_new],
                                    template_run(gb, gox, goy, color, t, k as int + 1),
                                );
                            }
                        } else {
                            proof {
                                assert(template_run(gb, gox, goy, color, t, k as int)
                                    == template_run(gb, gox, goy, color, t, k as int + 1));
                            }
                        }
                        proof {
                            assert(clear_to(gb, gox, goy, gdx, gdy, (k + 1) as int));
                        }
                        k = k + 1;
                    },
                }
            }
            proof {
                assert forall|d: Diff|
                    #[trigger] out@.contains(d) <==> exists|tj: int, kk: int|
                        0 <= tj < ti + 1 && template_emits(
                            gb,
                            gox,
                            goy,
                            color,
                            pt.move_templates()[tj],
                            kk,
                            d,
                        ) by {
                    if out@.contains(d) {
                        if !out0.contains(d) {
                            let j = choose|j: int| template_emits(gb, gox, goy, color, t, j, d);
                            assert(template_emits(
                                gb,
                                gox,
                                goy,
                                color,
                                pt.move_templates()[ti as int],
                                j,
                                d,
                            ));
                        }
                    } else {
                        if exists|tj: int, kk: int|
                            0 <= tj < ti + 1 && template_emits(
                                gb,
                                gox,
                                goy,
                                color,
                                pt.move_templates()[tj],
                                kk,
                                d,
                            ) {
                            let (tj, kk) = choose|tj: int, kk: int|
                                0 <= tj < ti + 1 && template_emits(
                                    gb,
                                    gox,
                                    goy,
                                    color,
                                    pt.move_templates()[tj],
                                    kk,
                                    d,
                                );
                            if tj == ti {
                                assert(template_emits(gb, gox, goy, color, t, kk, d));
                            }
                            assert(false);
                        }
                    }
                }
            }
            ti = ti + 1;
        }
        proof {
            assert forall|d: Diff|
                #[trigger] out@.contains(d) <==> pseudo_legal_at(gb, gox, goy, d) by {
                assert(sq(gb, gox, goy)->0 == (pt, color));
            }
        }
        Some(out)
    }
}

impl Board {
    /// All legal moves of the piece at `pos`: the pseudo-legal moves,
    /// minus those that would leave the mover's own king attacked. Each
    /// candidate is simulated on a disposable copy of the board; `None`
    /// when the square is unoccupied.
    pub fn get_possible_moves(&self, pos: Pos) -> (r: Option<Vec<Diff>>)
        requires
            self.wf(),
        ensures
            r is Some <==> sq(self@, pos@.0, pos@.1) is Some,
            r matches Some(v) ==> forall|d: Diff|
                #[trigger] v@.contains(d) <==> legal_at(self@, pos@.0, pos@.1, d),
            r matches Some(v) ==> v@.no_duplicates(),
            r matches Some(v) ==> v@ == keep_legal(
                self@,
                pos@.0,
                pos@.1,
                pseudo_move_seq(self@, pos@.0, pos@.1),
            ),
    {
        proof {
            use_type_invariant(&pos);
        }
        let ghost gb = self@;
        let ghost gox = pos@.0;
        let ghost goy = pos@.1;
        let (_pt, color) = match self.board.get(pos) {
            Ok(p) => p,
            Err(_) => {
                return None;
            },
        };
        let moves = match self.get_possible_moves_unchecked(pos) {
            Some(m) => m,
            None => {
                proof {
                    assert(false);
                }
                Vec::new()
            },
        };
        let mut out: Vec<Diff> = Vec::new();
        let mut i: usize = 0;
        proof {
            assert(moves@.skip(0) =~= moves@);
        }
        while i < moves.len()
            invariant
                self.wf(),
                gb == self@,
                pos@ == (gox, goy),
                in_bounds(gox, goy),
                i <= moves@.len(),
                sq(gb, gox, goy) is Some,
                (sq(gb, gox, goy)->0).1 == color,
                moves@ == pseudo_move_seq(gb, gox, goy),
                moves@.no_duplicates(),
                out@.no_duplicates(),
                keep_legal(gb, gox, goy, moves@) == out@ + keep_legal(
                    gb,
                    gox,
                    goy,
                    moves@.skip(i as int),
                ),
                forall|d: Diff|
                    #[trigger] moves@.contains(d) <==> pseudo_legal_at(gb, gox, goy, d),
                forall|d: Diff|
                    #[trigger] out@.contains(d) <==> (exists|j: int|
                        0 <= j < i && moves@[j] == d) && legal_at(gb, gox, goy, d),
            decreases moves@.len() - i,
        {
            let d = moves[i];
            proof {
                assert(moves@[i as int] == d);
                assert(moves@.contains(d));
                assert(pseudo_legal_at(gb, gox, goy, d));
                lemma_pseudo_legal_applies(gb, gox, goy, d);
            }
            let mut temp = Board { board: self.board.duplicate() };
            let res = temp.apply(d);
            proof {
                assert(res is Ok);
                assert(temp@ == apply_outcome(gb, d)->Ok_0);
            }
            let exposes_king = temp.is_king_check(color);
            let ghost out_prev = out@;
            proof {
                assert(moves@.skip(i as int).drop_first() =~= moves@.skip(i as int + 1));
                assert(moves@.skip(i as int)[0] == d);
            }
            if !exposes_king {
                proof {
                    assert(legal_at(gb, gox, goy, d));
                    assert(!out@.contains(d)) by {
                        if out@.contains(d) {
                            let j = choose|j: int| 0 <= j < i && moves@[j] == d;
                            assert(moves@[j] == moves@[i as int]);
                        }
                    }
                    assert(keep_legal(gb, gox, goy, moves@.skip(i as int)) == seq![d]
                        + keep_legal(gb, gox, goy, moves@.skip(i as int + 1)));
                    assert(out_prev.push(d) =~= out_prev + seq![d]);
                    vstd::seq_lib::lemma_concat_associative(
                        out_prev,
                        seq![d],
                        keep_legal(gb, gox, goy, moves@.skip(i as int + 1)),
                    );
                }
                out.push(d);
            } else {
                proof {
                    assert(!legal_at(gb, gox, goy, d));
                    assert(keep_legal(gb, gox, goy, moves@.skip(i as int)) == keep_legal(
                        gb,
                        gox,
                        goy,
                        moves@.skip(i as int + 1),
                    ));
                }
            }
            proof {
                assert forall|dd: Diff| #[trigger] out@.contains(dd) <==> (exists|j: int|
                    0 <= j < i + 1 && moves@[j] == dd) && legal_at(gb, gox, goy, dd) by {
                    if out@.contains(dd) {
                        if out_prev.contains(dd) {
                            let j = choose|j: int| 0 <= j < i && moves@[j] == dd;
                            assert(0 <= j < i + 1 && moves@[j] == dd);
                        } else {
                            assert(moves@[i as int] == dd);
                        }
                    } else {
                        if (exists|j: int| 0 <= j < i + 1 && moves@[j] == dd) && legal_at(
                            gb,
                            gox,
                            goy,
                            dd,
                        ) {
                            let j = choose|j: int| 0 <= j < i + 1 && moves@[j] == dd;
                            if j < i {
                                assert(out_prev.contains(dd));
                                assert(false);
                            } else {
                                assert(dd == d);
                                assert(false);
                            }
                        }
                    }
                }
            }
            i = i + 1;
        }
        proof {
            assert forall|d: Diff| #[trigger] out@.contains(d) <==> legal_at(gb, gox, goy, d) by {
                if legal_at(gb, gox, goy, d) {
                    assert(pseudo_legal_at(gb, gox, goy, d));
                    assert(moves@.contains(d));
                }
            }
            assert(keep_legal(gb, gox, goy, moves@.skip(moves@.len() as int)) == Seq::<
                Diff,
            >::empty());
            assert(out@ == keep_legal(gb, gox, goy, pseudo_move_seq(gb, gox, goy)));
        }
        Some(out)
    }

    /// Classify the position for the given color.
    ///
    /// Check: the king is attacked, but some legal move remains. Mate: the
    /// king is attacked with no way to stop it. Safe: the king is not
    /// attacked, and some piece of the color can move. Stale: the king is
    /// not attacked, and no piece of the color can move.
    pub fn game_condition(&self, color: Color) -> (r: GameCondition)
        requires
            self.wf(),
        ensures
            r == spec_game_condition(self@, color),
    {
        let ghost gb = self@;
        let entries = self.board.iter();
        let ghost gentries = entries@;
        let mut has_moves = false;
        let mut i: usize = 0;
        while i < entries.len()
            invariant
                self.wf(),
                gb == self@,
                gentries == entries@,
                i <= gentries.len(),
                forall|e: int|
                    0 <= e < gentries.len() ==> in_bounds(
                        (#[trigger] gentries[e]).0@.0,
                        gentries[e].0@.1,
                    ) && sq(gb, gentries[e].0@.0, gentries[e].0@.1) == Some(
                        (gentries[e].1, gentries[e].2),
                    ),
                forall|x: int, y: int|
                    in_bounds(x, y) && #[trigger] sq(gb, x, y) is Some ==> exists|e: int|
                        0 <= e < gentries.len() && (#[trigger] gentries[e]).0 == mk_pos(x, y),
                has_moves ==> has_legal_move(gb, color),
                !has_moves ==> forall|e: int|
                    0 <= e < i && (#[trigger] gentries[e]).2 == color ==> forall|d: Diff|
                        !legal_at(gb, gentries[e].0@.0, gentries[e].0@.1, d),
            decreases entries@.len() - i,
        {
            let (pos_e, _pt_e, c_e) = entries[i];
            let ghost gox = pos_e@.0;
            let ghost goy = pos_e@.1;
            if c_e == color && !has_moves {
                let moves = match self.get_possible_moves(pos_e) {
                    Some(m) => m,
                    None => {
                        proof {
                            assert(false);
                        }
                        Vec::new()
                    },
                };
                if moves.len() > 0 {
                    proof {
                        assert(moves@.contains(moves@[0]));
                        assert(legal_at(gb, gox, goy, moves@[0]));
                        assert(has_legal_move(gb, color));
                    }
                    has_moves = true;
                } else {
                    proof {
                        assert forall|d: Diff| !legal_at(gb, gox, goy, d) by {
                            if legal_at(gb, gox, goy, d) {
                                assert(moves@.contains(d));
                            }
                        }
                    }
                }
            }
            i = i + 1;
        }
        proof {
            if !has_moves && has_legal_move(gb, color) {
                let (ox, oy, d) = choose|ox: int, oy: int, d: Diff|
                    {
                        &&& in_bounds(ox, oy)
                        &&& #[trigger] legal_at(gb, ox, oy, d)
                        &&& (sq(gb, ox, oy)->0).1 == color
                    };
                assert(sq(gb, ox, oy) is Some);
                let e = choose|e: int|
                    0 <= e < gentries.len() && (#[trigger] gentries[e]).0 == mk_pos(ox, oy);
                lemma_mk_pos(ox, oy);
                assert(gentries[e].0@ == (ox, oy));
                assert(gentries[e].2 == color);
                assert(!legal_at(gb, gentries[e].0@.0, gentries[e].0@.1, d));
                assert(false);
            }
        }
        let check = self.is_king_check(color);
        match (check, has_moves) {
            (true, true) => GameCondition::Check,
            (true, false) => GameCondition::Mate,
            (false, true) => GameCondition::Safe,
            (false, false) => GameCondition::Stale,
        }
    }

    /// Whether the king of the given color is in check, i.e. attacked by
    /// an enemy piece.
    pub fn is_king_check(&self, color: Color) -> (r: bool)
        requires
            self.wf(),
        ensures
            r == in_check(self@, color),
    {
        let ghost gb = self@;
        let entries = self.board.iter();
        let ghost gentries = entries@;
        let mut i: usize = 0;
        while i < entries.len()
            invariant
                self.wf(),
                gb == self@,
                gentries == entries@,
                i <= gentries.len(),
                forall|e: int|
                    0 <= e < gentries.len() ==> in_bounds(
                        (#[trigger] gentries[e]).0@.0,
                        gentries[e].0@.1,
                    ) && sq(gb, gentries[e].0@.0, gentries[e].0@.1) == Some(
                        (gentries[e].1, gentries[e].2),
                    ),
                forall|x: int, y: int|
                    in_bounds(x, y) && #[trigger] sq(gb, x, y) is Some ==> exists|e: int|
                        0 <= e < gentries.len() && (#[trigger] gentries[e]).0 == mk_pos(x, y),
                forall|e: int|
                    0 <= e < i && (#[trigger] gentries[e]).2 != color ==> no_attack_from(
                        gb,
                        gentries[e].0@.0,
                        gentries[e].0@.1,
                        color,
                    ),
            decreases entries@.len() - i,
        {
            let (pos_e, _pt_e, c_e) = entries[i];
            let ghost gox = pos_e@.0;
            let ghost goy = pos_e@.1;
            if c_e != color {
                let moves = match self.get_possible_moves_unchecked(pos_e) {
                    Some(m) => m,
                    None => {
                        proof {
                            assert(false);
                        }
                        Vec::new()
                    },
                };
                let mut j: usize = 0;
                while j < moves.len()
                    invariant
                        self.wf(),
                        gb == self@,
                        j <= moves@.len(),
                        in_bounds(gox, goy),
                        sq(gb, gox, goy) is Some,
                        (sq(gb, gox, goy)->0).1 != color,
                        forall|d: Diff|
                            #[trigger] moves@.contains(d) <==> pseudo_legal_at(gb, gox, goy, d),
                        forall|jj: int|
                            0 <= jj < j ==> sq(
                                gb,
                                (#[trigger] moves@[jj]).to@.0,
                                moves@[jj].to@.1,
                            ) != Some((Piece::King, color)),
                    decreases moves@.len() - j,
                {
                    let d = moves[j];
                    match self.board.get(d.to) {
                        Ok((vp, vc)) => {
                            let is_king = match vp {
                                Piece::King => true,
                                _ => false,
                            };
                            if is_king && vc == color {
                                proof {
                                    assert(moves@[j as int] == d);
                                    assert(moves@.contains(d));
                                    assert(pseudo_legal_at(gb, gox, goy, d));
                                    assert(in_check(gb, color));
                                }
                                return true;
                            }
                        },
                        Err(_) => {},
                    }
                    j = j + 1;
                }
                proof {
                    assert forall|d: Diff| #[trigger] pseudo_legal_at(gb, gox, goy, d) implies sq(
                        gb,
                        d.to@.0,
                        d.to@.1,
                    ) != Some((Piece::King, color)) by {
                        assert(moves@.contains(d));
                        let jj = choose|jj: int| 0 <= jj < moves@.len() && moves@[jj] == d;
                        assert(sq(gb, moves@[jj].to@.0, moves@[jj].to@.1) != Some(
                            (Piece::King, color),
                        ));
                    }
                }
            }
            i = i + 1;
        }
        proof {
            if in_check(gb, color) {
                let (ox, oy, d) = choose|ox: int, oy: int, d: Diff|
                    {
                        &&& in_bounds(ox, oy)
                        &&& #[trigger] pseudo_legal_at(gb, ox, oy, d)
                        &&& (sq(gb, ox, oy)->0).1 != color
                        &&& sq(gb, d.to@.0, d.to@.1) == Some((Piece::King, color))
                    };
                assert(sq(gb, ox, oy) is Some);
                let e = choose|e: int|
                    0 <= e < gentries.len() && (#[trigger] gentries[e]).0 == mk_pos(ox, oy);
                lemma_mk_pos(ox, oy);
                assert(gentries[e].0@ == (ox, oy));
                assert(gentries[e].2 != color);
                assert(no_attack_from(gb, ox, oy, color));
                assert(false);
            }
        }
        false
    }
}

impl Default for Board {
    /// The standard initial position.
    fn default() -> (r: Self)
        ensures
            r.wf(),
            forall|x: int, y: int|
                in_bounds(x, y) ==> #[trigger] sq(r@, x, y) == initial_square(x, y),
    {
        Self::new()
    }
}

impl Default for RawBoard {
    /// The empty grid.
    fn default() -> (r: Self)
        ensures
            grid_wf(r@),
            forall|j: int| 0 <= j < 64 ==> #[trigger] r@[j] is None,
            forall|x: int, y: int| in_bounds(x, y) ==> #[trigger] sq(r@, x, y) is None,
    {
        let mut data: Vec<Option<Square>> = Vec::new();
        let mut i: usize = 0;
        while i < 64
            invariant
                i <= 64,
                data@.len() == i,
                forall|j: int| 0 <= j < i ==> data@[j] is None,
            decreases 64 - i,
        {
            data.push(None);
            i = i + 1;
        }
        RawBoard { data }
    }
}

} // verus!
