use vstd::prelude::*;

verus! {

/// The magnitude of an integer.
pub open spec fn abs_of(a: int) -> int {
    if a < 0 {
        -a
    } else {
        a
    }
}

/// Integer division truncated toward zero, as machine division does it.
pub open spec fn trunc_div(a: int, b: int) -> int {
    if (a < 0) == (b < 0) {
        abs_of(a) / abs_of(b)
    } else {
        -(abs_of(a) / abs_of(b))
    }
}

/// An integer 2D displacement. It serves both as a move-template delta and
/// as an unvalidated coordinate before bounds checking.
#[derive(Debug, Clone, Copy, PartialEq, Eq, Structural, Hash)]
pub struct Vector {
    pub x: i32,
    pub y: i32,
}

impl Vector {
    pub fn zero() -> (r: Self)
        ensures
            r.x == 0 && r.y == 0,
    {
        Vector { x: 0, y: 0 }
    }

    /// Component-wise sum.
    pub fn plus(self, other: Vector) -> (r: Vector)
        requires
            i32::MIN <= self.x + other.x <= i32::MAX,
            i32::MIN <= self.y + other.y <= i32::MAX,
        ensures
            r.x == self.x + other.x,
            r.y == self.y + other.y,
    {
        Vector { x: self.x + other.x, y: self.y + other.y }
    }

    /// Component-wise difference.
    pub fn minus(self, other: Vector) -> (r: Vector)
        requires
            i32::MIN <= self.x - other.x <= i32::MAX,
            i32::MIN <= self.y - other.y <= i32::MAX,
        ensures
            r.x == self.x - other.x,
            r.y == self.y - other.y,
    {
        Vector { x: self.x - other.x, y: self.y - other.y }
    }

    /// Divide both components by an integer factor, truncating toward
    /// zero as machine division does. The one quotient that machine
    /// division cannot represent (`i32::MIN / -1`) is excluded, as is
    /// division by zero; the original panics on both.
    pub fn divided_by(self, s: i32) -> (r: Vector)
        requires
            s != 0,
            !(self.x == i32::MIN && s == -1),
            !(self.y == i32::MIN && s == -1),
        ensures
            r.x == trunc_div(self.x as int, s as int),
            r.y == trunc_div(self.y as int, s as int),
    {
        Vector { x: div_trunc(self.x, s), y: div_trunc(self.y, s) }
    }

    /// Scale both components by an integer factor.
    pub fn scaled(self, s: i32) -> (r: Vector)
        requires
            i32::MIN <= self.x * s <= i32::MAX,
            i32::MIN <= self.y * s <= i32::MAX,
        ensures
            r.x == self.x * s,
            r.y == self.y * s,
    {
        Vector { x: self.x * s, y: self.y * s }
    }
}


/// One truncating division, computed on magnitudes and re-signed, as
/// machine division behaves.
fn div_trunc(a: i32, b: i32) -> (q: i32)
    requires
        b != 0,
        !(a == i32::MIN && b == -1),
    ensures
        q == trunc_div(a as int, b as int),
{
    let a64: i64 = a as i64;
    let b64: i64 = b as i64;
    let am: i64 = if a64 < 0 {
        -a64
    } else {
        a64
    };
    let bm: i64 = if b64 < 0 {
        -b64
    } else {
        b64
    };
    let qm: i64 = am / bm;
    proof {
        assert(am == abs_of(a as int));
        assert(bm == abs_of(b as int));
        vstd::arithmetic::div_mod::lemma_div_nonincreasing(am as int, bm as int);
        vstd::arithmetic::div_mod::lemma_div_pos_is_pos(am as int, bm as int);
        if am == 0x8000_0000 && bm >= 2 {
            vstd::arithmetic::div_mod::lemma_div_is_ordered_by_denominator(am as int, 2, bm as int);
        }
    }
    if (a < 0) == (b < 0) {
        qm as i32
    } else {
        (-qm) as i32
    }
}

impl Default for Vector {
    fn default() -> (r: Self)
        ensures
            r.x == 0 && r.y == 0,
    {
        Vector::zero()
    }
}

} // verus!
