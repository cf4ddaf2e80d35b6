use vstd::prelude::*;

verus! {

/// A velocity component of this value stands for 1.0.
pub const UNIT: i64 = 1_000_000_000;

/// Largest magnitude of a coordinate that the simulation accepts.
pub const POS_LIMIT: i64 = 1_099_511_627_776;

/// Largest width or height of a rectangle or of the play field.
pub const SIZE_LIMIT: i64 = 4_294_967_296;

/// An axis-aligned rectangle: top-left corner and size.
#[derive(Clone, Copy, Debug, PartialEq, Eq, Structural)]
pub struct Rect {
    pub x: i64,
    pub y: i64,
    pub w: i64,
    pub h: i64,
}

/// A two-dimensional vector of fixed-point components.
#[derive(Clone, Copy, Debug, PartialEq, Eq, Structural)]
pub struct Vec2 {
    pub x: i64,
    pub y: i64,
}

pub open spec fn max_int(a: int, b: int) -> int {
    if a >= b { a } else { b }
}

pub open spec fn min_int(a: int, b: int) -> int {
    if a <= b { a } else { b }
}

pub open spec fn abs_int(a: int) -> int {
    if a >= 0 { a } else { -a }
}

/// Length of the common part of `[a_lo, a_lo + a_len]` and `[b_lo, b_lo + b_len]`;
/// negative when they are apart, zero when they touch.
pub open spec fn overlap(a_lo: int, a_len: int, b_lo: int, b_len: int) -> int {
    min_int(a_lo + a_len, b_lo + b_len) - max_int(a_lo, b_lo)
}

/// Two rectangles intersect when they overlap or touch on both axes.
pub open spec fn intersects(a: Rect, b: Rect) -> bool {
    overlap(a.x as int, a.w as int, b.x as int, b.w as int) >= 0
        && overlap(a.y as int, a.h as int, b.y as int, b.h as int) >= 0
}

/// The rectangle common to `a` and `b`, where they intersect.
pub open spec fn intersection(a: Rect, b: Rect) -> Rect {
    Rect {
        x: max_int(a.x as int, b.x as int) as i64,
        y: max_int(a.y as int, b.y as int) as i64,
        w: overlap(a.x as int, a.w as int, b.x as int, b.w as int) as i64,
        h: overlap(a.y as int, a.h as int, b.y as int, b.h as int) as i64,
    }
}

impl Rect {
    /// Position within the accepted limits, size positive and within its limit.
    pub open spec fn in_range(self) -> bool {
        &&& -POS_LIMIT <= self.x <= POS_LIMIT
        &&& -POS_LIMIT <= self.y <= POS_LIMIT
        &&& 0 < self.w <= SIZE_LIMIT
        &&& 0 < self.h <= SIZE_LIMIT
    }

    pub fn new(x: i64, y: i64, w: i64, h: i64) -> (r: Rect)
        ensures
            r == (Rect { x, y, w, h }),
    {
        Rect { x, y, w, h }
    }

    /// The common part of two rectangles; `None` when they neither overlap nor touch.
    pub fn intersect(&self, other: Rect) -> (r: Option<Rect>)
        requires
            self.in_range(),
            other.in_range(),
        ensures
            r == (if intersects(*self, other) { Some(intersection(*self, other)) } else { None }),
    {
        let left = if self.x >= other.x { self.x } else { other.x };
        let top = if self.y >= other.y { self.y } else { other.y };
        let sr = self.x + self.w;
        let or = other.x + other.w;
        let right = if sr <= or { sr } else { or };
        let sb = self.y + self.h;
        let ob = other.y + other.h;
        let bottom = if sb <= ob { sb } else { ob };
        if right < left || bottom < top {
            return None;
        }
        Some(Rect { x: left, y: top, w: right - left, h: bottom - top })
    }
}

/// Integer division that rounds toward zero, as machine division does.
pub open spec fn div_toward_zero(a: int, d: int) -> int {
    if a >= 0 { a / d } else { -((-a) / d) }
}

/// `r` is the least natural number whose square is at least `n`.
pub open spec fn is_ceil_sqrt(n: int, r: int) -> bool {
    &&& r >= 0
    &&& r * r >= n
    &&& (r == 0 || (r - 1) * (r - 1) < n)
}

/// The least number from `r` upward whose square is at least `n`.
pub open spec fn root_search(n: int, r: int) -> int
    decreases n - r,
{
    if r * r >= n || r >= n {
        r
    } else {
        root_search(n, r + 1)
    }
}

/// The least natural number whose square is at least `n`.
pub open spec fn ceil_sqrt(n: int) -> int {
    root_search(n, 0)
}

proof fn lemma_root_search(n: int, r: int)
    requires
        n > 0,
        r >= 0,
        r == 0 || (r - 1) * (r - 1) < n,
    ensures
        is_ceil_sqrt(n, root_search(n, r)),
    decreases n - r,
{
    if r * r >= n {
    } else if r >= n {
        assert(r * r >= r) by (nonlinear_arith)
            requires r >= 1;
    } else {
        lemma_root_search(n, r + 1);
    }
}

/// The rounded-up square root is what its name says.
pub proof fn lemma_ceil_sqrt(n: int)
    requires
        n > 0,
    ensures
        is_ceil_sqrt(n, ceil_sqrt(n)),
{
    lemma_root_search(n, 0);
}

proof fn lemma_ceil_sqrt_unique(n: int, r: int)
    requires
        n > 0,
        is_ceil_sqrt(n, r),
    ensures
        ceil_sqrt(n) == r,
{
    lemma_ceil_sqrt(n);
    let c = ceil_sqrt(n);
    if c < r {
        assert(c * c <= (r - 1) * (r - 1)) by (nonlinear_arith)
            requires 0 <= c, c <= r - 1;
    } else if r < c {
        assert(r * r <= (c - 1) * (c - 1)) by (nonlinear_arith)
            requires 0 <= r, r <= c - 1;
    }
}

/// Largest squared length that `normalize` accepts.
pub const SQ_LIMIT: u64 = 9_000_000_000_000_000_000;

/// The least `r` with `r * r >= n`, found by bisection.
pub(crate) fn ceil_sqrt_exec(n: u64) -> (r: u64)
    requires
        0 < n <= SQ_LIMIT,
    ensures
        r as int == ceil_sqrt(n as int),
        (r as int) * (r as int) >= n,
        0 < r <= 3_000_000_000,
{
    let mut lo: u64 = 0;
    let mut hi: u64 = 3_000_000_000;
    while hi - lo > 1
        invariant
            lo < hi <= 3_000_000_000,
            (lo as int) * (lo as int) < n,
            (hi as int) * (hi as int) >= n,
        decreases hi - lo,
    {
        let mid: u64 = lo + (hi - lo) / 2;
        assert((mid as int) * (mid as int) <= 9_000_000_000_000_000_000) by (nonlinear_arith)
            requires 0 <= mid <= 3_000_000_000;
        if mid * mid >= n {
            hi = mid;
        } else {
            lo = mid;
        }
    }
    proof {
        assert(is_ceil_sqrt(n as int, hi as int));
        lemma_ceil_sqrt_unique(n as int, hi as int);
    }
    hi
}

/// Components no larger than `UNIT` in magnitude.
pub open spec fn small_vec(v: Vec2) -> bool {
    -UNIT <= v.x <= UNIT && -UNIT <= v.y <= UNIT
}

} // verus!
