use vstd::prelude::*;
use crate::geometry::{Rect, Vec2, UNIT, abs_int, ceil_sqrt, ceil_sqrt_exec, div_toward_zero, lemma_ceil_sqrt, small_vec};
use crate::paddle::{Player, PlayField, MAX_DT};

verus! {

/// Side of the square ball, in thousandths of a pixel.
pub const BALL_SIZE: i64 = 25_000;

/// Ball speed, in pixels per second.
pub const BALL_SPEED: i64 = 300;

/// A serve's vertical draw of this value stands for 1.0.
pub const DEV_UNIT: i64 = 1_000_000;

/// `UNIT` over `DEV_UNIT`: turns a vertical draw into a velocity component.
pub const DEV_SCALE: i64 = 1_000;

/// Farthest the ball can travel along one axis in a frame.
pub const MAX_BALL_TRAVEL: i64 = 300_000_000;

/// The ball: where it is and the direction it moves in.
#[derive(Clone, Copy, Debug, PartialEq, Eq, Structural)]
pub struct Ball {
    pub rect: Rect,
    pub vel: Vec2,
}

/// Where the ball is placed at the start and after each point.
pub open spec fn ball_spawn(field: PlayField) -> Rect {
    Rect { x: ((field.width + 1) / 2) as i64, y: (field.height / 2) as i64, w: BALL_SIZE, h: BALL_SIZE }
}

/// Rounded-up length of the vector `(UNIT, dev * DEV_SCALE)`.
pub open spec fn serve_len(dev: int) -> int {
    ceil_sqrt(UNIT * UNIT + (dev * DEV_SCALE) * (dev * DEV_SCALE))
}

/// Horizontal size of a serve with vertical draw `dev`, rounded down.
pub open spec fn serve_x(dev: int) -> int {
    (UNIT * UNIT) / serve_len(dev)
}

/// Vertical size of a serve with vertical draw `dev`, rounded up.
pub open spec fn serve_y(dev: int) -> int {
    (dev * DEV_SCALE * UNIT + serve_len(dev) - 1) / serve_len(dev)
}

/// The direction of a serve: the vector of one unit horizontally, toward the
/// right or the left, and `dev / DEV_UNIT` units vertically, down when `coin`
/// is set and else up, scaled to length `UNIT`. The horizontal part is rounded
/// down and the vertical part up.
pub open spec fn serve_velocity(toward_right: bool, coin: bool, dev: int) -> Vec2 {
    Vec2 {
        x: (if toward_right { serve_x(dev) } else { -serve_x(dev) }) as i64,
        y: (if coin { serve_y(dev) } else { -serve_y(dev) }) as i64,
    }
}

/// The facts on a serve's two sizes: its length is within a millionth of a
/// unit, and the ratio of its sides lies in `[1/2, 2)` when the draw does.
pub proof fn lemma_serve_parts(dev: int)
    requires
        0 <= dev <= 2 * DEV_UNIT,
    ensures
        0 < serve_x(dev) <= UNIT,
        0 <= serve_y(dev) <= UNIT,
        (UNIT - 1000) * (UNIT - 1000) <= serve_x(dev) * serve_x(dev) + serve_y(dev) * serve_y(dev),
        serve_x(dev) * serve_x(dev) + serve_y(dev) * serve_y(dev) <= (UNIT + 1000) * (UNIT + 1000),
        2 * DEV_UNIT <= 4 * dev ==> serve_x(dev) <= 2 * serve_y(dev),
        dev < 2 * DEV_UNIT ==> serve_y(dev) < 2 * serve_x(dev),
{
    let u = UNIT as int;
    let y = dev * DEV_SCALE;
    let n = u * u + y * y;
    assert(0 <= y * y <= 4 * u * u) by (nonlinear_arith)
        requires 0 <= y <= 2 * u;
    assert(u * u > 0) by (nonlinear_arith)
        requires u > 0;
    lemma_ceil_sqrt(n);
    let len = serve_len(dev);
    assert(len != 0) by (nonlinear_arith)
        requires len * len >= n, n > 0;
    assert(u <= len <= 3 * u) by (nonlinear_arith)
        requires (len - 1) * (len - 1) < n, len * len >= n, u * u <= n, n <= 5 * u * u, len > 0, u > 0;
    assert(y <= len) by (nonlinear_arith)
        requires y * y <= len * len, 0 <= y, len > 0;
    let sx = serve_x(dev);
    let sy = serve_y(dev);
    assert(sx * len <= u * u < (sx + 1) * len) by (nonlinear_arith)
        requires sx == (u * u) / len, len > 0;
    assert(y * u <= sy * len && (sy - 1) * len < y * u) by (nonlinear_arith)
        requires sy == (y * u + len - 1) / len, len > 0, y >= 0, u > 0;
    assert(0 < sx <= u) by (nonlinear_arith)
        requires sx * len <= u * u < (sx + 1) * len, u <= len <= 3 * u, u > 3;
    assert(0 <= sy <= u) by (nonlinear_arith)
        requires y * u <= sy * len, (sy - 1) * len < y * u, 0 <= y <= len, len > 0, u > 0;
    assert(sy * len == (sy - 1) * len + len) by (nonlinear_arith);
    assert(0 <= sx * len && 0 <= sy * len) by (nonlinear_arith)
        requires sx >= 0, sy >= 0, len > 0;
    // Upper bound on the length.
    assert((sx * sx + sy * sy) * (len * len) <= u * u * n + 2 * y * u * len + len * len) by (nonlinear_arith)
        requires
            0 <= sx * len <= u * u,
            0 <= sy * len <= y * u + len,
            n == u * u + y * y,
            sx >= 0, sy >= 0, len > 0, y >= 0, u > 0;
    assert(u * u * n + 2 * y * u * len + len * len <= (u * u + 4 * u + 1) * (len * len)) by (nonlinear_arith)
        requires n <= len * len, 0 <= y <= 2 * u, u <= len, u > 0;
    assert(sx * sx + sy * sy <= u * u + 4 * u + 1) by (nonlinear_arith)
        requires (sx * sx + sy * sy) * (len * len) <= (u * u + 4 * u + 1) * (len * len), len > 0;
    // Lower bound on the length.
    let s = (sx + 1) * (sx + 1) + sy * sy;
    assert(s * (len * len) > u * u * n) by (nonlinear_arith)
        requires
            u * u < (sx + 1) * len,
            y * u <= sy * len,
            n == u * u + y * y,
            s == (sx + 1) * (sx + 1) + sy * sy,
            sx >= 0, sy >= 0, y >= 0, u > 0, len > 0;
    assert(u * u * n > (len - 1) * (len - 1) * (u * u)) by (nonlinear_arith)
        requires (len - 1) * (len - 1) < n, u > 0;
    assert(s > u * u - 2 * u) by (nonlinear_arith)
        requires
            s * (len * len) > (len - 1) * (len - 1) * (u * u),
            len >= u, u > 0;
    assert((u - 1000) * (u - 1000) <= sx * sx + sy * sy) by (nonlinear_arith)
        requires
            s > u * u - 2 * u,
            s == (sx + 1) * (sx + 1) + sy * sy,
            sx <= u, u == 1_000_000_000;
    assert(sx * sx + sy * sy <= (u + 1000) * (u + 1000)) by (nonlinear_arith)
        requires sx * sx + sy * sy <= u * u + 4 * u + 1, u > 0;
    // The ratio of the sides.
    if 2 * DEV_UNIT <= 4 * dev {
        assert(sx <= 2 * sy) by (nonlinear_arith)
            requires u <= 2 * y, y * u <= sy * len, sx * len <= u * u, len > 0, u > 0;
    }
    if dev < 2 * DEV_UNIT {
        assert(y <= 2 * u - 1000);
        assert(sy < 2 * sx) by (nonlinear_arith)
            requires
                y <= 2 * u - 1000,
                (sy - 1) * len < y * u,
                u * u < (sx + 1) * len,
                len <= 3 * u, u > 0, len > 0;
    }
}

/// Builds the serve of `serve_velocity`.
pub fn serve_direction(toward_right: bool, coin: bool, dev: i64) -> (r: Vec2)
    requires
        0 <= dev <= 2 * DEV_UNIT,
    ensures
        r == serve_velocity(toward_right, coin, dev as int),
        small_vec(r),
{
    proof {
        lemma_serve_parts(dev as int);
    }
    let y: u64 = (dev as u64) * (DEV_SCALE as u64);
    assert(y * y <= 4_000_000_000_000_000_000) by (nonlinear_arith)
        requires 0 <= y <= 2_000_000_000;
    let n: u64 = 1_000_000_000_000_000_000 + y * y;
    let len = ceil_sqrt_exec(n);
    assert(len as int == serve_len(dev as int));
    let sx: u64 = 1_000_000_000_000_000_000 / len;
    assert(y * 1_000_000_000 <= 2_000_000_000_000_000_000) by (nonlinear_arith)
        requires 0 <= y <= 2_000_000_000;
    let sy: u64 = (y * 1_000_000_000 + len - 1) / len;
    let x: i64 = if toward_right { sx as i64 } else { -(sx as i64) };
    let vy: i64 = if coin { sy as i64 } else { -(sy as i64) };
    Vec2 { x, y: vy }
}

/// Distance the ball covers along one axis in `dt` microseconds at velocity component `v`.
pub open spec fn ball_travel(v: int, dt: int) -> int {
    div_toward_zero(v * BALL_SPEED * dt, 1_000_000_000_000)
}

impl Ball {
    pub open spec fn wf(self) -> bool {
        self.rect.in_range() && small_vec(self.vel)
    }

    /// Horizontal position after moving for `dt` microseconds.
    pub open spec fn moved_x(self, dt: int) -> int {
        self.rect.x + ball_travel(self.vel.x as int, dt)
    }

    /// Vertical position after moving for `dt` microseconds.
    pub open spec fn moved_y(self, dt: int) -> int {
        self.rect.y + ball_travel(self.vel.y as int, dt)
    }

    /// The move carries the ball past the right edge: the left player scores.
    pub open spec fn passes_right(self, dt: int, field: PlayField) -> bool {
        self.moved_x(dt) > field.width - self.rect.w
    }

    /// The move carries the ball past the left edge: the right player scores.
    pub open spec fn passes_left(self, dt: int, field: PlayField) -> bool {
        !self.passes_right(dt, field) && self.moved_x(dt) < 0
    }

    /// The ball after its move, served again from the centre if it left the field.
    pub open spec fn after_move(self, dt: int, field: PlayField, coin: bool, dev: int) -> Ball {
        if self.passes_right(dt, field) {
            Ball { rect: ball_spawn(field), vel: serve_velocity(true, coin, dev) }
        } else if self.passes_left(dt, field) {
            Ball { rect: ball_spawn(field), vel: serve_velocity(false, coin, dev) }
        } else {
            Ball {
                rect: Rect { x: self.moved_x(dt) as i64, y: self.moved_y(dt) as i64, ..self.rect },
                vel: self.vel,
            }
        }
    }

    /// Past the bottom wall the ball is sent up at full unit speed, past the
    /// top wall down; the horizontal component is kept as it is.
    pub open spec fn after_walls(self, field: PlayField) -> Ball {
        if self.rect.y > field.height - self.rect.h {
            Ball { vel: Vec2 { y: (-UNIT) as i64, ..self.vel }, ..self }
        } else if self.rect.y < 0 {
            Ball { vel: Vec2 { y: UNIT, ..self.vel }, ..self }
        } else {
            self
        }
    }

    /// The ball after one frame.
    pub open spec fn updated(self, dt: int, field: PlayField, coin: bool, dev: int) -> Ball {
        self.after_move(dt, field, coin, dev).after_walls(field)
    }

    /// A ball at the centre of the field, served toward the right when
    /// `player_one_scored`, else toward the left, and down when `coin` is set.
    pub fn new(player_one_scored: bool, coin: bool, field: PlayField) -> (r: Ball)
        requires
            field.wf(),
        ensures
            r.rect == ball_spawn(field),
            r.vel == serve_velocity(player_one_scored, coin, DEV_UNIT as int),
            r.wf(),
    {
        Ball {
            rect: Rect::new((field.width + 1) / 2, field.height / 2, BALL_SIZE, BALL_SIZE),
            vel: serve_direction(player_one_scored, coin, DEV_UNIT),
        }
    }

    /// Advances the ball by one frame of `dt` microseconds. A ball that
    /// leaves the field on the right scores for `player1`, on the left for
    /// `player2`, and is served again from the centre; `coin` and `dev` give
    /// the vertical part of that serve. Then the top and bottom walls turn it.
    pub fn update(
        &mut self,
        dt: u64,
        player1: &mut Player,
        player2: &mut Player,
        field: PlayField,
        coin: bool,
        dev: i64,
    )
        requires
            old(self).wf(),
            field.wf(),
            dt <= MAX_DT,
            0 <= dev <= 2 * DEV_UNIT,
            old(player1).score < u32::MAX,
            old(player2).score < u32::MAX,
        ensures
            *final(self) == old(self).updated(dt as int, field, coin, dev as int),
            *final(player1) == (Player {
                score: (old(player1).score + if old(self).passes_right(dt as int, field) { 1int } else { 0 }) as u32,
                ..*old(player1)
            }),
            *final(player2) == (Player {
                score: (old(player2).score + if old(self).passes_left(dt as int, field) { 1int } else { 0 }) as u32,
                ..*old(player2)
            }),
            small_vec(final(self).vel),
            final(self).rect.w == old(self).rect.w || final(self).rect.w == BALL_SIZE,
            final(self).rect.h == old(self).rect.h || final(self).rect.h == BALL_SIZE,
            0 <= final(self).rect.x <= field.width,
            old(self).rect.y - MAX_BALL_TRAVEL <= final(self).rect.y <= old(self).rect.y + MAX_BALL_TRAVEL
                || final(self).rect == ball_spawn(field),
            final(self).rect.y > field.height - final(self).rect.h ==> final(self).vel.y == -UNIT,
            final(self).rect.y < 0 && final(self).rect.y <= field.height - final(self).rect.h
                ==> final(self).vel.y == UNIT,
            old(self).vel.y == UNIT ==> final(self).rect.y >= old(self).rect.y || final(self).rect == ball_spawn(field),
            old(self).vel.y == -UNIT ==> final(self).rect.y <= old(self).rect.y || final(self).rect == ball_spawn(field),
    {
        let ghost start = *self;
        proof {
            lemma_travel_bound(self.vel.x as int, dt as int);
            lemma_travel_bound(self.vel.y as int, dt as int);
        }
        let dx = travel(self.vel.x, dt);
        let dy = travel(self.vel.y, dt);
        let x = self.rect.x + dx;
        let y = self.rect.y + dy;
        if x > field.width - self.rect.w {
            self.vel = serve_direction(true, coin, dev);
            self.rect = Rect::new((field.width + 1) / 2, field.height / 2, BALL_SIZE, BALL_SIZE);
            player1.score = player1.score + 1;
        } else if x < 0 {
            self.vel = serve_direction(false, coin, dev);
            self.rect = Rect::new((field.width + 1) / 2, field.height / 2, BALL_SIZE, BALL_SIZE);
            player2.score = player2.score + 1;
        } else {
            self.rect.x = x;
            self.rect.y = y;
        }
        assert(*self == start.after_move(dt as int, field, coin, dev as int));
        if self.rect.y > field.height - self.rect.h {
            self.vel.y = -UNIT;
        } else if self.rect.y < 0 {
            self.vel.y = UNIT;
        }
    }
}

proof fn lemma_travel_bound(v: int, dt: int)
    requires
        -UNIT <= v <= UNIT,
        0 <= dt <= MAX_DT,
    ensures
        -MAX_BALL_TRAVEL <= ball_travel(v, dt) <= MAX_BALL_TRAVEL,
{
    assert(0 <= v * dt <= 1_000_000_000_000_000_000 || 0 <= -(v * dt) <= 1_000_000_000_000_000_000) by (nonlinear_arith)
        requires -UNIT <= v <= UNIT, 0 <= dt <= MAX_DT;
    assert(v * BALL_SPEED * dt == 300 * (v * dt)) by (nonlinear_arith);
}

/// One axis of the ball's move in a frame, rounded toward zero.
fn travel(v: i64, dt: u64) -> (r: i64)
    requires
        -UNIT <= v <= UNIT,
        dt <= MAX_DT,
    ensures
        r as int == ball_travel(v as int, dt as int),
        -MAX_BALL_TRAVEL <= r <= MAX_BALL_TRAVEL,
        v >= 0 ==> r >= 0,
        v <= 0 ==> r <= 0,
{
    proof {
        lemma_travel_bound(v as int, dt as int);
    }
    let d: i128 = dt as i128;
    let w: i128 = v as i128;
    assert(0 <= w * d <= 1_000_000_000_000_000_000 || 0 <= -(w * d) <= 1_000_000_000_000_000_000) by (nonlinear_arith)
        requires -UNIT <= w <= UNIT, 0 <= d <= MAX_DT;
    let p: i128 = w * d;
    assert(w * (BALL_SPEED as int) * d == (BALL_SPEED as int) * p) by (nonlinear_arith) requires p == w * d;
    let product: i128 = (BALL_SPEED as i128) * p;
    assert(v >= 0 ==> p >= 0) by (nonlinear_arith) requires p == w * d, w == v, d >= 0;
    assert(v <= 0 ==> p <= 0) by (nonlinear_arith) requires p == w * d, w == v, d >= 0;
    if product >= 0 {
        (product / 1_000_000_000_000) as i64
    } else {
        -(((-product) / 1_000_000_000_000) as i64)
    }
}

/// A serve has unit length to within a millionth, and for a draw in
/// `[1/2, 2)` the ratio of its vertical to its horizontal size lies in
/// `[1/2, 2)` too.
pub proof fn lemma_serve_unit_length(toward_right: bool, coin: bool, dev: int)
    requires
        0 <= dev <= 2 * DEV_UNIT,
    ensures
        ({
            let v = serve_velocity(toward_right, coin, dev);
            &&& (UNIT - 1000) * (UNIT - 1000) <= v.x * v.x + v.y * v.y <= (UNIT + 1000) * (UNIT + 1000)
            &&& 2 * DEV_UNIT <= 4 * dev ==> abs_int(v.x as int) <= 2 * abs_int(v.y as int)
            &&& dev < 2 * DEV_UNIT ==> abs_int(v.y as int) < 2 * abs_int(v.x as int)
        }),
{
    lemma_serve_parts(dev);
    let v = serve_velocity(toward_right, coin, dev);
    assert(v.x * v.x == serve_x(dev) * serve_x(dev)) by (nonlinear_arith)
        requires v.x == serve_x(dev) || v.x == -serve_x(dev);
    assert(v.y * v.y == serve_y(dev) * serve_y(dev)) by (nonlinear_arith)
        requires v.y == serve_y(dev) || v.y == -serve_y(dev);
}

/// A serve heads toward the side it was sent to.
pub proof fn lemma_serve_direction(toward_right: bool, coin: bool, dev: int)
    requires
        0 <= dev <= 2 * DEV_UNIT,
    ensures
        toward_right ==> serve_velocity(toward_right, coin, dev).x > 0,
        !toward_right ==> serve_velocity(toward_right, coin, dev).x < 0,
{
    lemma_serve_parts(dev);
}

/// A ball that leaves the field on the right is put back at the centre and
/// served to the right; one that leaves it on the left is put back at the
/// centre and served to the left. (The point it earns is in the contract of
/// `Ball::update`.)
pub proof fn lemma_scoring_respawns(b: Ball, dt: int, field: PlayField, coin: bool, dev: int)
    requires
        b.wf(),
        field.wf(),
        0 <= dt <= MAX_DT,
        0 <= dev <= 2 * DEV_UNIT,
    ensures
        b.passes_right(dt, field) ==> b.updated(dt, field, coin, dev).rect == ball_spawn(field)
            && b.updated(dt, field, coin, dev).vel.x > 0,
        b.passes_left(dt, field) ==> b.updated(dt, field, coin, dev).rect == ball_spawn(field)
            && b.updated(dt, field, coin, dev).vel.x < 0,
{
    lemma_serve_direction(true, coin, dev);
    lemma_serve_direction(false, coin, dev);
}

/// A wall bounce sets the vertical component to a full unit and keeps the
/// horizontal one, so the velocity is then at least a unit long, and longer
/// whenever it moves sideways at all.
pub proof fn lemma_bounce_lengthens(b: Ball, field: PlayField)
    requires
        b.rect.y > field.height - b.rect.h || b.rect.y < 0,
    ensures
        b.after_walls(field).vel.x == b.vel.x,
        b.after_walls(field).vel.y == UNIT || b.after_walls(field).vel.y == -UNIT,
        b.after_walls(field).vel.x * b.after_walls(field).vel.x + b.after_walls(field).vel.y * b.after_walls(field).vel.y
            == b.vel.x * b.vel.x + UNIT * UNIT,
{
    let v = b.after_walls(field).vel;
    assert(v.y * v.y == UNIT * UNIT) by (nonlinear_arith)
        requires v.y == UNIT || v.y == -UNIT;
}

} // verus!
