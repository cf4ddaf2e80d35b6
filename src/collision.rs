use vstd::prelude::*;
use crate::geometry::{Rect, Vec2, abs_int, intersects, intersection, overlap, small_vec};

verus! {

/// Sign of `v`: `1`, `0` or `-1`.
pub open spec fn sign(v: int) -> int {
    if v > 0 { 1 } else if v < 0 { -1 } else { 0 }
}

/// Sign of the x distance from the centre of `a` to the centre of `b`.
pub open spec fn center_sign_x(a: Rect, b: Rect) -> int {
    sign((2 * b.x + b.w) - (2 * a.x + a.w))
}

/// Sign of the y distance from the centre of `a` to the centre of `b`.
pub open spec fn center_sign_y(a: Rect, b: Rect) -> int {
    sign((2 * b.y + b.h) - (2 * a.y + a.h))
}

/// `p` moved back by `depth` against the direction of sign `s` (not at all for `0`).
pub open spec fn push_back(p: int, s: int, depth: int) -> int {
    if s > 0 {
        p - depth
    } else if s < 0 {
        p + depth
    } else {
        p
    }
}

/// The common part of `a` and `b` is wider than it is tall, so `a` is pushed out vertically.
pub open spec fn resolves_vertically(a: Rect, b: Rect) -> bool {
    intersection(a, b).w > intersection(a, b).h
}

/// The moving rectangle `a` and its velocity after being pushed out of `b`.
///
/// Apart rectangles are left as they are. Otherwise `a` moves back along the
/// axis of least penetration by the depth of the overlap, away from the centre
/// of `b` (not at all where the centres line up on that axis), and the
/// velocity on that axis turns away from `b`; a lined-up axis counts as not
/// positive.
pub open spec fn resolved(a: Rect, vel: Vec2, b: Rect) -> (Rect, Vec2) {
    if !intersects(a, b) {
        (a, vel)
    } else if resolves_vertically(a, b) {
        let s = center_sign_y(a, b);
        let vy = if s > 0 { -abs_int(vel.y as int) } else { abs_int(vel.y as int) };
        (Rect { y: push_back(a.y as int, s, intersection(a, b).h as int) as i64, ..a }, Vec2 { y: vy as i64, ..vel })
    } else {
        let s = center_sign_x(a, b);
        let vx = if s < 0 { abs_int(vel.x as int) } else { -abs_int(vel.x as int) };
        (Rect { x: push_back(a.x as int, s, intersection(a, b).w as int) as i64, ..a }, Vec2 { x: vx as i64, ..vel })
    }
}

/// Pushes the rectangle `a`, moving with `vel`, out of the rectangle `b` and
/// bounces it off `b`.
pub fn resolve_collision(a: &mut Rect, vel: &mut Vec2, b: &Rect)
    requires
        old(a).in_range(),
        b.in_range(),
        old(vel).x > i64::MIN,
        old(vel).y > i64::MIN,
    ensures
        (*final(a), *final(vel)) == resolved(*old(a), *old(vel), *b),
        !intersects(*old(a), *b) ==> *final(a) == *old(a) && *final(vel) == *old(vel),
        final(a).w == old(a).w && final(a).h == old(a).h,
        old(a).x - old(a).w <= final(a).x <= old(a).x + old(a).w,
        old(a).y - old(a).h <= final(a).y <= old(a).y + old(a).h,
        small_vec(*old(vel)) ==> small_vec(*final(vel)),
        intersects(*old(a), *b) ==> b.y - 2 * old(a).h <= final(a).y <= b.y + b.h + old(a).h,
        intersects(*old(a), *b) ==> b.x - 2 * old(a).w <= final(a).x <= b.x + b.w + old(a).w,
{
    let inter = match a.intersect(*b) {
        Some(inter) => inter,
        None => return,
    };
    let to_x: i64 = (2 * b.x + b.w) - (2 * a.x + a.w);
    let to_y: i64 = (2 * b.y + b.h) - (2 * a.y + a.h);
    let sign_x: i64 = if to_x > 0 { 1 } else if to_x < 0 { -1 } else { 0 };
    let sign_y: i64 = if to_y > 0 { 1 } else if to_y < 0 { -1 } else { 0 };
    if inter.w > inter.h {
        if sign_y > 0 {
            a.y = a.y - inter.h;
        } else if sign_y < 0 {
            a.y = a.y + inter.h;
        }
        let mag: i64 = if vel.y >= 0 { vel.y } else { -vel.y };
        if sign_y > 0 {
            vel.y = -mag;
        } else {
            vel.y = mag;
        }
    } else {
        if sign_x > 0 {
            a.x = a.x - inter.w;
        } else if sign_x < 0 {
            a.x = a.x + inter.w;
        }
        let mag: i64 = if vel.x >= 0 { vel.x } else { -vel.x };
        if sign_x < 0 {
            vel.x = mag;
        } else {
            vel.x = -mag;
        }
    }
}

/// Rectangles that neither overlap nor touch are left alone: the moving
/// rectangle and its velocity come back unchanged.
pub proof fn lemma_resolve_apart_is_noop(a: Rect, vel: Vec2, b: Rect)
    requires
        !intersects(a, b),
    ensures
        resolved(a, vel, b) == (a, vel),
{
}

/// Neither of the spans `[a_lo, a_lo + a_len]` and `[b_lo, b_lo + b_len]`
/// lies strictly inside the other: one begins first and also ends first.
pub open spec fn staggered(a_lo: int, a_len: int, b_lo: int, b_len: int) -> bool {
    (a_lo <= b_lo && a_lo + a_len <= b_lo + b_len) || (b_lo <= a_lo && b_lo + b_len <= a_lo + a_len)
}

/// After resolution the moving rectangle no longer overlaps the other along
/// the axis it was pushed on: the two only touch there. This holds wherever
/// neither rectangle's span on that axis lies strictly inside the other's and
/// the centres do not line up on it (a lined-up axis gets no push).
pub proof fn lemma_resolve_separates(a: Rect, vel: Vec2, b: Rect)
    requires
        a.in_range(),
        b.in_range(),
        intersects(a, b),
        resolves_vertically(a, b) ==> staggered(a.y as int, a.h as int, b.y as int, b.h as int)
            && center_sign_y(a, b) != 0,
        !resolves_vertically(a, b) ==> staggered(a.x as int, a.w as int, b.x as int, b.w as int)
            && center_sign_x(a, b) != 0,
    ensures
        resolves_vertically(a, b) ==> overlap(resolved(a, vel, b).0.y as int, a.h as int, b.y as int, b.h as int) == 0,
        !resolves_vertically(a, b) ==> overlap(resolved(a, vel, b).0.x as int, a.w as int, b.x as int, b.w as int) == 0,
{
}

} // verus!
