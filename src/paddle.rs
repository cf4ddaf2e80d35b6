use vstd::prelude::*;
use crate::geometry::{Rect, SIZE_LIMIT};

verus! {

/// Paddle width, in thousandths of a pixel.
pub const PLAYER_W: i64 = 30_000;

/// Paddle height, in thousandths of a pixel.
pub const PLAYER_H: i64 = 100_000;

/// Paddle speed, in pixels per second.
pub const PLAYER_SPEED: i64 = 400;

/// Distance of a paddle's left edge from its side of the field.
pub const PADDLE_OFFSET: i64 = 50_000;

/// Longest frame time accepted, in microseconds.
pub const MAX_DT: u64 = 1_000_000_000;

/// The size of the play field.
#[derive(Clone, Copy, Debug, PartialEq, Eq, Structural)]
pub struct PlayField {
    pub width: i64,
    pub height: i64,
}

impl PlayField {
    pub open spec fn wf(self) -> bool {
        0 < self.width <= SIZE_LIMIT && 0 < self.height <= SIZE_LIMIT
    }
}

/// One player's paddle and score.
#[derive(Clone, Copy, Debug, PartialEq, Eq, Structural)]
pub struct Player {
    pub rect: Rect,
    pub is_player_one: bool,
    pub score: u32,
}

/// Vertical direction chosen by the two keys: up alone is `-1`, down alone
/// `1`, neither or both `0`.
pub open spec fn key_direction(up: bool, down: bool) -> int {
    if up && !down {
        -1
    } else if down && !up {
        1
    } else {
        0
    }
}

/// Distance a paddle covers in `dt` microseconds, in thousandths of a pixel.
pub open spec fn paddle_travel(dt: int) -> int {
    (PLAYER_SPEED * dt) / 1000
}

/// `y` raised to `0`, then lowered to `limit`.
pub open spec fn clamp_y(y: int, limit: int) -> int {
    let raised = if y < 0 { 0 } else { y };
    if raised > limit { limit } else { raised }
}

/// Where a paddle stands at the start of a game: a fixed offset from its own
/// side, centred vertically.
pub open spec fn paddle_spawn(is_player_one: bool, field: PlayField) -> Rect {
    Rect {
        x: (if is_player_one { PADDLE_OFFSET as int } else { field.width - PADDLE_OFFSET }) as i64,
        y: (field.height / 2 - PLAYER_H / 2) as i64,
        w: PLAYER_W,
        h: PLAYER_H,
    }
}

impl Player {
    pub open spec fn wf(self) -> bool {
        self.rect.in_range()
    }

    /// The paddle after `dt` microseconds with the given keys held.
    pub open spec fn updated(self, dt: int, up: bool, down: bool, field: PlayField) -> Player {
        let moved = self.rect.y + key_direction(up, down) * paddle_travel(dt);
        Player { rect: Rect { y: clamp_y(moved, field.height - self.rect.h) as i64, ..self.rect }, ..self }
    }

    pub fn new(is_player_one: bool, field: PlayField) -> (r: Player)
        requires
            field.wf(),
        ensures
            r.rect == paddle_spawn(is_player_one, field),
            r.is_player_one == is_player_one,
            r.score == 0,
            r.wf(),
    {
        Player {
            rect: Rect::new(
                if is_player_one { PADDLE_OFFSET } else { field.width - PADDLE_OFFSET },
                field.height / 2 - PLAYER_H / 2,
                PLAYER_W,
                PLAYER_H,
            ),
            is_player_one,
            score: 0,
        }
    }

    /// Moves the paddle by the held keys and keeps it on the field.
    pub fn update(&mut self, dt: u64, up: bool, down: bool, field: PlayField)
        requires
            old(self).wf(),
            field.wf(),
            dt <= MAX_DT,
        ensures
            *final(self) == old(self).updated(dt as int, up, down, field),
            final(self).wf(),
            field.height >= old(self).rect.h ==> 0 <= final(self).rect.y <= field.height - final(self).rect.h,
    {
        let travel: i64 = (PLAYER_SPEED * (dt as i64)) / 1000;
        let mut y: i64 = if up && !down {
            self.rect.y - travel
        } else if down && !up {
            self.rect.y + travel
        } else {
            self.rect.y
        };
        if y < 0 {
            y = 0;
        }
        if y > field.height - self.rect.h {
            y = field.height - self.rect.h;
        }
        self.rect.y = y;
    }
}

} // verus!
