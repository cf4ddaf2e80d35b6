use vstd::prelude::*;
use crate::ball::{Ball, DEV_UNIT, ball_spawn, lemma_scoring_respawns, serve_velocity};
use crate::collision::{resolve_collision, resolved};
use crate::geometry::intersects;
use crate::geometry::{Rect, UNIT, SIZE_LIMIT, small_vec};
use crate::paddle::{Player, PlayField, MAX_DT, PADDLE_OFFSET, PLAYER_W, paddle_spawn};

verus! {

/// Score that ends a game.
pub const WIN_SCORE: u32 = 10;

/// Three times `SIZE_LIMIT`: how far from the origin a collision can leave the ball.
pub const BALL_REACH: i64 = 12_884_901_888;

/// `BALL_REACH` and one frame's travel: how far from the origin the ball can be.
pub const BALL_RANGE: i64 = 13_184_901_888;

/// The screen the game shows.
#[derive(Clone, Copy, Debug, PartialEq, Eq, Structural)]
pub enum Screen {
    Menu,
    Ingame,
    End,
}

/// What one frame hands the game: its duration in microseconds, the keys
/// held, whether the confirm key was pressed, and the random draws for a serve
/// (`coin` for the vertical sign, `dev` for its size, a multiple of `DEV_UNIT`
/// between one half and two).
#[derive(Clone, Copy, Debug, PartialEq, Eq, Structural)]
pub struct FrameInput {
    pub dt: u64,
    pub p1_up: bool,
    pub p1_down: bool,
    pub p2_up: bool,
    pub p2_down: bool,
    pub confirm: bool,
    pub coin: bool,
    pub dev: i64,
}

impl FrameInput {
    pub open spec fn wf(self) -> bool {
        self.dt <= MAX_DT && 0 <= self.dev <= 2 * DEV_UNIT
    }
}

/// A whole game: screen, both players, the ball and the field.
#[derive(Clone, Copy, Debug, PartialEq, Eq, Structural)]
pub struct Game {
    pub screen: Screen,
    pub player1: Player,
    pub player2: Player,
    pub ball: Ball,
    pub field: PlayField,
}

/// The message of the end screen for the final scores.
pub open spec fn end_text(score1: u32, score2: u32) -> Seq<char> {
    if score1 > score2 { "Player 1 wins!"@ } else { "Player 2 wins!"@ }
}

/// A new game on the menu screen, the ball served toward player two.
pub open spec fn fresh_game(field: PlayField, coin: bool) -> Game {
    Game {
        screen: Screen::Menu,
        player1: Player { rect: paddle_spawn(true, field), is_player_one: true, score: 0 },
        player2: Player { rect: paddle_spawn(false, field), is_player_one: false, score: 0 },
        ball: Ball { rect: ball_spawn(field), vel: serve_velocity(true, coin, DEV_UNIT as int) },
        field,
    }
}

impl Game {
    /// What holds of every game between frames.
    pub open spec fn inv(self) -> bool {
        &&& self.field.wf()
        &&& self.player1.wf()
        &&& self.player2.wf()
        &&& self.player1.score <= WIN_SCORE
        &&& self.player2.score <= WIN_SCORE
        &&& self.screen != Screen::End ==> self.player1.score < WIN_SCORE && self.player2.score < WIN_SCORE
        &&& 0 < self.ball.rect.w <= SIZE_LIMIT
        &&& 0 < self.ball.rect.h <= SIZE_LIMIT
        &&& -BALL_REACH <= self.ball.rect.x <= BALL_REACH
        &&& -BALL_RANGE <= self.ball.rect.y <= BALL_RANGE
        &&& small_vec(self.ball.vel)
        &&& self.ball.rect.y < -BALL_REACH ==> self.ball.vel.y == UNIT
        &&& self.ball.rect.y > BALL_REACH ==> self.ball.vel.y == -UNIT
    }

    /// One frame of play: both paddles move, then the ball, which is then
    /// pushed out of the left paddle and then of the right one. A score that
    /// reaches the winning score ends the game.
    pub open spec fn played(self, i: FrameInput) -> Game {
        let dt = i.dt as int;
        let moved1 = self.player1.updated(dt, i.p1_up, i.p1_down, self.field);
        let moved2 = self.player2.updated(dt, i.p2_up, i.p2_down, self.field);
        let p1 = Player {
            score: (self.player1.score + if self.ball.passes_right(dt, self.field) { 1int } else { 0 }) as u32,
            ..moved1
        };
        let p2 = Player {
            score: (self.player2.score + if self.ball.passes_left(dt, self.field) { 1int } else { 0 }) as u32,
            ..moved2
        };
        let b = self.ball.updated(dt, self.field, i.coin, i.dev as int);
        let r1 = resolved(b.rect, b.vel, p1.rect);
        let r2 = resolved(r1.0, r1.1, p2.rect);
        let screen = if p1.score >= WIN_SCORE || p2.score >= WIN_SCORE { Screen::End } else { Screen::Ingame };
        Game { screen, player1: p1, player2: p2, ball: Ball { rect: r2.0, vel: r2.1 }, field: self.field }
    }

    /// The game after one frame. The confirm key leads from the menu to play
    /// and from the end screen to a new game on the menu.
    pub open spec fn stepped(self, i: FrameInput) -> Game {
        match self.screen {
            Screen::Menu => if i.confirm { Game { screen: Screen::Ingame, ..self } } else { self },
            Screen::Ingame => self.played(i),
            Screen::End => if i.confirm { fresh_game(self.field, i.coin) } else { self },
        }
    }

    /// A new game on the menu screen; `coin` sets the first serve's vertical sign.
    pub fn new(field: PlayField, coin: bool) -> (r: Game)
        requires
            field.wf(),
        ensures
            r == fresh_game(field, coin),
            r.inv(),
    {
        Game {
            screen: Screen::Menu,
            player1: Player::new(true, field),
            player2: Player::new(false, field),
            ball: Ball::new(true, coin, field),
            field,
        }
    }

    /// Puts the game on a field of another size, as when the window is resized.
    pub fn set_field(&mut self, field: PlayField)
        requires
            old(self).inv(),
            field.wf(),
        ensures
            *final(self) == (Game { field, ..*old(self) }),
            final(self).inv(),
    {
        self.field = field;
    }

    /// Runs one frame.
    pub fn frame(&mut self, input: FrameInput)
        requires
            old(self).inv(),
            input.wf(),
        ensures
            *final(self) == old(self).stepped(input),
            final(self).inv(),
    {
        match self.screen {
            Screen::Menu => {
                if input.confirm {
                    self.screen = Screen::Ingame;
                }
            },
            Screen::Ingame => self.play(input),
            Screen::End => {
                if input.confirm {
                    *self = Game::new(self.field, input.coin);
                }
            },
        }
    }

    /// One frame of play on the game screen.
    #[verifier::rlimit(80)]
    fn play(&mut self, input: FrameInput)
        requires
            old(self).inv(),
            old(self).screen == Screen::Ingame,
            input.wf(),
        ensures
            *final(self) == old(self).played(input),
            final(self).inv(),
    {
        let field = self.field;
        self.player1.update(input.dt, input.p1_up, input.p1_down, field);
        self.player2.update(input.dt, input.p2_up, input.p2_down, field);
        let ghost moved1 = self.player1;
        let ghost moved2 = self.player2;
        assert(-SIZE_LIMIT <= moved1.rect.y <= SIZE_LIMIT && -SIZE_LIMIT <= moved2.rect.y <= SIZE_LIMIT);
        assert(self.ball.rect.in_range());
        self.ball.update(input.dt, &mut self.player1, &mut self.player2, field, input.coin, input.dev);
        let ghost b0 = self.ball;
        assert(self.ball.rect.in_range());
        resolve_collision(&mut self.ball.rect, &mut self.ball.vel, &self.player1.rect);
        let ghost b1 = self.ball;
        assert(self.ball.rect.in_range());
        resolve_collision(&mut self.ball.rect, &mut self.ball.vel, &self.player2.rect);
        let ghost b2 = self.ball;
        proof {
            let hit1 = intersects(b0.rect, moved1.rect);
            let hit2 = intersects(b1.rect, moved2.rect);
            if hit2 {
                assert(-BALL_REACH <= b2.rect.y <= BALL_REACH);
            } else if hit1 {
                assert(b2 == b1);
                assert(-BALL_REACH <= b2.rect.y <= BALL_REACH);
            } else {
                assert(b2 == b0);
            }
        }
        if self.player1.score >= WIN_SCORE || self.player2.score >= WIN_SCORE {
            self.screen = Screen::End;
        }
    }

    /// The end screen's message: player one wins when ahead, else player two.
    pub fn end_message(&self) -> (r: &'static str)
        ensures
            r@ == end_text(self.player1.score, self.player2.score),
    {
        if self.player1.score > self.player2.score {
            "Player 1 wins!"
        } else {
            "Player 2 wins!"
        }
    }
}

/// A frame of play ends the game exactly when one score reaches the winning
/// score, and the end screen then names player one as winner exactly when
/// player one is ahead.
pub proof fn lemma_game_ends_at_winning_score(g: Game, i: FrameInput)
    requires
        g.inv(),
        g.screen == Screen::Ingame,
    ensures
        ({
            let n = g.stepped(i);
            &&& (n.screen == Screen::End <==> (n.player1.score == WIN_SCORE || n.player2.score == WIN_SCORE))
            &&& (n.screen == Screen::Ingame <==> !(n.player1.score == WIN_SCORE || n.player2.score == WIN_SCORE))
            &&& (end_text(n.player1.score, n.player2.score) == "Player 1 wins!"@ <==> n.player1.score > n.player2.score)
        }),
{
    reveal_strlit("Player 1 wins!");
    reveal_strlit("Player 2 wins!");
    assert("Player 1 wins!"@[7] != "Player 2 wins!"@[7]);
}

/// A ball at the centre of a field more than 160 pixels wide is clear of
/// both paddles standing at their starting columns, so neither pushes it.
pub proof fn lemma_spawn_clear_of_paddles(field: PlayField, left: Rect, right: Rect)
    requires
        field.wf(),
        field.width > 160_000,
        left.x == PADDLE_OFFSET,
        left.w == PLAYER_W,
        right.x == field.width - PADDLE_OFFSET,
        right.w == PLAYER_W,
    ensures
        !intersects(ball_spawn(field), left),
        !intersects(ball_spawn(field), right),
{
}

/// A frame of play in which the ball crosses the left edge, with both
/// paddles at their starting columns on a field more than 160 pixels wide,
/// gives player two exactly one point, player one none, and leaves the ball at
/// the centre, served toward player one.
pub proof fn lemma_left_crossing_frame(g: Game, i: FrameInput)
    requires
        g.inv(),
        g.screen == Screen::Ingame,
        i.wf(),
        g.field.width > 160_000,
        g.player1.rect.x == PADDLE_OFFSET,
        g.player1.rect.w == PLAYER_W,
        g.player2.rect.x == g.field.width - PADDLE_OFFSET,
        g.player2.rect.w == PLAYER_W,
        g.ball.passes_left(i.dt as int, g.field),
    ensures
        g.stepped(i).player2.score == g.player2.score + 1,
        g.stepped(i).player1.score == g.player1.score,
        g.stepped(i).ball.rect == ball_spawn(g.field),
        g.stepped(i).ball.vel.x < 0,
{
    let dt = i.dt as int;
    let b = g.ball.updated(dt, g.field, i.coin, i.dev as int);
    lemma_scoring_respawns(g.ball, dt, g.field, i.coin, i.dev as int);
    let p1 = g.player1.updated(dt, i.p1_up, i.p1_down, g.field);
    let p2 = g.player2.updated(dt, i.p2_up, i.p2_down, g.field);
    lemma_spawn_clear_of_paddles(g.field, p1.rect, p2.rect);
}

} // verus!
