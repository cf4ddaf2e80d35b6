use pong::ball::{serve_direction, Ball, BALL_SIZE, DEV_UNIT};
use pong::collision::resolve_collision;
use pong::game::{FrameInput, Game, Screen, WIN_SCORE};
use pong::geometry::{Rect, Vec2, UNIT};
use pong::paddle::{PlayField, Player, PLAYER_H, PLAYER_W};

fn field() -> PlayField {
    PlayField { width: 800_000, height: 600_000 }
}

fn idle(dt: u64) -> FrameInput {
    FrameInput {
        dt,
        p1_up: false,
        p1_down: false,
        p2_up: false,
        p2_down: false,
        confirm: false,
        coin: true,
        dev: DEV_UNIT,
    }
}

fn magnitude_sq(v: Vec2) -> i128 {
    (v.x as i128) * (v.x as i128) + (v.y as i128) * (v.y as i128)
}

#[test]
fn player_spawns_at_offset_and_centred() {
    let p1 = Player::new(true, field());
    let p2 = Player::new(false, field());
    assert_eq!(p1.rect, Rect { x: 50_000, y: 250_000, w: PLAYER_W, h: PLAYER_H });
    assert_eq!(p2.rect, Rect { x: 750_000, y: 250_000, w: PLAYER_W, h: PLAYER_H });
    assert!(p1.is_player_one);
    assert!(!p2.is_player_one);
    assert_eq!(p1.score, 0);
}

#[test]
fn player_moves_by_keys() {
    let mut p = Player::new(true, field());
    p.update(16_000, true, false, field());
    assert_eq!(p.rect.y, 250_000 - 6_400);
    p.update(16_000, false, true, field());
    assert_eq!(p.rect.y, 250_000);
    p.update(16_000, true, true, field());
    assert_eq!(p.rect.y, 250_000);
    p.update(16_000, false, false, field());
    assert_eq!(p.rect.y, 250_000);
}

#[test]
fn player_is_clamped_to_field() {
    let mut p = Player::new(false, field());
    p.update(1_000_000, true, false, field());
    assert_eq!(p.rect.y, 0);
    p.update(2_000_000, false, true, field());
    assert_eq!(p.rect.y, 600_000 - PLAYER_H);
    for dt in [0u64, 1, 999, 33_333, 5_000_000] {
        for (up, down) in [(true, false), (false, true), (true, true), (false, false)] {
            p.update(dt, up, down, field());
            assert!(p.rect.y >= 0 && p.rect.y <= 600_000 - PLAYER_H);
        }
    }
}

#[test]
fn ball_spawns_at_centre_with_unit_diagonal() {
    let b = Ball::new(true, true, field());
    assert_eq!(b.rect, Rect { x: 400_000, y: 300_000, w: BALL_SIZE, h: BALL_SIZE });
    assert_eq!(b.vel, Vec2 { x: 707_106_780, y: 707_106_781 });
    let b = Ball::new(false, false, field());
    assert_eq!(b.vel, Vec2 { x: -707_106_780, y: -707_106_781 });
    let m = magnitude_sq(b.vel);
    let u = UNIT as i128;
    assert!(m <= (u + 1000) * (u + 1000) && m >= (u - 1000) * (u - 1000));
}

#[test]
fn serve_exact_values_and_ratio() {
    assert_eq!(serve_direction(true, true, 500_000), Vec2 { x: 894_427_190, y: 447_213_596 });
    assert_eq!(serve_direction(false, false, 2 * DEV_UNIT), Vec2 { x: -447_213_595, y: -894_427_191 });
    let u = UNIT as i128;
    for dev in [500_000i64, 500_001, 1_000_000, 1_234_567, 1_999_999] {
        for (right, coin) in [(true, true), (true, false), (false, true), (false, false)] {
            let v = serve_direction(right, coin, dev);
            let m = magnitude_sq(v);
            assert!(m <= (u + 1000) * (u + 1000) && m >= (u - 1000) * (u - 1000));
            assert!(v.x.abs() <= 2 * v.y.abs() && v.y.abs() < 2 * v.x.abs());
            assert_eq!(v.x > 0, right);
            assert_eq!(v.y > 0, coin);
        }
    }
}

#[test]
fn ball_moves_with_velocity() {
    let mut b = Ball::new(true, true, field());
    b.rect.x = 100_000;
    b.rect.y = 100_000;
    let mut p1 = Player::new(true, field());
    let mut p2 = Player::new(false, field());
    b.update(16_000, &mut p1, &mut p2, field(), true, DEV_UNIT);
    assert_eq!((b.rect.x, b.rect.y), (103_394, 103_394));
    b.vel = Vec2 { x: -707_106_780, y: -707_106_781 };
    b.update(16_000, &mut p1, &mut p2, field(), true, DEV_UNIT);
    assert_eq!((b.rect.x, b.rect.y), (100_000, 100_000));
    assert_eq!((p1.score, p2.score), (0, 0));
}

#[test]
fn ball_past_right_edge_scores_for_player_one() {
    let mut b = Ball { rect: Rect { x: 774_000, y: 100_000, w: BALL_SIZE, h: BALL_SIZE }, vel: Vec2 { x: UNIT, y: 0 } };
    let mut p1 = Player::new(true, field());
    let mut p2 = Player::new(false, field());
    b.update(16_000, &mut p1, &mut p2, field(), false, DEV_UNIT / 2);
    assert_eq!(p1.score, 1);
    assert_eq!(p2.score, 0);
    assert_eq!(b.rect, Rect { x: 400_000, y: 300_000, w: BALL_SIZE, h: BALL_SIZE });
    assert_eq!(b.vel, Vec2 { x: 894_427_190, y: -447_213_596 });
}

#[test]
fn ball_past_left_edge_scores_for_player_two() {
    let mut b = Ball { rect: Rect { x: 1_000, y: 100_000, w: BALL_SIZE, h: BALL_SIZE }, vel: Vec2 { x: -UNIT, y: 0 } };
    let mut p1 = Player::new(true, field());
    let mut p2 = Player::new(false, field());
    b.update(16_000, &mut p1, &mut p2, field(), true, 2 * DEV_UNIT);
    assert_eq!(p1.score, 0);
    assert_eq!(p2.score, 1);
    assert_eq!(b.rect, Rect { x: 400_000, y: 300_000, w: BALL_SIZE, h: BALL_SIZE });
    assert_eq!(b.vel, Vec2 { x: -447_213_595, y: 894_427_191 });
}

#[test]
fn wall_bounce_forces_unit_vertical_and_lengthens() {
    let mut b = Ball::new(true, true, field());
    b.rect.y = 574_000;
    let mut p1 = Player::new(true, field());
    let mut p2 = Player::new(false, field());
    b.update(16_000, &mut p1, &mut p2, field(), true, DEV_UNIT);
    assert_eq!(b.rect.y, 577_394);
    assert_eq!(b.vel, Vec2 { x: 707_106_780, y: -UNIT });
    let u = UNIT as i128;
    assert!(magnitude_sq(b.vel) > u * u);

    let mut top = Ball { rect: Rect { x: 400_000, y: 1_000, w: BALL_SIZE, h: BALL_SIZE }, vel: Vec2 { x: -707_106_780, y: -707_106_781 } };
    top.update(16_000, &mut p1, &mut p2, field(), true, DEV_UNIT);
    assert_eq!(top.rect.y, 1_000 - 3_394);
    assert_eq!(top.vel, Vec2 { x: -707_106_780, y: UNIT });
}

#[test]
fn intersect_exact_and_apart() {
    let a = Rect::new(0, 10, 25, 25);
    let b = Rect::new(20, 0, 30, 100);
    assert_eq!(a.intersect(b), Some(Rect { x: 20, y: 10, w: 5, h: 25 }));
    assert_eq!(a.intersect(Rect::new(26, 0, 30, 100)), None);
    assert_eq!(a.intersect(Rect::new(25, 0, 30, 100)), Some(Rect { x: 25, y: 10, w: 0, h: 25 }));
}

#[test]
fn resolve_apart_is_noop() {
    let mut a = Rect::new(0, 0, 25, 25);
    let mut v = Vec2 { x: 123, y: -456 };
    let b = Rect::new(100, 100, 30, 100);
    resolve_collision(&mut a, &mut v, &b);
    assert_eq!(a, Rect::new(0, 0, 25, 25));
    assert_eq!(v, Vec2 { x: 123, y: -456 });
}

#[test]
fn resolve_pushes_out_horizontally() {
    let mut a = Rect::new(0, 10, 25, 25);
    let mut v = Vec2 { x: 700, y: 300 };
    let b = Rect::new(20, 0, 30, 100);
    resolve_collision(&mut a, &mut v, &b);
    assert_eq!(a, Rect::new(-5, 10, 25, 25));
    assert_eq!(v, Vec2 { x: -700, y: 300 });
    assert_eq!(a.intersect(b).map(|r| r.w), Some(0));

    let mut c = Rect::new(40, 10, 25, 25);
    let mut w = Vec2 { x: -700, y: 300 };
    resolve_collision(&mut c, &mut w, &b);
    assert_eq!(c, Rect::new(50, 10, 25, 25));
    assert_eq!(w, Vec2 { x: 700, y: 300 });
}

#[test]
fn resolve_pushes_out_vertically() {
    let mut a = Rect::new(100, 90, 25, 25);
    let mut v = Vec2 { x: 10, y: -20 };
    let b = Rect::new(90, 0, 30, 100);
    resolve_collision(&mut a, &mut v, &b);
    assert_eq!(a, Rect::new(100, 100, 25, 25));
    assert_eq!(v, Vec2 { x: 10, y: 20 });
    assert_eq!(a.intersect(b).map(|r| r.h), Some(0));
}

#[test]
fn resolve_touching_turns_velocity() {
    let mut a = Rect::new(0, 0, 10, 10);
    let mut v = Vec2 { x: 5, y: 5 };
    resolve_collision(&mut a, &mut v, &Rect::new(10, 0, 10, 10));
    assert_eq!(a, Rect::new(0, 0, 10, 10));
    assert_eq!(v, Vec2 { x: -5, y: 5 });
}

#[test]
fn menu_waits_for_confirm() {
    let mut g = Game::new(field(), true);
    assert_eq!(g.screen, Screen::Menu);
    g.frame(idle(16_000));
    assert_eq!(g.screen, Screen::Menu);
    let mut go = idle(16_000);
    go.confirm = true;
    g.frame(go);
    assert_eq!(g.screen, Screen::Ingame);
}

#[test]
fn ball_crossing_left_edge_scores_for_player_two_and_recentres() {
    let mut g = Game::new(field(), true);
    g.screen = Screen::Ingame;
    g.ball = Ball { rect: Rect { x: 2_000, y: 300_000, w: BALL_SIZE, h: BALL_SIZE }, vel: Vec2 { x: -UNIT, y: 0 } };
    g.frame(idle(16_000));
    assert_eq!(g.player2.score, 1);
    assert_eq!(g.player1.score, 0);
    assert_eq!((g.ball.rect.x, g.ball.rect.y), (400_000, 300_000));
    assert_eq!(g.screen, Screen::Ingame);
    assert_eq!(g.player1.rect, Player::new(true, field()).rect);
}

#[test]
fn game_ends_when_a_score_reaches_ten() {
    let mut g = Game::new(field(), true);
    g.screen = Screen::Ingame;
    g.player1.score = WIN_SCORE - 1;
    g.player2.score = 4;
    g.ball = Ball { rect: Rect { x: 774_000, y: 300_000, w: BALL_SIZE, h: BALL_SIZE }, vel: Vec2 { x: UNIT, y: 0 } };
    g.frame(idle(16_000));
    assert_eq!(g.player1.score, WIN_SCORE);
    assert_eq!(g.screen, Screen::End);
    assert_eq!(g.end_message(), "Player 1 wins!");
    g.frame(idle(16_000));
    assert_eq!(g.screen, Screen::End);
    let mut again = idle(16_000);
    again.confirm = true;
    g.frame(again);
    assert_eq!(g, Game::new(field(), true));
}

#[test]
fn player_two_wins_when_ahead() {
    let mut g = Game::new(field(), false);
    g.screen = Screen::Ingame;
    g.player2.score = WIN_SCORE - 1;
    g.ball = Ball { rect: Rect { x: 1_000, y: 300_000, w: BALL_SIZE, h: BALL_SIZE }, vel: Vec2 { x: -UNIT, y: 0 } };
    g.frame(idle(16_000));
    assert_eq!(g.screen, Screen::End);
    assert_eq!(g.end_message(), "Player 2 wins!");
}

#[test]
fn game_bounces_ball_off_paddle() {
    let mut g = Game::new(field(), true);
    g.screen = Screen::Ingame;
    g.ball = Ball { rect: Rect { x: 84_000, y: 300_000, w: BALL_SIZE, h: BALL_SIZE }, vel: Vec2 { x: -UNIT, y: 0 } };
    g.frame(idle(16_000));
    assert_eq!(g.ball.rect.x, 80_000);
    assert_eq!(g.ball.vel, Vec2 { x: UNIT, y: 0 });
}

#[test]
fn resizing_keeps_the_game() {
    let mut g = Game::new(field(), true);
    let small = PlayField { width: 400_000, height: 300_000 };
    g.set_field(small);
    assert_eq!(g.field, small);
    assert_eq!(g.player1.rect, Player::new(true, field()).rect);
    g.screen = Screen::Ingame;
    g.frame(idle(16_000));
    assert_eq!(g.player1.rect.y, 300_000 - PLAYER_H);
}

#[test]
fn resolve_centre_aligned_does_not_push() {
    let mut a = Rect::new(52_500, 10, 25_000, 25_000);
    let mut v = Vec2 { x: 700, y: 300 };
    let paddle = Rect::new(50_000, 0, 30_000, 100_000);
    resolve_collision(&mut a, &mut v, &paddle);
    assert_eq!(a, Rect::new(52_500, 10, 25_000, 25_000));
    assert_eq!(v, Vec2 { x: -700, y: 300 });

    let mut c = Rect::new(0, 37_500, 100_000, 25_000);
    let mut w = Vec2 { x: 700, y: -300 };
    resolve_collision(&mut c, &mut w, &Rect::new(0, 0, 100_000, 100_000));
    assert_eq!(c, Rect::new(0, 37_500, 100_000, 25_000));
    assert_eq!(w, Vec2 { x: 700, y: 300 });
}

#[test]
fn spawn_on_odd_width_clears_left_paddle() {
    let narrow = PlayField { width: 160_001, height: 600_000 };
    let b = Ball::new(false, true, narrow);
    assert_eq!(b.rect.x, 80_001);
    let mut g = Game::new(narrow, true);
    g.screen = Screen::Ingame;
    g.ball = Ball { rect: Rect { x: 1_000, y: 300_000, w: BALL_SIZE, h: BALL_SIZE }, vel: Vec2 { x: -UNIT, y: 0 } };
    g.frame(idle(16_000));
    assert_eq!(g.player2.score, 1);
    assert_eq!((g.ball.rect.x, g.ball.rect.y), (80_001, 300_000));
    assert!(g.ball.vel.x < 0);
}
