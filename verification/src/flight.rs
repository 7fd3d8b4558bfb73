//! The ball phase of a tick: the ball flies in sub-steps, short enough that
//! it cannot pass through a wall, and after each one it may be picked up,
//! bounce off the walls or enter a goal.

use crate::ball::{Ball, MAX_BALL_SPEED};
use crate::collision::{
    aabb_collision, boxes_overlap, bounced, lemma_speed_components, line_intersects_rect,
    resolve_rect_collision, segment_meets_rect, FAST_BALL_SPEED,
};
use crate::fixed::{
    lemma_square_monotone, length, norm2, norm2_of, vec_len, COORD_LIMIT, MAX_TICK_MS,
};
use crate::possession::lemma_nearest_grabber_is_nearest;
use crate::game::{Game, GameView};
use crate::geometry::{map_wf, GameConfig, MapObject, BALL_HEIGHT, BALL_WIDTH};
use vstd::prelude::*;

verus! {

/// Sub-steps of the ball per tick, at low speed.
pub const BASE_SUB_STEPS: u32 = 10;

/// For each `SUB_STEP_SPEED` of ball speed, a fast ball gets one more sub-step.
pub const SUB_STEP_SPEED: i64 = 30_000;

/// How often the walls are gone through in one sub-step, at most.
pub const MAX_WALL_PASSES: u32 = 5;

/// The number of sub-steps for a ball: ten, and more for a ball faster than
/// `FAST_BALL_SPEED`, in proportion to its speed.
pub open spec fn sub_steps(ball: Ball) -> int {
    if norm2(ball.vx as int, ball.vy as int) > FAST_BALL_SPEED * FAST_BALL_SPEED {
        BASE_SUB_STEPS + (vec_len(ball.vx as int, ball.vy as int) + SUB_STEP_SPEED - 1)
            / (SUB_STEP_SPEED as int)
    } else {
        BASE_SUB_STEPS as int
    }
}

/// The ball touches the wall: their boxes overlap, or the ball is fast and
/// the straight path from `prev`, where it was before the sub-step, meets the wall.
pub open spec fn ball_touches(ball: Ball, prev: (int, int), wall: MapObject) -> bool {
    ||| boxes_overlap(
        ball.x - BALL_WIDTH / 2,
        ball.y - BALL_HEIGHT / 2,
        BALL_WIDTH as int,
        BALL_HEIGHT as int,
        wall.x as int,
        wall.y as int,
        wall.width as int,
        wall.height as int,
    )
    ||| (norm2(ball.vx as int, ball.vy as int) > FAST_BALL_SPEED * FAST_BALL_SPEED
        && segment_meets_rect(
        prev.0,
        prev.1,
        ball.x as int,
        ball.y as int,
        wall.x as int,
        wall.y as int,
        wall.width as int,
        wall.height as int,
    ))
}

/// The ball after it met the walls among the first `k` rectangles of the
/// map, one after the other, and whether it touched any. After each bounce
/// the ball is kept in the field.
pub open spec fn wall_pass(ball: Ball, prev: (int, int), map: Seq<MapObject>, config: GameConfig, k: nat) -> (
    Ball,
    bool,
)
    decreases k,
{
    if k == 0 {
        (ball, false)
    } else {
        let before = wall_pass(ball, prev, map, config, (k - 1) as nat);
        if map[k - 1].is_wall() && ball_touches(before.0, prev, map[k - 1]) {
            (bounced(before.0, map[k - 1]).confined(config), true)
        } else {
            before
        }
    }
}

/// The ball after the walls were gone through until it touched none, and
/// `passes` times at most.
pub open spec fn wall_passes(
    ball: Ball,
    prev: (int, int),
    map: Seq<MapObject>,
    config: GameConfig,
    passes: nat,
) -> Ball
    decreases passes,
{
    if passes == 0 {
        ball
    } else {
        let once = wall_pass(ball, prev, map, config, map.len());
        if once.1 {
            wall_passes(once.0, prev, map, config, (passes - 1) as nat)
        } else {
            once.0
        }
    }
}

impl GameView {
    /// The match after one sub-step of `sub_dt_us` microseconds. A held
    /// ball is left alone. A free ball flies; then the nearest ship that
    /// may do so picks it up, or else it bounces off the walls, stays in the
    /// field, and the goal zones are looked at.
    pub open spec fn flight_step(self, sub_dt_us: int) -> GameView {
        if self.ball.grabbed {
            self
        } else {
            let prev = (self.ball.x as int, self.ball.y as int);
            let flown = GameView {
                ball: self.ball.moved(
                    sub_dt_us,
                    self.config.field_width as int,
                    self.config.field_height as int,
                ),
                ..self
            };
            let offered = flown.ball_picked_up();
            if offered.ball.grabbed {
                offered
            } else {
                (GameView {
                    ball: wall_passes(
                        offered.ball,
                        prev,
                        self.map,
                        self.config,
                        MAX_WALL_PASSES as nat,
                    ),
                    ..offered
                }).goal_checked()
            }
        }
    }

    /// The match after `k` sub-steps of `sub_dt_us` microseconds each.
    pub open spec fn flight(self, sub_dt_us: int, k: nat) -> GameView
        decreases k,
    {
        if k == 0 {
            self
        } else {
            self.flight(sub_dt_us, (k - 1) as nat).flight_step(sub_dt_us)
        }
    }

    /// The match after the ball phase of a tick of `dt` milliseconds: the
    /// tick is cut into as many sub-steps as the ball's speed asks for.
    pub open spec fn ball_flown(self, dt: int) -> GameView {
        let steps = sub_steps(self.ball);
        self.flight(dt * 1000 / steps, steps as nat)
    }
}

/// Going through the walls leaves the ball in the field.
pub proof fn lemma_wall_pass_in_field(
    ball: Ball,
    prev: (int, int),
    map: Seq<MapObject>,
    config: GameConfig,
    k: nat,
)
    requires
        config.wf(),
        ball.in_field(config),
    ensures
        wall_pass(ball, prev, map, config, k).0.in_field(config),
    decreases k,
{
    if k > 0 {
        lemma_wall_pass_in_field(ball, prev, map, config, (k - 1) as nat);
    }
}

/// However often the walls are gone through, the ball is left in the field.
pub proof fn lemma_wall_passes_in_field(
    ball: Ball,
    prev: (int, int),
    map: Seq<MapObject>,
    config: GameConfig,
    passes: nat,
)
    requires
        config.wf(),
        ball.in_field(config),
    ensures
        wall_passes(ball, prev, map, config, passes).in_field(config),
    decreases passes,
{
    if passes > 0 {
        lemma_wall_pass_in_field(ball, prev, map, config, map.len());
        let once = wall_pass(ball, prev, map, config, map.len());
        if once.1 {
            lemma_wall_passes_in_field(once.0, prev, map, config, (passes - 1) as nat);
        }
    }
}

/// After every sub-step of a valid match, whatever its length, the ball
/// lies in the field: after its flight, after it was picked up, after the
/// walls, and after a goal.
pub proof fn lemma_ball_stays_in_field(game: GameView, sub_dt_us: int)
    requires
        game.wf(),
    ensures
        game.flight_step(sub_dt_us).ball.in_field(game.config),
        game.flight_step(sub_dt_us).config == game.config,
{
    if !game.ball.grabbed {
        let prev = (game.ball.x as int, game.ball.y as int);
        let flown = GameView {
            ball: game.ball.moved(
                sub_dt_us,
                game.config.field_width as int,
                game.config.field_height as int,
            ),
            ..game
        };
        lemma_nearest_grabber_is_nearest(flown, flown.players.len());
        let offered = flown.ball_picked_up();
        if offered.ball.grabbed {
            if let Some(i) = flown.nearest_grabber(flown.players.len()) {
                assert(flown.players[i].wf(game.config));
            }
        } else {
            lemma_wall_passes_in_field(
                offered.ball,
                prev,
                game.map,
                game.config,
                MAX_WALL_PASSES as nat,
            );
        }
    }
}

/// Tells whether the ball touches the wall.
fn touches(ball: &Ball, prev_x: i64, prev_y: i64, wall: &MapObject) -> (r: bool)
    requires
        ball.placed(),
        ball.speed_ok(),
        -COORD_LIMIT <= prev_x <= COORD_LIMIT,
        -COORD_LIMIT <= prev_y <= COORD_LIMIT,
        wall.wf(),
    ensures
        r == ball_touches(*ball, (prev_x as int, prev_y as int), *wall),
{
    if aabb_collision(
        ball.x - BALL_WIDTH / 2,
        ball.y - BALL_HEIGHT / 2,
        BALL_WIDTH,
        BALL_HEIGHT,
        wall.x,
        wall.y,
        wall.width,
        wall.height,
    ) {
        return true;
    }
    proof {
        lemma_speed_components(ball.vx as int, ball.vy as int);
    }
    norm2_of(ball.vx, ball.vy) > (FAST_BALL_SPEED * FAST_BALL_SPEED) as u64 && line_intersects_rect(
        prev_x,
        prev_y,
        ball.x,
        ball.y,
        wall.x,
        wall.y,
        wall.width,
        wall.height,
    )
}

/// Takes the ball through the walls of the map once and says whether it touched any.
fn pass_walls(ball: &mut Ball, prev_x: i64, prev_y: i64, map: &Vec<MapObject>, config: &GameConfig) -> (hit:
    bool)
    requires
        old(ball).wf(*config),
        config.wf(),
        map_wf(map@),
        0 <= prev_x <= config.field_width,
        0 <= prev_y <= config.field_height,
    ensures
        (*final(ball), hit) == wall_pass(
            *old(ball),
            (prev_x as int, prev_y as int),
            map@,
            *config,
            map@.len(),
        ),
        final(ball).wf(*config),
{
    let n = map.len();
    let mut hit = false;
    let mut i: usize = 0;
    while i < n
        invariant
            i <= n,
            n == map@.len(),
            config.wf(),
            map_wf(map@),
            0 <= prev_x <= config.field_width,
            0 <= prev_y <= config.field_height,
            ball.wf(*config),
            (*ball, hit) == wall_pass(
                *old(ball),
                (prev_x as int, prev_y as int),
                map@,
                *config,
                i as nat,
            ),
        decreases n - i,
    {
        let wall = &map[i];
        assert(map@[i as int].wf());
        if wall.wall() && touches(ball, prev_x, prev_y, wall) {
            resolve_rect_collision(ball, wall);
            ball.confine(config);
            hit = true;
        }
        i += 1;
    }
    hit
}

impl Game {
    /// The number of sub-steps that the ball's speed asks for.
    pub fn sub_step_count(&self) -> (r: u32)
        requires
            self.ball.speed_ok(),
        ensures
            r == sub_steps(self.ball),
            BASE_SUB_STEPS <= r <= 1000,
    {
        proof {
            lemma_speed_components(self.ball.vx as int, self.ball.vy as int);
        }
        if norm2_of(self.ball.vx, self.ball.vy) > (FAST_BALL_SPEED * FAST_BALL_SPEED) as u64 {
            let speed = length(self.ball.vx, self.ball.vy);
            proof {
                let c = speed as int;
                let limit = 2 * MAX_BALL_SPEED as int;
                if c > limit {
                    lemma_square_monotone(limit, c - 1);
                    assert(norm2(self.ball.vx as int, self.ball.vy as int) <= 500_000 * 500_000);
                }
            }
            let extra = (speed + SUB_STEP_SPEED - 1) / SUB_STEP_SPEED;
            BASE_SUB_STEPS + extra as u32
        } else {
            BASE_SUB_STEPS
        }
    }

    /// Bounces the ball off the walls until it touches none, five times at most.
    pub fn resolve_ball_walls(&mut self, prev_x: i64, prev_y: i64)
        requires
            old(self).wf(),
            0 <= prev_x <= old(self).config.field_width,
            0 <= prev_y <= old(self).config.field_height,
        ensures
            final(self)@ == (GameView {
                ball: wall_passes(
                    old(self).ball,
                    (prev_x as int, prev_y as int),
                    old(self).map@,
                    old(self).config,
                    MAX_WALL_PASSES as nat,
                ),
                ..old(self)@
            }),
            final(self).wf(),
            final(self).ball.in_field(final(self).config),
            final(self).ball.speed_ok(),
    {
        let mut ball = self.ball;
        let mut left: u32 = MAX_WALL_PASSES;
        let mut again = true;
        while again && left > 0
            invariant
                self.wf(),
                *self == *old(self),
                0 <= prev_x <= self.config.field_width,
                0 <= prev_y <= self.config.field_height,
                ball.wf(self.config),
                left <= MAX_WALL_PASSES,
                wall_passes(
                    old(self).ball,
                    (prev_x as int, prev_y as int),
                    self.map@,
                    self.config,
                    MAX_WALL_PASSES as nat,
                ) == (if again {
                    wall_passes(
                        ball,
                        (prev_x as int, prev_y as int),
                        self.map@,
                        self.config,
                        left as nat,
                    )
                } else {
                    ball
                }),
            decreases left,
        {
            again = pass_walls(&mut ball, prev_x, prev_y, &self.map, &self.config);
            left = left - 1;
        }
        self.ball = ball;
    }

    /// Advances the ball by one sub-step of `sub_dt_us` microseconds.
    pub fn step_ball(&mut self, sub_dt_us: u32)
        requires
            old(self).wf(),
        ensures
            final(self)@ == old(self)@.flight_step(sub_dt_us as int),
            final(self).wf(),
            final(self).ball.in_field(final(self).config),
            final(self).ball.speed_ok(),
    {
        if self.ball.grabbed {
            return ;
        }
        let prev_x = self.ball.x;
        let prev_y = self.ball.y;
        proof {
            lemma_speed_components(self.ball.vx as int, self.ball.vy as int);
        }
        let config = self.config;
        self.ball.update_position(sub_dt_us, config.field_width, config.field_height);
        if self.try_grab() {
            return ;
        }
        self.resolve_ball_walls(prev_x, prev_y);
        self.check_goal_collision();
    }

    /// Flies the ball through a tick of `dt` milliseconds.
    pub fn fly_ball(&mut self, dt: u32)
        requires
            old(self).wf(),
            dt <= MAX_TICK_MS,
        ensures
            final(self)@ == old(self)@.ball_flown(dt as int),
            final(self).wf(),
            final(self).ball.in_field(final(self).config),
            final(self).ball.speed_ok(),
    {
        let steps = self.sub_step_count();
        let sub_dt_us: u32 = dt * 1000 / steps;
        let mut k: u32 = 0;
        while k < steps
            invariant
                k <= steps,
                self.wf(),
                self@ == old(self)@.flight(sub_dt_us as int, k as nat),
            decreases steps - k,
        {
            self.step_ball(sub_dt_us);
            k += 1;
        }
    }
}

} // verus!
