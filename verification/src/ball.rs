//! The ball: free flight inside the field, and being held.

use crate::fixed::{
    abs, cap_speed, cap_speed_spec, clamp, clamp_spec, lemma_mul_bound, lemma_scaled_bound,
    lemma_square_monotone, mul_div, norm2, scaled, COORD_LIMIT, VEC_LIMIT,
};
use crate::geometry::{max_int, GameConfig, BALL_HEIGHT, BALL_WIDTH};
use crate::player::Team;
use vstd::prelude::*;

verus! {

/// The ball never flies faster than this.
pub const MAX_BALL_SPEED: i64 = 500_000;

/// Time a player may hold the ball, in milliseconds.
pub const SHOT_CLOCK_MS: u32 = 10_000;

/// Share of its speed, in thousandths, that a free ball keeps over one sub-step.
pub const BALL_FRICTION: i64 = 998;

/// The ball. It is either free, and flies, or held by a player, and rests.
#[derive(Clone, Copy, Debug, PartialEq, Eq, Structural)]
pub struct Ball {
    pub x: i64,
    pub y: i64,
    pub vx: i64,
    pub vy: i64,
    pub active: bool,
    pub grabbed: bool,
    pub grab_cooldown: u32,
    pub owner: Option<u32>,
    pub last_shooter: Option<u32>,
    pub shot_clock: u32,
    /// Time after a goal during which nobody may pick the ball up.
    pub pickup_cooldown: u32,
    /// The only team that may pick the ball up, after a goal against it.
    pub exclusive_team: Option<Team>,
}

/// One coordinate after a sub-step of free flight, and whether the ball
/// touched the field's edge on that axis: the ball advances, and is put back
/// inside when its box reaches the edge. In a field narrower than the ball
/// the ball is put at the near edge.
pub open spec fn flown(pos: int, v: int, sub_dt_us: int, half: int, extent: int) -> (int, bool) {
    let p = pos + scaled(v, sub_dt_us, 1_000_000);
    if p - half <= 0 || p + half >= extent {
        (clamp_spec(p, half, max_int(half, extent - half)), true)
    } else {
        (p, false)
    }
}

/// The velocity with which a free ball sets out on a sub-step: its own,
/// cut down to the ball's top speed. (A component beyond the vector limit is
/// cut to that limit first.)
pub open spec fn launch_velocity(vx: int, vy: int) -> (int, int) {
    cap_speed_spec(
        clamp_spec(vx, -VEC_LIMIT as int, VEC_LIMIT as int),
        clamp_spec(vy, -VEC_LIMIT as int, VEC_LIMIT as int),
        MAX_BALL_SPEED as int,
    )
}

/// One velocity component after a sub-step: slowed by friction, and turned
/// around when the ball touched the edge.
pub open spec fn slowed(v: int, touched: bool) -> int {
    let f = scaled(v, BALL_FRICTION as int, 1000);
    if touched {
        -f
    } else {
        f
    }
}

impl Ball {
    /// The ball at rest at `(x, y)`, free and unrestricted.
    pub open spec fn at_rest(x: int, y: int) -> Ball {
        Ball {
            x: x as i64,
            y: y as i64,
            vx: 0,
            vy: 0,
            active: true,
            grabbed: false,
            grab_cooldown: 0,
            owner: None,
            last_shooter: None,
            shot_clock: SHOT_CLOCK_MS,
            pickup_cooldown: 0,
            exclusive_team: None,
        }
    }

    /// The speed is at most `MAX_BALL_SPEED`.
    pub open spec fn speed_ok(self) -> bool {
        norm2(self.vx as int, self.vy as int) <= MAX_BALL_SPEED * MAX_BALL_SPEED
    }

    /// The ball is held exactly when it has an owner, and a held ball does not move.
    pub open spec fn possession_ok(self) -> bool {
        &&& self.grabbed <==> self.owner.is_some()
        &&& self.grabbed ==> self.vx == 0 && self.vy == 0
    }

    /// The ball lies within the coordinate limit.
    pub open spec fn placed(self) -> bool {
        &&& -2 * COORD_LIMIT <= self.x <= 2 * COORD_LIMIT
        &&& -2 * COORD_LIMIT <= self.y <= 2 * COORD_LIMIT
    }

    /// The ball lies in the field.
    pub open spec fn in_field(self, config: GameConfig) -> bool {
        &&& 0 <= self.x <= config.field_width
        &&& 0 <= self.y <= config.field_height
    }

    /// The invariant of the ball: it lies in the field, is no faster than
    /// its top speed, rests and has an owner while held, and its shot clock
    /// shows no more than a full one.
    pub open spec fn wf(self, config: GameConfig) -> bool {
        &&& self.in_field(config)
        &&& self.speed_ok()
        &&& self.possession_ok()
        &&& self.shot_clock <= SHOT_CLOCK_MS
    }

    /// The ball after one sub-step of `sub_dt_us` microseconds. A held or
    /// inactive ball stays as it is.
    pub open spec fn moved(self, sub_dt_us: int, game_width: int, game_height: int) -> Ball {
        if self.active && !self.grabbed {
            let v = launch_velocity(self.vx as int, self.vy as int);
            let (x, touched_x) = flown(self.x as int, v.0, sub_dt_us, BALL_WIDTH / 2, game_width);
            let (y, touched_y) = flown(self.y as int, v.1, sub_dt_us, BALL_HEIGHT / 2, game_height);
            Ball {
                x: x as i64,
                y: y as i64,
                vx: slowed(v.0, touched_x) as i64,
                vy: slowed(v.1, touched_y) as i64,
                ..self
            }
        } else {
            self
        }
    }

    /// The ball in the hands of `player_id`, whose ship is at `(x, y)`.
    pub open spec fn grabbed_by(self, player_id: u32, x: i64, y: i64) -> Ball {
        Ball {
            grabbed: true,
            owner: Some(player_id),
            vx: 0,
            vy: 0,
            x,
            y,
            shot_clock: SHOT_CLOCK_MS,
            ..self
        }
    }

    /// The ball set free by `shooter_id`.
    pub open spec fn released_by(self, shooter_id: u32) -> Ball {
        Ball {
            grabbed: false,
            last_shooter: Some(shooter_id),
            owner: None,
            shot_clock: SHOT_CLOCK_MS,
            ..self
        }
    }

    /// The ball moved into the field, when it lies outside.
    pub open spec fn confined(self, config: GameConfig) -> Ball {
        Ball {
            x: clamp_spec(self.x as int, 0, config.field_width as int) as i64,
            y: clamp_spec(self.y as int, 0, config.field_height as int) as i64,
            ..self
        }
    }

    /// A ball at rest at `(x, y)`.
    pub fn new(x: i64, y: i64) -> (r: Ball)
        ensures
            r == Ball::at_rest(x as int, y as int),
    {
        Ball {
            x,
            y,
            vx: 0,
            vy: 0,
            active: true,
            grabbed: false,
            grab_cooldown: 0,
            owner: None,
            last_shooter: None,
            shot_clock: SHOT_CLOCK_MS,
            pickup_cooldown: 0,
            exclusive_team: None,
        }
    }

    /// Advances a free ball by one sub-step: caps its speed, moves it,
    /// applies friction and bounces it off the field's edges. Whatever the
    /// ball and the length of the sub-step, the ball's box lies in a field
    /// that is large enough for it afterwards, and the ball is no faster
    /// than before and than its top speed.
    pub fn update_position(&mut self, sub_dt_us: u32, game_width: i64, game_height: i64)
        ensures
            *final(self) == old(self).moved(sub_dt_us as int, game_width as int, game_height as int),
            old(self).active && !old(self).grabbed && game_width >= BALL_WIDTH ==> BALL_WIDTH / 2
                <= final(self).x <= game_width - BALL_WIDTH / 2,
            old(self).active && !old(self).grabbed && game_height >= BALL_HEIGHT ==> BALL_HEIGHT
                / 2 <= final(self).y <= game_height - BALL_HEIGHT / 2,
            old(self).active && !old(self).grabbed ==> final(self).speed_ok(),
            norm2(final(self).vx as int, final(self).vy as int) <= norm2(
                old(self).vx as int,
                old(self).vy as int,
            ),
    {
        if self.active && !self.grabbed {
            let cx = clamp(self.vx, -VEC_LIMIT, VEC_LIMIT);
            let cy = clamp(self.vy, -VEC_LIMIT, VEC_LIMIT);
            let v = cap_speed(cx, cy, MAX_BALL_SPEED);
            let (x, touched_x) = fly(self.x, v.0, sub_dt_us, BALL_WIDTH / 2, game_width);
            let (y, touched_y) = fly(self.y, v.1, sub_dt_us, BALL_HEIGHT / 2, game_height);
            let fx = mul_div(v.0, BALL_FRICTION, 1000);
            let fy = mul_div(v.1, BALL_FRICTION, 1000);
            proof {
                lemma_slower_keeps_cap(self.vx as int, self.vy as int, cx as int, cy as int);
                lemma_slower_keeps_cap(v.0 as int, v.1 as int, fx as int, fy as int);
                lemma_scaled_bound(v.0 as int, BALL_FRICTION as int, 1000);
                lemma_scaled_bound(v.1 as int, BALL_FRICTION as int, 1000);
            }
            self.x = x;
            self.y = y;
            self.vx = if touched_x {
                -fx
            } else {
                fx
            };
            self.vy = if touched_y {
                -fy
            } else {
                fy
            };
            proof {
                lemma_slower_keeps_cap(fx as int, fy as int, self.vx as int, self.vy as int);
            }
        }
    }

    /// Hands the ball to a player: it stops at the player's ship and the shot clock restarts.
    pub fn grab(&mut self, player_id: u32, player_x: i64, player_y: i64)
        ensures
            *final(self) == old(self).grabbed_by(player_id, player_x, player_y),
            final(self).possession_ok(),
            final(self).speed_ok(),
    {
        self.grabbed = true;
        self.owner = Some(player_id);
        self.vx = 0;
        self.vy = 0;
        self.x = player_x;
        self.y = player_y;
        self.shot_clock = SHOT_CLOCK_MS;
    }

    /// Sets the ball free and records who let go of it.
    pub fn release(&mut self, shooter_id: u32)
        ensures
            *final(self) == old(self).released_by(shooter_id),
            !final(self).grabbed,
            final(self).owner.is_none(),
    {
        self.grabbed = false;
        self.last_shooter = Some(shooter_id);
        self.owner = None;
        self.shot_clock = SHOT_CLOCK_MS;
    }

    /// Moves the ball into the field, when it lies outside.
    pub fn confine(&mut self, config: &GameConfig)
        requires
            config.wf(),
        ensures
            *final(self) == old(self).confined(*config),
            final(self).in_field(*config),
    {
        self.x = clamp(self.x, 0, config.field_width);
        self.y = clamp(self.y, 0, config.field_height);
    }
}

/// A vector whose components did not grow keeps the speed cap.
pub proof fn lemma_slower_keeps_cap(vx: int, vy: int, wx: int, wy: int)
    requires
        abs(wx) <= abs(vx),
        abs(wy) <= abs(vy),
    ensures
        norm2(wx, wy) <= norm2(vx, vy),
{
    lemma_square_monotone(abs(wx), abs(vx));
    lemma_square_monotone(abs(wy), abs(vy));
    assert(abs(wx) * abs(wx) == wx * wx) by (nonlinear_arith);
    assert(abs(wy) * abs(wy) == wy * wy) by (nonlinear_arith);
    assert(abs(vx) * abs(vx) == vx * vx) by (nonlinear_arith);
    assert(abs(vy) * abs(vy) == vy * vy) by (nonlinear_arith);
}

/// Advances one coordinate of a free ball and says whether it touched the edge.
fn fly(pos: i64, v: i64, sub_dt_us: u32, half: i64, extent: i64) -> (r: (i64, bool))
    requires
        -MAX_BALL_SPEED <= v <= MAX_BALL_SPEED,
        0 < half <= 1_000_000,
    ensures
        (r.0 as int, r.1) == flown(pos as int, v as int, sub_dt_us as int, half as int, extent as int),
        2 * half <= extent ==> half <= r.0 <= extent - half,
{
    proof {
        lemma_mul_bound(v as int, sub_dt_us as int, 500_000, 4_294_967_295);
        assert(500_000int * 4_294_967_295int == 2_147_483_647_500_000int);
    }
    let travel: i128 = ((v as i128) * (sub_dt_us as i128)) / 1_000_000;
    let p: i128 = pos as i128 + travel;
    if p - half as i128 <= 0 || p + half as i128 >= extent as i128 {
        let far: i128 = extent as i128 - half as i128;
        let hi: i128 = if far > half as i128 {
            far
        } else {
            half as i128
        };
        let inside: i128 = if p < half as i128 {
            half as i128
        } else if p > hi {
            hi
        } else {
            p
        };
        (inside as i64, true)
    } else {
        (p as i64, false)
    }
}

} // verus!
