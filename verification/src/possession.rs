//! Possession of the ball: picking it up, shooting it, and the shot clock.

use crate::ball::{Ball, MAX_BALL_SPEED};
use crate::collision::{aabb_collision, boxes_overlap, line_intersects_rect, segment_meets_rect};
use crate::events::GameEvent;
use crate::fixed::{add_clamped, cap_speed, cap_speed_spec, clamp, clamp_spec, mul_div, norm2, norm2_of, scale_to, scale_to_spec, scaled, COORD_LIMIT, MAX_TICK_MS, SPEED_LIMIT, UNIT, VEC_LIMIT};
use crate::game::{lemma_lookup_finds, lemma_players_stay_valid, lookup, Game, GameView};
use crate::geometry::{map_wf, AimMode, GameConfig, MapObject, BALL_HEIGHT, BALL_WIDTH};
use crate::player::{InputState, Player};
use vstd::prelude::*;

verus! {

/// An aim vector is shortened to this length before it is normalised.
pub const MAX_AIM: i64 = 500_000;

/// Force of a shot.
pub const BASE_SHOT_FORCE: i64 = 800_000;

/// How many times lighter than a ship the ball is.
pub const BALL_LIGHTNESS: i64 = 2;

/// Distance from the shooter's centre at which a shot ball is put down.
pub const SHOT_OFFSET: i64 = 35_000;

/// Time after a shot before the shooter can shoot again.
pub const SHOOT_COOLDOWN_MS: u32 = 250;

/// Time after a shot before the shooter can pick the ball up again.
pub const SHOOTER_GRAB_COOLDOWN_MS: u32 = 300;

/// A ship picks the ball up from within this distance.
pub const GRAB_RADIUS: i64 = 30_000;

/// A wall of the map meets the segment from `a` to `b`.
pub open spec fn sight_blocked(map: Seq<MapObject>, a: (int, int), b: (int, int)) -> bool {
    exists|i: int|
        0 <= i < map.len() && (#[trigger] map[i]).is_wall() && segment_meets_rect(
            a.0,
            a.1,
            b.0,
            b.1,
            map[i].x as int,
            map[i].y as int,
            map[i].width as int,
            map[i].height as int,
        )
}

/// The ball, put down at `at`, would lie in the wall.
pub open spec fn ball_in_wall(wall: MapObject, at: (int, int)) -> bool {
    boxes_overlap(
        at.0 - BALL_WIDTH / 2,
        at.1 - BALL_HEIGHT / 2,
        BALL_WIDTH as int,
        BALL_HEIGHT as int,
        wall.x as int,
        wall.y as int,
        wall.width as int,
        wall.height as int,
    )
}

/// A wall keeps the ball from being put down at `at` by a ship at `ship`:
/// the ball would lie in the wall, or the wall lies between the two.
pub open spec fn drop_blocked(map: Seq<MapObject>, ship: (int, int), at: (int, int)) -> bool {
    exists|i: int|
        0 <= i < map.len() && (#[trigger] map[i]).is_wall() && (ball_in_wall(map[i], at)
            || segment_meets_rect(
            ship.0,
            ship.1,
            at.0,
            at.1,
            map[i].x as int,
            map[i].y as int,
            map[i].width as int,
            map[i].height as int,
        ))
}

/// Where a shot ball is put down: `SHOT_OFFSET` from the ship along `dir`, a
/// vector of length `UNIT`; at the ship's centre where a wall is in the way.
pub open spec fn shot_position(map: Seq<MapObject>, ship: (int, int), dir: (int, int)) -> (int, int) {
    let at = (
        ship.0 + scaled(dir.0, SHOT_OFFSET as int, 1000),
        ship.1 + scaled(dir.1, SHOT_OFFSET as int, 1000),
    );
    if drop_blocked(map, ship, at) {
        ship
    } else {
        at
    }
}

impl Player {
    /// The ship's velocity, if the ship moves at one unit per second or more.
    pub open spec fn velocity_aim(self) -> Option<(int, int)> {
        if norm2(self.velocity.0 as int, self.velocity.1 as int) >= UNIT * UNIT {
            Some((self.velocity.0 as int, self.velocity.1 as int))
        } else {
            None
        }
    }

    /// The vector from the ship to the target point, if a point was given
    /// and lies one unit away or more.
    pub open spec fn target_aim(self) -> Option<(int, int)> {
        match self.input.target() {
            Some(t) => if norm2(t.0 - self.ship.x, t.1 - self.ship.y) >= UNIT * UNIT {
                Some((t.0 - self.ship.x, t.1 - self.ship.y))
            } else {
                None
            },
            None => None,
        }
    }

    /// The direction of a shot: the signal that the mode prefers, else the
    /// other one, else straight up.
    pub open spec fn aim(self, mode: AimMode) -> (int, int) {
        let first = match mode {
            AimMode::Target => self.target_aim(),
            AimMode::Velocity => self.velocity_aim(),
        };
        let second = match mode {
            AimMode::Target => self.velocity_aim(),
            AimMode::Velocity => self.target_aim(),
        };
        match first {
            Some(a) => a,
            None => match second {
                Some(a) => a,
                None => (0, -UNIT),
            },
        }
    }

    /// The impulse of a shot over a tick of `dt` milliseconds: the shot
    /// force along the aim, plus a share of the shooter's own velocity.
    pub open spec fn shot_impulse(self, mode: AimMode, dt: int) -> (int, int) {
        let a = self.aim(mode);
        let capped = cap_speed_spec(a.0, a.1, MAX_AIM as int);
        let dir = scale_to_spec(capped.0, capped.1, UNIT as int);
        (
            scaled(scaled(dir.0, BASE_SHOT_FORCE as int, 1000), dt, 1000) + scaled(
                self.velocity.0 as int,
                dt,
                1000,
            ),
            scaled(scaled(dir.1, BASE_SHOT_FORCE as int, 1000), dt, 1000) + scaled(
                self.velocity.1 as int,
                dt,
                1000,
            ),
        )
    }

    /// The shooter after a shot of the given impulse: pushed back by it,
    /// unable to shoot or to pick the ball up for a moment, trigger released.
    pub open spec fn recoiled(self, impulse: (int, int)) -> Player {
        Player {
            grab_cooldown: SHOOTER_GRAB_COOLDOWN_MS,
            shoot_cooldown: SHOOT_COOLDOWN_MS,
            velocity: (
                clamp_spec(self.velocity.0 - impulse.0, -SPEED_LIMIT as int, SPEED_LIMIT as int) as i64,
                clamp_spec(self.velocity.1 - impulse.1, -SPEED_LIMIT as int, SPEED_LIMIT as int) as i64,
            ),
            input: InputState { shoot: false, ..self.input },
            ..self
        }
    }

    /// Pushes the shooter back by the impulse of the shot and starts the
    /// shooter's cooldowns.
    pub fn recoil(&mut self, impulse: (i64, i64))
        requires
            -SPEED_LIMIT <= old(self).velocity.0 <= SPEED_LIMIT,
            -SPEED_LIMIT <= old(self).velocity.1 <= SPEED_LIMIT,
            -BASE_SHOT_FORCE - SPEED_LIMIT <= impulse.0 <= BASE_SHOT_FORCE + SPEED_LIMIT,
            -BASE_SHOT_FORCE - SPEED_LIMIT <= impulse.1 <= BASE_SHOT_FORCE + SPEED_LIMIT,
        ensures
            *final(self) == old(self).recoiled((impulse.0 as int, impulse.1 as int)),
            forall|config: GameConfig| old(self).wf(config) ==> final(self).wf(config),
    {
        self.grab_cooldown = SHOOTER_GRAB_COOLDOWN_MS;
        self.velocity.0 = add_clamped(self.velocity.0, -impulse.0, SPEED_LIMIT);
        self.velocity.1 = add_clamped(self.velocity.1, -impulse.1, SPEED_LIMIT);
        self.shoot_cooldown = SHOOT_COOLDOWN_MS;
        self.input.shoot = false;
    }

    /// Computes the direction of a shot.
    pub fn aim_vector(&self, mode: AimMode) -> (r: (i64, i64))
        requires
            -COORD_LIMIT <= self.ship.x <= COORD_LIMIT,
            -COORD_LIMIT <= self.ship.y <= COORD_LIMIT,
            -SPEED_LIMIT <= self.velocity.0 <= SPEED_LIMIT,
            -SPEED_LIMIT <= self.velocity.1 <= SPEED_LIMIT,
        ensures
            (r.0 as int, r.1 as int) == self.aim(mode),
            -VEC_LIMIT <= r.0 <= VEC_LIMIT,
            -VEC_LIMIT <= r.1 <= VEC_LIMIT,
    {
        let by_velocity: Option<(i64, i64)> = if norm2_of(self.velocity.0, self.velocity.1) >= (UNIT
            * UNIT) as u64 {
            Some(self.velocity)
        } else {
            None
        };
        let by_target: Option<(i64, i64)> = match self.input.aimed_at() {
            Some((tx, ty)) => {
                let dx = tx - self.ship.x;
                let dy = ty - self.ship.y;
                if norm2_of(dx, dy) >= (UNIT * UNIT) as u64 {
                    Some((dx, dy))
                } else {
                    None
                }
            },
            _ => None,
        };
        let (first, second) = match mode {
            AimMode::Target => (by_target, by_velocity),
            AimMode::Velocity => (by_velocity, by_target),
        };
        match first {
            Some(a) => a,
            None => match second {
                Some(a) => a,
                None => (0, -UNIT),
            },
        }
    }

    /// Computes the impulse of a shot over a tick of `dt` milliseconds.
    pub fn impulse_of_shot(&self, mode: AimMode, dt: u32) -> (r: (i64, i64))
        requires
            -COORD_LIMIT <= self.ship.x <= COORD_LIMIT,
            -COORD_LIMIT <= self.ship.y <= COORD_LIMIT,
            -SPEED_LIMIT <= self.velocity.0 <= SPEED_LIMIT,
            -SPEED_LIMIT <= self.velocity.1 <= SPEED_LIMIT,
            dt <= MAX_TICK_MS,
        ensures
            (r.0 as int, r.1 as int) == self.shot_impulse(mode, dt as int),
            -BASE_SHOT_FORCE - SPEED_LIMIT <= r.0 <= BASE_SHOT_FORCE + SPEED_LIMIT,
            -BASE_SHOT_FORCE - SPEED_LIMIT <= r.1 <= BASE_SHOT_FORCE + SPEED_LIMIT,
    {
        let a = self.aim_vector(mode);
        let capped = cap_speed(a.0, a.1, MAX_AIM);
        let dir = scale_to(capped.0, capped.1, UNIT);
        let fx = mul_div(mul_div(dir.0, BASE_SHOT_FORCE, 1000), dt as i64, 1000);
        let fy = mul_div(mul_div(dir.1, BASE_SHOT_FORCE, 1000), dt as i64, 1000);
        (
            fx + mul_div(self.velocity.0, dt as i64, 1000),
            fy + mul_div(self.velocity.1, dt as i64, 1000),
        )
    }
}

/// Tells whether a wall of the map meets the segment from `(ax, ay)` to `(bx, by)`.
pub fn line_of_sight_blocked(map: &Vec<MapObject>, ax: i64, ay: i64, bx: i64, by: i64) -> (r: bool)
    requires
        map_wf(map@),
        -VEC_LIMIT <= ax <= VEC_LIMIT,
        -VEC_LIMIT <= ay <= VEC_LIMIT,
        -VEC_LIMIT <= bx <= VEC_LIMIT,
        -VEC_LIMIT <= by <= VEC_LIMIT,
    ensures
        r == sight_blocked(map@, (ax as int, ay as int), (bx as int, by as int)),
{
    let n = map.len();
    let mut i: usize = 0;
    while i < n
        invariant
            i <= n,
            n == map@.len(),
            map_wf(map@),
            -VEC_LIMIT <= ax <= VEC_LIMIT,
            -VEC_LIMIT <= ay <= VEC_LIMIT,
            -VEC_LIMIT <= bx <= VEC_LIMIT,
            -VEC_LIMIT <= by <= VEC_LIMIT,
            forall|j: int|
                0 <= j < i ==> !((#[trigger] map@[j]).is_wall() && segment_meets_rect(
                    ax as int,
                    ay as int,
                    bx as int,
                    by as int,
                    map@[j].x as int,
                    map@[j].y as int,
                    map@[j].width as int,
                    map@[j].height as int,
                )),
        decreases n - i,
    {
        let wall = &map[i];
        assert(map@[i as int].wf());
        if wall.wall() && line_intersects_rect(
            ax,
            ay,
            bx,
            by,
            wall.x,
            wall.y,
            wall.width,
            wall.height,
        ) {
            return true;
        }
        i += 1;
    }
    false
}

/// Tells whether a wall keeps the ball from being put down at `(x, y)` by a
/// ship at `(ship_x, ship_y)`.
pub fn drop_is_blocked(map: &Vec<MapObject>, ship_x: i64, ship_y: i64, x: i64, y: i64) -> (r: bool)
    requires
        map_wf(map@),
        -VEC_LIMIT <= ship_x <= VEC_LIMIT,
        -VEC_LIMIT <= ship_y <= VEC_LIMIT,
        -VEC_LIMIT <= x <= VEC_LIMIT,
        -VEC_LIMIT <= y <= VEC_LIMIT,
    ensures
        r == drop_blocked(map@, (ship_x as int, ship_y as int), (x as int, y as int)),
{
    let n = map.len();
    let mut i: usize = 0;
    while i < n
        invariant
            i <= n,
            n == map@.len(),
            map_wf(map@),
            -VEC_LIMIT <= ship_x <= VEC_LIMIT,
            -VEC_LIMIT <= ship_y <= VEC_LIMIT,
            -VEC_LIMIT <= x <= VEC_LIMIT,
            -VEC_LIMIT <= y <= VEC_LIMIT,
            forall|j: int|
                0 <= j < i ==> !((#[trigger] map@[j]).is_wall() && (ball_in_wall(
                    map@[j],
                    (x as int, y as int),
                ) || segment_meets_rect(
                    ship_x as int,
                    ship_y as int,
                    x as int,
                    y as int,
                    map@[j].x as int,
                    map@[j].y as int,
                    map@[j].width as int,
                    map@[j].height as int,
                ))),
        decreases n - i,
    {
        let wall = &map[i];
        assert(map@[i as int].wf());
        if wall.wall() {
            if aabb_collision(
                x - BALL_WIDTH / 2,
                y - BALL_HEIGHT / 2,
                BALL_WIDTH,
                BALL_HEIGHT,
                wall.x,
                wall.y,
                wall.width,
                wall.height,
            ) {
                return true;
            }
            if line_intersects_rect(ship_x, ship_y, x, y, wall.x, wall.y, wall.width, wall.height) {
                return true;
            }
        }
        i += 1;
    }
    false
}

impl GameView {
    /// The match after the player at index `i`, who holds the ball, shot it
    /// over a tick of `dt` milliseconds. The ball leaves along the aim with
    /// the shot's impulse, at most at the ball's top speed, and is put down
    /// just outside the shooter, inside the field.
    pub open spec fn shot(self, i: int, dt: int, auto: bool) -> GameView {
        let p = self.players[i];
        let impulse = p.shot_impulse(self.config.aim_mode, dt);
        let v = cap_speed_spec(
            impulse.0 * BALL_LIGHTNESS,
            impulse.1 * BALL_LIGHTNESS,
            MAX_BALL_SPEED as int,
        );
        let dir = scale_to_spec(v.0, v.1, UNIT as int);
        let at = shot_position(self.map, (p.ship.x as int, p.ship.y as int), dir);
        let ball = Ball {
            x: clamp_spec(at.0, 0, self.config.field_width as int) as i64,
            y: clamp_spec(at.1, 0, self.config.field_height as int) as i64,
            vx: v.0 as i64,
            vy: v.1 as i64,
            ..self.ball.released_by(p.id)
        };
        GameView {
            ball,
            players: self.players.update(i, p.recoiled(impulse)),
            events: self.events.push(
                if auto {
                    GameEvent::AutoShoot { player_id: p.id }
                } else {
                    GameEvent::BallShot { player_id: p.id }
                },
            ),
            ..self
        }
    }

    /// The match after the shot clock was looked at: when it has run out
    /// under the holder of the ball, the ball is shot for the holder.
    pub open spec fn auto_released(self, dt: int) -> GameView {
        if self.ball.grabbed && self.ball.shot_clock == 0 {
            match self.ball.owner {
                Some(owner) => match lookup(self.players, owner) {
                    Some(i) => self.shot(i, dt, true),
                    None => self,
                },
                None => self,
            }
        } else {
            self
        }
    }

    /// The match after the holder's trigger was looked at: the holder
    /// shoots if the trigger is pulled and the shoot cooldown is over.
    pub open spec fn shooting_processed(self, dt: int) -> GameView {
        if self.ball.grabbed {
            match self.ball.owner {
                Some(owner) => match lookup(self.players, owner) {
                    Some(i) => if self.players[i].input.shoot && self.players[i].shoot_cooldown
                        == 0 {
                        self.shot(i, dt, false)
                    } else {
                        self
                    },
                    None => self,
                },
                None => self,
            }
        } else {
            self
        }
    }
}

impl GameView {
    /// The squared distance between the ball and the ship of the player at index `i`.
    pub open spec fn grab_distance2(self, i: int) -> int {
        norm2(self.players[i].ship.x - self.ball.x, self.players[i].ship.y - self.ball.y)
    }

    /// The player at index `i` may pick the ball up: neither the player's
    /// grab cooldown nor the ball's pickup cooldown is running, the ball is
    /// not reserved for another team, the ship is within reach and no wall
    /// lies between ship and ball.
    pub open spec fn can_grab(self, i: int) -> bool {
        let p = self.players[i];
        &&& p.grab_cooldown == 0
        &&& self.ball.pickup_cooldown == 0
        &&& (self.ball.exclusive_team matches Some(team) ==> p.team == team)
        &&& self.grab_distance2(i) < GRAB_RADIUS * GRAB_RADIUS
        &&& !sight_blocked(
            self.map,
            (self.ball.x as int, self.ball.y as int),
            (p.ship.x as int, p.ship.y as int),
        )
    }

    /// The player at index `b` is the nearest of the first `k` players who
    /// may pick the ball up, and of those as near the one who joined first.
    pub open spec fn is_nearest_grabber(self, b: int, k: nat) -> bool {
        &&& 0 <= b < k
        &&& self.can_grab(b)
        &&& forall|j: int|
            0 <= j < k && #[trigger] self.can_grab(j) ==> self.grab_distance2(b)
                <= self.grab_distance2(j)
        &&& forall|j: int|
            0 <= j < b && #[trigger] self.can_grab(j) ==> self.grab_distance2(b)
                < self.grab_distance2(j)
    }

    /// The index of the nearest of the first `k` players who may pick the
    /// ball up; of two equally near, the one who joined first.
    pub open spec fn nearest_grabber(self, k: nat) -> Option<int>
        decreases k,
    {
        if k == 0 {
            None
        } else {
            let best = self.nearest_grabber((k - 1) as nat);
            if self.can_grab(k - 1) && (best matches Some(b) ==> self.grab_distance2(k - 1)
                < self.grab_distance2(b)) {
                Some(k - 1)
            } else {
                best
            }
        }
    }

    /// The match after the free ball was offered to the ships: the nearest
    /// player who may pick it up holds it, at that player's ship, and the
    /// ball is no longer reserved for a team.
    pub open spec fn ball_picked_up(self) -> GameView {
        if self.ball.grabbed {
            self
        } else {
            match self.nearest_grabber(self.players.len()) {
                Some(i) => GameView {
                    ball: Ball {
                        exclusive_team: None,
                        ..self.ball.grabbed_by(
                            self.players[i].id,
                            self.players[i].ship.x,
                            self.players[i].ship.y,
                        )
                    },
                    ..self
                },
                None => self,
            }
        }
    }
}

/// What the search for the nearest player finds, said without recursion:
/// nobody, exactly when nobody may pick the ball up; else the player at
/// index `b`, who may, than whom nobody who may is nearer, and who comes
/// first of those as near.
pub proof fn lemma_nearest_grabber_is_nearest(g: GameView, k: nat)
    requires
        k <= g.players.len(),
    ensures
        match g.nearest_grabber(k) {
            None => forall|j: int| 0 <= j < k ==> !#[trigger] g.can_grab(j),
            Some(b) => g.is_nearest_grabber(b, k),
        },
    decreases k,
{
    if k > 0 {
        lemma_nearest_grabber_is_nearest(g, (k - 1) as nat);
    }
}

impl Game {
    /// Puts a shot ball down: `SHOT_OFFSET` from the ship along `(dir_x,
    /// dir_y)`, a vector of length `UNIT`; at the ship's centre where a wall
    /// is in the way. The ball stays in the field.
    pub fn position_ball_after_shot(&mut self, ship_x: i64, ship_y: i64, dir_x: i64, dir_y: i64)
        requires
            old(self).config.wf(),
            map_wf(old(self).map@),
            -COORD_LIMIT <= ship_x <= COORD_LIMIT,
            -COORD_LIMIT <= ship_y <= COORD_LIMIT,
            -UNIT <= dir_x <= UNIT,
            -UNIT <= dir_y <= UNIT,
        ensures
            final(self)@ == (GameView {
                ball: Ball {
                    x: clamp_spec(
                        shot_position(
                            old(self).map@,
                            (ship_x as int, ship_y as int),
                            (dir_x as int, dir_y as int),
                        ).0,
                        0,
                        old(self).config.field_width as int,
                    ) as i64,
                    y: clamp_spec(
                        shot_position(
                            old(self).map@,
                            (ship_x as int, ship_y as int),
                            (dir_x as int, dir_y as int),
                        ).1,
                        0,
                        old(self).config.field_height as int,
                    ) as i64,
                    ..old(self).ball
                },
                ..old(self)@
            }),
            final(self).ball.in_field(final(self).config),
    {
        let new_ball_x = ship_x + mul_div(dir_x, SHOT_OFFSET, 1000);
        let new_ball_y = ship_y + mul_div(dir_y, SHOT_OFFSET, 1000);
        let inside_wall = drop_is_blocked(&self.map, ship_x, ship_y, new_ball_x, new_ball_y);
        if inside_wall {
            self.ball.x = clamp(ship_x, 0, self.config.field_width);
            self.ball.y = clamp(ship_y, 0, self.config.field_height);
        } else {
            self.ball.x = clamp(new_ball_x, 0, self.config.field_width);
            self.ball.y = clamp(new_ball_y, 0, self.config.field_height);
        }
    }

    /// Shoots the ball for the player at index `i`, who holds it.
    #[verifier::rlimit(40)]
    pub fn shoot(&mut self, i: usize, dt: u32, auto: bool)
        requires
            old(self).wf(),
            i < old(self).players@.len(),
            dt <= MAX_TICK_MS,
        ensures
            final(self)@ == old(self)@.shot(i as int, dt as int, auto),
            final(self).wf(),
            !final(self).ball.grabbed,
            final(self).ball.last_shooter == Some(old(self).players@[i as int].id),
    {
        assert(self.players@[i as int].wf(self.config));
        let id = self.players[i].id;
        let ship_x = self.players[i].ship.x;
        let ship_y = self.players[i].ship.y;
        let impulse = self.players[i].impulse_of_shot(self.config.aim_mode, dt);
        let v = cap_speed(impulse.0 * BALL_LIGHTNESS, impulse.1 * BALL_LIGHTNESS, MAX_BALL_SPEED);
        let dir = scale_to(v.0, v.1, UNIT);
        self.ball.vx = v.0;
        self.ball.vy = v.1;
        self.position_ball_after_shot(ship_x, ship_y, dir.0, dir.1);
        self.ball.release(id);
        self.players[i].recoil(impulse);
        if auto {
            self.events.push(GameEvent::AutoShoot { player_id: id });
        } else {
            self.events.push(GameEvent::BallShot { player_id: id });
        }
        proof {
            let after = self.players@;
            let before = old(self).players@;
            assert(after =~= before.update(i as int, before[i as int].recoiled((impulse.0 as int, impulse.1 as int))));
            lemma_players_stay_valid(before, after, self.config, self.next_id);
        }
    }

    /// Shoots the ball for its holder when the shot clock has run out.
    pub fn auto_release(&mut self, dt: u32)
        requires
            old(self).wf(),
            dt <= MAX_TICK_MS,
        ensures
            final(self)@ == old(self)@.auto_released(dt as int),
            final(self).wf(),
            !(old(self).ball.grabbed && old(self).ball.shot_clock == 0) ==> final(self)@ == old(self)@,
            forall|i: int|
                0 <= i < old(self).players@.len() && old(self).ball.grabbed && old(self).ball.shot_clock == 0 && old(self).ball.owner == Some(
                    (#[trigger] old(self).players@[i]).id,
                ) ==> final(self)@ == old(self)@.shot(i, dt as int, true) && !final(self).ball.grabbed && final(self).ball.owner.is_none() && final(self).ball.last_shooter
                    == old(self).ball.owner,
    {
        proof {
            assert forall|i: int|
                0 <= i < self.players@.len() && self.ball.owner == Some(
                    (#[trigger] self.players@[i]).id,
                ) implies lookup(self.players@, self.players@[i].id) == Some(i) by {
                lemma_lookup_finds(self.players@, self.players@[i].id, i);
            }
        }
        if self.ball.grabbed && self.ball.shot_clock == 0 {
            if let Some(owner) = self.ball.owner {
                if let Some(i) = self.find_player(owner) {
                    self.shoot(i, dt, true);
                }
            }
        }
    }

    /// Shoots the ball for its holder when the holder pulls the trigger and
    /// the shoot cooldown is over.
    pub fn process_shooting(&mut self, dt: u32)
        requires
            old(self).wf(),
            dt <= MAX_TICK_MS,
        ensures
            final(self)@ == old(self)@.shooting_processed(dt as int),
            final(self).wf(),
            !old(self).ball.grabbed ==> final(self)@ == old(self)@,
            forall|i: int|
                0 <= i < old(self).players@.len() && old(self).ball.grabbed && old(self).ball.owner
                    == Some((#[trigger] old(self).players@[i]).id) ==> final(self)@ == (if old(self).players@[i].input.shoot && old(self).players@[i].shoot_cooldown == 0 {
                    old(self)@.shot(i, dt as int, false)
                } else {
                    old(self)@
                }),
    {
        proof {
            assert forall|i: int|
                0 <= i < self.players@.len() && self.ball.owner == Some(
                    (#[trigger] self.players@[i]).id,
                ) implies lookup(self.players@, self.players@[i].id) == Some(i) by {
                lemma_lookup_finds(self.players@, self.players@[i].id, i);
            }
        }
        if self.ball.grabbed {
            if let Some(owner) = self.ball.owner {
                if let Some(i) = self.find_player(owner) {
                    if self.players[i].input.shoot && self.players[i].shoot_cooldown == 0 {
                        self.shoot(i, dt, false);
                    }
                }
            }
        }
    }
    /// Tells whether the player at index `i` may pick the ball up.
    pub fn may_grab(&self, i: usize) -> (r: bool)
        requires
            self.wf(),
            i < self.players@.len(),
        ensures
            r == self@.can_grab(i as int),
    {
        assert(self.players@[i as int].wf(self.config));
        let p = &self.players[i];
        if p.grab_cooldown > 0 || self.ball.pickup_cooldown > 0 {
            return false;
        }
        if let Some(team) = self.ball.exclusive_team {
            if p.team != team {
                return false;
            }
        }
        let d2 = norm2_of(p.ship.x - self.ball.x, p.ship.y - self.ball.y);
        if d2 >= (GRAB_RADIUS * GRAB_RADIUS) as u64 {
            return false;
        }
        !line_of_sight_blocked(&self.map, self.ball.x, self.ball.y, p.ship.x, p.ship.y)
    }

    /// Offers the free ball to the ships and says whether one picked it up.
    pub fn try_grab(&mut self) -> (r: bool)
        requires
            old(self).wf(),
        ensures
            final(self)@ == old(self)@.ball_picked_up(),
            final(self).wf(),
            r == (!old(self).ball.grabbed && final(self).ball.grabbed),
            old(self).ball.grabbed ==> final(self)@ == old(self)@,
            (forall|j: int| 0 <= j < old(self).players@.len() ==> !#[trigger] old(self)@.can_grab(j))
                ==> final(self)@ == old(self)@,
            forall|b: int|
                !old(self).ball.grabbed && #[trigger] old(self)@.is_nearest_grabber(
                    b,
                    old(self).players@.len(),
                ) ==> final(self).ball == (Ball {
                    exclusive_team: None,
                    ..old(self).ball.grabbed_by(
                        old(self).players@[b].id,
                        old(self).players@[b].ship.x,
                        old(self).players@[b].ship.y,
                    )
                }),
    {
        proof {
            lemma_nearest_grabber_is_nearest(self@, self.players@.len());
        }
        if self.ball.grabbed {
            return false;
        }
        let n = self.players.len();
        let mut best: Option<usize> = None;
        let mut best_d2: u64 = 0;
        let mut i: usize = 0;
        while i < n
            invariant
                i <= n,
                n == self.players@.len(),
                self.wf(),
                *self == *old(self),
                match best {
                    Some(b) => self@.nearest_grabber(i as nat) == Some(b as int) && b < i
                        && best_d2 == self@.grab_distance2(b as int),
                    None => self@.nearest_grabber(i as nat).is_none(),
                },
            decreases n - i,
        {
            assert(self.players@[i as int].wf(self.config));
            if self.may_grab(i) {
                let d2 = norm2_of(
                    self.players[i].ship.x - self.ball.x,
                    self.players[i].ship.y - self.ball.y,
                );
                if best.is_none() || d2 < best_d2 {
                    best = Some(i);
                    best_d2 = d2;
                }
            }
            i += 1;
        }
        match best {
            Some(b) => {
                assert(self.players@[b as int].wf(self.config));
                let id = self.players[b].id;
                let x = self.players[b].ship.x;
                let y = self.players[b].ship.y;
                self.ball.grab(id, x, y);
                self.ball.exclusive_team = None;
                true
            },
            None => false,
        }
    }
}

} // verus!
