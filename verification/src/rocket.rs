//! The rocket phases of a tick: firing, flight, and the explosion that ends it.

use crate::ball::{Ball, MAX_BALL_SPEED};
use crate::collision::{aabb_collision, boxes_overlap, lemma_speed_components};
use crate::contact::plus_clamped;
use crate::events::GameEvent;
use crate::fixed::{add_clamped, cap_speed, cap_speed_spec, clamp_spec, lemma_square_monotone, length, mul_div, norm2, norm2_of, scale_to, scale_to_spec, scaled, trunc_div, vec_len, COORD_LIMIT, MAX_TICK_MS, SPEED_LIMIT, UNIT, VEC_LIMIT};
use crate::game::{lemma_players_stay_valid, projectiles_wf, Game, GameView};
use crate::geometry::GameConfig;
use crate::player::{InputState, Player};
use crate::projectile::{Projectile, PROJECTILE_OFFSET, PROJECTILE_RADIUS, PROJECTILE_SPEED};
use vstd::prelude::*;

verus! {

/// Time after firing before a ship can fire again.
pub const ROCKET_COOLDOWN_MS: u32 = 8_000;

/// Speed that firing a rocket takes from the ship.
pub const ROCKET_RECOIL: i64 = 37_500;

pub const EXPLOSION_RADIUS: i64 = 100_000;

/// Change of speed of a ship at the centre of an explosion.
pub const EXPLOSION_FORCE: i64 = 300_000;

/// Time before a player who lost the ball to an explosion can pick it up again.
pub const BLAST_GRAB_COOLDOWN_MS: u32 = 500;

/// A rocket touches a ship when their centres are closer than this: the
/// radius of a ship and that of a rocket.
pub const ROCKET_SHIP_REACH: i64 = 25_000;

/// A rocket touches the ball when their centres are closer than this: the
/// radius of the ball and that of a rocket.
pub const ROCKET_BALL_REACH: i64 = 15_000;

/// The id after `id`: ids wrap around to one.
pub open spec fn next_rocket_id(id: u32) -> u32 {
    if id == u32::MAX {
        1
    } else {
        (id + 1) as u32
    }
}

/// The direction away from the centre of something at offset `(dx, dy)`
/// from it, as a vector of length `UNIT`; to the right at the centre itself.
pub open spec fn away(dx: int, dy: int) -> (int, int) {
    if dx == 0 && dy == 0 {
        (UNIT as int, 0)
    } else {
        scale_to_spec(dx, dy, UNIT as int)
    }
}

/// The change of velocity that an explosion gives to something at offset
/// `(dx, dy)` from its centre: directed away from the centre, strongest
/// there and falling off in a straight line to nothing at the radius.
pub open spec fn blast(dx: int, dy: int) -> (int, int) {
    if norm2(dx, dy) < EXPLOSION_RADIUS * EXPLOSION_RADIUS {
        let dir = away(dx, dy);
        let reach = EXPLOSION_RADIUS - vec_len(dx, dy);
        (
            scaled(scaled(dir.0, EXPLOSION_FORCE as int, 1000), reach, EXPLOSION_RADIUS as int),
            scaled(scaled(dir.1, EXPLOSION_FORCE as int, 1000), reach, EXPLOSION_RADIUS as int),
        )
    } else {
        (0, 0)
    }
}

impl Player {
    /// The direction in which the ship fires, as a vector of length `UNIT`:
    /// at the target point, or straight up when none was given. There is
    /// none when the target point is the ship's own position.
    pub open spec fn rocket_aim(self) -> Option<(int, int)> {
        match self.input.target() {
            Some(t) => if t.0 == self.ship.x && t.1 == self.ship.y {
                None
            } else {
                Some(scale_to_spec(t.0 - self.ship.x, t.1 - self.ship.y, UNIT as int))
            },
            None => Some((0, -UNIT)),
        }
    }

    /// The ship fires: rockets are on, the trigger is pulled, the cooldown
    /// is over and there is a direction to fire in.
    pub open spec fn fires(self, config: GameConfig) -> bool {
        config.rockets && self.input.boost && self.rocket_cooldown == 0
            && self.rocket_aim().is_some()
    }

    /// The rocket that the ship fires: it appears outside the ship, along
    /// the aim, and flies at rocket speed plus half the ship's velocity.
    pub open spec fn rocket(self, id: u32) -> Projectile {
        let dir = self.rocket_aim().unwrap();
        Projectile::launched(
            id,
            (self.ship.x + scaled(dir.0, PROJECTILE_OFFSET as int, 1000)) as i64,
            (self.ship.y + scaled(dir.1, PROJECTILE_OFFSET as int, 1000)) as i64,
            (scaled(dir.0, PROJECTILE_SPEED as int, 1000) + trunc_div(self.velocity.0 as int, 2)) as i64,
            (scaled(dir.1, PROJECTILE_SPEED as int, 1000) + trunc_div(self.velocity.1 as int, 2)) as i64,
            self.id,
        )
    }

    /// The player after firing: pushed back, trigger released, cooldown running.
    pub open spec fn after_firing(self) -> Player {
        let dir = self.rocket_aim().unwrap();
        Player {
            rocket_cooldown: ROCKET_COOLDOWN_MS,
            input: InputState { boost: false, ..self.input },
            velocity: (
                clamp_spec(
                    self.velocity.0 - scaled(dir.0, ROCKET_RECOIL as int, 1000),
                    -SPEED_LIMIT as int,
                    SPEED_LIMIT as int,
                ) as i64,
                clamp_spec(
                    self.velocity.1 - scaled(dir.1, ROCKET_RECOIL as int, 1000),
                    -SPEED_LIMIT as int,
                    SPEED_LIMIT as int,
                ) as i64,
            ),
            ..self
        }
    }

    /// Computes the direction in which the ship fires.
    pub fn aim_of_rocket(&self) -> (r: Option<(i64, i64)>)
        requires
            -COORD_LIMIT <= self.ship.x <= COORD_LIMIT,
            -COORD_LIMIT <= self.ship.y <= COORD_LIMIT,
        ensures
            match r {
                Some(d) => self.rocket_aim() == Some((d.0 as int, d.1 as int)) && -UNIT <= d.0 <= UNIT
                    && -UNIT <= d.1 <= UNIT,
                None => self.rocket_aim().is_none(),
            },
    {
        match self.input.aimed_at() {
            Some((tx, ty)) => {
                if tx == self.ship.x && ty == self.ship.y {
                    None
                } else {
                    Some(scale_to(tx - self.ship.x, ty - self.ship.y, UNIT))
                }
            },
            _ => Some((0, -UNIT)),
        }
    }
}

impl GameView {
    /// The match after the player at index `i` was given the chance to fire.
    pub open spec fn fired(self, i: int) -> GameView {
        let p = self.players[i];
        if p.fires(self.config) {
            GameView {
                projectiles: self.projectiles.push(p.rocket(self.next_projectile_id)),
                next_projectile_id: next_rocket_id(self.next_projectile_id),
                players: self.players.update(i, p.after_firing()),
                events: self.events.push(GameEvent::ProjectileFired { player_id: p.id }),
                ..self
            }
        } else {
            self
        }
    }

    /// The match after the first `k` players were given the chance to fire.
    pub open spec fn rockets_fired(self, k: nat) -> GameView
        decreases k,
    {
        if k == 0 {
            self
        } else {
            self.rockets_fired((k - 1) as nat).fired(k - 1)
        }
    }

    /// The match after an explosion at `(x, y)` reached the player at index
    /// `i`: a ship within the radius is thrown back, and if it held the
    /// ball, the ball flies off in the same direction.
    pub open spec fn blast_player(self, i: int, x: int, y: int) -> GameView {
        let p = self.players[i];
        let dx = p.ship.x - x;
        let dy = p.ship.y - y;
        if norm2(dx, dy) < EXPLOSION_RADIUS * EXPLOSION_RADIUS {
            let f = blast(dx, dy);
            let thrown = Player { velocity: plus_clamped(p.velocity, f, SPEED_LIMIT as int), ..p };
            if self.ball.held_by(p.id) {
                let v = cap_speed_spec(
                    trunc_div(f.0 * 3, 2),
                    trunc_div(f.1 * 3, 2),
                    MAX_BALL_SPEED as int,
                );
                GameView {
                    players: self.players.update(
                        i,
                        Player { grab_cooldown: BLAST_GRAB_COOLDOWN_MS, ..thrown },
                    ),
                    ball: Ball {
                        grabbed: false,
                        owner: None,
                        x: p.ship.x,
                        y: p.ship.y,
                        vx: v.0 as i64,
                        vy: v.1 as i64,
                        ..self.ball
                    },
                    events: self.events.push(GameEvent::BallKnocked { player_id: p.id }),
                    ..self
                }
            } else {
                GameView { players: self.players.update(i, thrown), ..self }
            }
        } else {
            self
        }
    }

    /// The match after an explosion at `(x, y)` reached the first `k` players.
    pub open spec fn blast_players(self, x: int, y: int, k: nat) -> GameView
        decreases k,
    {
        if k == 0 {
            self
        } else {
            self.blast_players(x, y, (k - 1) as nat).blast_player(k - 1, x, y)
        }
    }

    /// The match after an explosion at `(x, y)` reached the ball: a free
    /// ball within the radius is thrown back twice as hard as a ship, up to
    /// the ball's top speed.
    pub open spec fn blast_ball(self, x: int, y: int) -> GameView {
        let dx = self.ball.x - x;
        let dy = self.ball.y - y;
        if !self.ball.grabbed && norm2(dx, dy) < EXPLOSION_RADIUS * EXPLOSION_RADIUS {
            let f = blast(dx, dy);
            let v = cap_speed_spec(
                self.ball.vx + 2 * f.0,
                self.ball.vy + 2 * f.1,
                MAX_BALL_SPEED as int,
            );
            GameView { ball: Ball { vx: v.0 as i64, vy: v.1 as i64, ..self.ball }, ..self }
        } else {
            self
        }
    }

    /// The match after an explosion at `(x, y)` caused by `owner_id`.
    pub open spec fn exploded(self, x: i64, y: i64, owner_id: u32) -> GameView {
        let s = self.blast_players(x as int, y as int, self.players.len()).blast_ball(
            x as int,
            y as int,
        );
        GameView {
            events: s.events.push(
                GameEvent::Explosion { x, y, radius: EXPLOSION_RADIUS, player_id: owner_id },
            ),
            ..s
        }
    }

    /// The rocket overlaps a wall.
    pub open spec fn rocket_in_wall(self, p: Projectile) -> bool {
        exists|i: int|
            0 <= i < self.map.len() && (#[trigger] self.map[i]).is_wall() && boxes_overlap(
                p.x - PROJECTILE_RADIUS,
                p.y - PROJECTILE_RADIUS,
                2 * PROJECTILE_RADIUS,
                2 * PROJECTILE_RADIUS,
                self.map[i].x as int,
                self.map[i].y as int,
                self.map[i].width as int,
                self.map[i].height as int,
            )
    }

    /// The rocket touches the ship of the player at index `i`, who did not fire it.
    pub open spec fn rocket_at_ship(self, p: Projectile, i: int) -> bool {
        self.players[i].id != p.owner_id && norm2(
            self.players[i].ship.x - p.x,
            self.players[i].ship.y - p.y,
        ) < ROCKET_SHIP_REACH * ROCKET_SHIP_REACH
    }

    /// The rocket touches a ship other than the one that fired it.
    pub open spec fn rocket_at_ships(self, p: Projectile) -> bool {
        exists|i: int| 0 <= i < self.players.len() && #[trigger] self.rocket_at_ship(p, i)
    }

    /// The rocket touches the ball.
    pub open spec fn rocket_at_ball(self, p: Projectile) -> bool {
        norm2(self.ball.x - p.x, self.ball.y - p.y) < ROCKET_BALL_REACH * ROCKET_BALL_REACH
    }

    /// The rocket `p`, after its flight in this tick, ends in an explosion:
    /// it left the field, its lifetime is over, or it touches a wall, a
    /// ship other than its owner's, or the ball.
    pub open spec fn rocket_ends(self, p: Projectile) -> bool {
        ||| p.out_of_bounds(self.config)
        ||| p.lifetime == 0
        ||| self.rocket_in_wall(p)
        ||| self.rocket_at_ships(p)
        ||| self.rocket_at_ball(p)
    }

    /// The rocket `q` explodes in a tick of `dt` milliseconds.
    pub open spec fn doomed(self, q: Projectile, dt: int) -> bool {
        q.active && self.rocket_ends(q.flown(dt))
    }

    /// The match after the explosions of the first `k` rockets of `before`,
    /// the match before this phase, in the order in which they were fired.
    pub open spec fn explosions(self, before: GameView, dt: int, k: nat) -> GameView
        decreases k,
    {
        if k == 0 {
            self
        } else {
            let s = self.explosions(before, dt, (k - 1) as nat);
            let q = before.projectiles[k - 1];
            if before.doomed(q, dt) {
                s.exploded(q.flown(dt).x, q.flown(dt).y, q.owner_id)
            } else {
                s
            }
        }
    }

    /// The rockets among the first `k` that fly on after a tick of `dt` milliseconds.
    pub open spec fn survivors(self, dt: int, k: nat) -> Seq<Projectile>
        decreases k,
    {
        if k == 0 {
            Seq::empty()
        } else {
            let rest = self.survivors(dt, (k - 1) as nat);
            let q = self.projectiles[k - 1];
            if q.active && !self.rocket_ends(q.flown(dt)) {
                rest.push(q.flown(dt))
            } else {
                rest
            }
        }
    }

    /// The match after the rocket phase of a tick of `dt` milliseconds:
    /// every rocket has flown, those that ended have exploded, one after
    /// the other, and only the others are left.
    pub open spec fn rockets_flown(self, dt: int) -> GameView {
        let s = self.explosions(self, dt, self.projectiles.len());
        GameView { projectiles: self.survivors(dt, self.projectiles.len()), ..s }
    }
}

/// An explosion beyond the coordinate limit reaches nothing in a valid match.
pub proof fn lemma_far_explosion(game: GameView, x: int, y: int, k: nat)
    requires
        game.wf(),
        k <= game.players.len(),
        x < -COORD_LIMIT || x > COORD_LIMIT || y < -COORD_LIMIT || y > COORD_LIMIT,
    ensures
        game.blast_players(x, y, k) == game,
        game.blast_ball(x, y) == game,
    decreases k,
{
    lemma_out_of_reach(game.ball.x - x, game.ball.y - y);
    if k > 0 {
        lemma_far_explosion(game, x, y, (k - 1) as nat);
        let p = game.players[k - 1];
        assert(p.wf(game.config));
        lemma_out_of_reach(p.ship.x - x, p.ship.y - y);
    }
}

/// Something further than the radius along one axis is out of an explosion's reach.
pub proof fn lemma_out_of_reach(dx: int, dy: int)
    requires
        dx <= -EXPLOSION_RADIUS || dx >= EXPLOSION_RADIUS || dy <= -EXPLOSION_RADIUS || dy
            >= EXPLOSION_RADIUS,
    ensures
        norm2(dx, dy) >= EXPLOSION_RADIUS * EXPLOSION_RADIUS,
{
    assert(dx * dx + dy * dy >= 100_000 * 100_000) by (nonlinear_arith)
        requires
            dx <= -100_000 || dx >= 100_000 || dy <= -100_000 || dy >= 100_000,
    ;
}

/// Computes the change of velocity that an explosion gives to something at
/// offset `(dx, dy)` from its centre.
pub fn blast_force(dx: i64, dy: i64) -> (r: (i64, i64))
    requires
        -VEC_LIMIT <= dx <= VEC_LIMIT,
        -VEC_LIMIT <= dy <= VEC_LIMIT,
    ensures
        (r.0 as int, r.1 as int) == blast(dx as int, dy as int),
        -EXPLOSION_FORCE <= r.0 <= EXPLOSION_FORCE,
        -EXPLOSION_FORCE <= r.1 <= EXPLOSION_FORCE,
{
    if norm2_of(dx, dy) < (EXPLOSION_RADIUS * EXPLOSION_RADIUS) as u64 {
        let dir = if dx == 0 && dy == 0 {
            (UNIT, 0)
        } else {
            scale_to(dx, dy, UNIT)
        };
        let dist = length(dx, dy);
        proof {
            let c = dist as int;
            if c > EXPLOSION_RADIUS {
                lemma_square_monotone(EXPLOSION_RADIUS as int, c - 1);
            }
        }
        let reach = EXPLOSION_RADIUS - dist;
        (
            mul_div(mul_div(dir.0, EXPLOSION_FORCE, 1000), reach, EXPLOSION_RADIUS),
            mul_div(mul_div(dir.1, EXPLOSION_FORCE, 1000), reach, EXPLOSION_RADIUS),
        )
    } else {
        (0, 0)
    }
}

impl Game {
    /// Gives the player at index `i` the chance to fire.
    fn fire(&mut self, i: usize)
        requires
            old(self).wf(),
            i < old(self).players@.len(),
        ensures
            final(self)@ == old(self)@.fired(i as int),
            final(self).wf(),
            final(self).players@.len() == old(self).players@.len(),
    {
        assert(self.players@[i as int].wf(self.config));
        if !(self.config.rockets && self.players[i].input.boost && self.players[i].rocket_cooldown
            == 0) {
            return ;
        }
        if let Some(dir) = self.players[i].aim_of_rocket() {
            let id = self.players[i].id;
            let x = self.players[i].ship.x + mul_div(dir.0, PROJECTILE_OFFSET, 1000);
            let y = self.players[i].ship.y + mul_div(dir.1, PROJECTILE_OFFSET, 1000);
            let vx = mul_div(dir.0, PROJECTILE_SPEED, 1000) + self.players[i].velocity.0 / 2;
            let vy = mul_div(dir.1, PROJECTILE_SPEED, 1000) + self.players[i].velocity.1 / 2;
            let rocket = Projectile::new(self.next_projectile_id, x, y, vx, vy, id);
            let ghost rockets_before = self.projectiles@;
            self.projectiles.push(rocket);
            self.next_projectile_id = if self.next_projectile_id == u32::MAX {
                1
            } else {
                self.next_projectile_id + 1
            };
            let p = &mut self.players[i];
            p.rocket_cooldown = ROCKET_COOLDOWN_MS;
            p.input.boost = false;
            p.velocity.0 = add_clamped(
                p.velocity.0,
                -mul_div(dir.0, ROCKET_RECOIL, 1000),
                SPEED_LIMIT,
            );
            p.velocity.1 = add_clamped(
                p.velocity.1,
                -mul_div(dir.1, ROCKET_RECOIL, 1000),
                SPEED_LIMIT,
            );
            self.events.push(GameEvent::ProjectileFired { player_id: id });
            proof {
                let after = self.players@;
                let before = old(self).players@;
                assert(after =~= before.update(i as int, before[i as int].after_firing()));
                lemma_players_stay_valid(before, after, self.config, self.next_id);
                assert forall|a: int| 0 <= a < self.projectiles@.len() implies (
                #[trigger] self.projectiles@[a]).wf(self.config) by {
                    if a < rockets_before.len() {
                        assert(rockets_before[a].wf(self.config));
                    }
                }
            }
        }
    }

    /// Fires a rocket for every ship whose trigger is pulled and whose
    /// cooldown is over, in the order in which the players joined.
    pub fn fire_rockets(&mut self)
        requires
            old(self).wf(),
        ensures
            final(self)@ == old(self)@.rockets_fired(old(self).players@.len()),
            final(self).wf(),
    {
        let n = self.players.len();
        let mut i: usize = 0;
        while i < n
            invariant
                i <= n,
                n == self.players@.len(),
                self.wf(),
                self@ == old(self)@.rockets_fired(i as nat),
            decreases n - i,
        {
            self.fire(i);
            i += 1;
        }
    }

    /// Lets an explosion at `(x, y)` reach the player at index `i`.
    fn blast_one(&mut self, i: usize, x: i64, y: i64)
        requires
            old(self).wf(),
            i < old(self).players@.len(),
            -COORD_LIMIT <= x <= COORD_LIMIT,
            -COORD_LIMIT <= y <= COORD_LIMIT,
        ensures
            final(self)@ == old(self)@.blast_player(i as int, x as int, y as int),
            final(self).wf(),
            final(self).players@.len() == old(self).players@.len(),
            final(self).events@.len() >= old(self).events@.len(),
    {
        assert(self.players@[i as int].wf(self.config));
        let id = self.players[i].id;
        let ship = self.players[i].ship;
        let dx = ship.x - x;
        let dy = ship.y - y;
        if norm2_of(dx, dy) < (EXPLOSION_RADIUS * EXPLOSION_RADIUS) as u64 {
            let f = blast_force(dx, dy);
            let held = self.ball.grabbed && self.ball.owner == Some(id);
            let p = &mut self.players[i];
            p.velocity.0 = add_clamped(p.velocity.0, f.0, SPEED_LIMIT);
            p.velocity.1 = add_clamped(p.velocity.1, f.1, SPEED_LIMIT);
            if held {
                p.grab_cooldown = BLAST_GRAB_COOLDOWN_MS;
                let v = cap_speed((f.0 * 3) / 2, (f.1 * 3) / 2, MAX_BALL_SPEED);
                self.ball.grabbed = false;
                self.ball.owner = None;
                self.ball.x = ship.x;
                self.ball.y = ship.y;
                self.ball.vx = v.0;
                self.ball.vy = v.1;
                self.events.push(GameEvent::BallKnocked { player_id: id });
            }
            proof {
                let after = self.players@;
                let before = old(self).players@;
                assert(after =~= old(self)@.blast_player(i as int, x as int, y as int).players);
                lemma_players_stay_valid(before, after, self.config, self.next_id);
            }
        }
    }

    /// Lets an explosion at `(x, y)` reach the ball.
    fn blast_the_ball(&mut self, x: i64, y: i64)
        requires
            old(self).wf(),
            -COORD_LIMIT <= x <= COORD_LIMIT,
            -COORD_LIMIT <= y <= COORD_LIMIT,
        ensures
            final(self)@ == old(self)@.blast_ball(x as int, y as int),
            final(self).wf(),
    {
        let dx = self.ball.x - x;
        let dy = self.ball.y - y;
        if !self.ball.grabbed && norm2_of(dx, dy) < (EXPLOSION_RADIUS * EXPLOSION_RADIUS) as u64 {
            let f = blast_force(dx, dy);
            proof {
                lemma_speed_components(self.ball.vx as int, self.ball.vy as int);
            }
            let v = cap_speed(self.ball.vx + 2 * f.0, self.ball.vy + 2 * f.1, MAX_BALL_SPEED);
            self.ball.vx = v.0;
            self.ball.vy = v.1;
        }
    }

    /// Sets off an explosion at `(x, y)`, wherever that is: ships and a
    /// free ball within the radius are thrown back, a holder among them
    /// loses the ball, and the explosion is reported at that point.
    pub fn create_explosion(&mut self, x: i64, y: i64, owner_id: u32)
        requires
            old(self).wf(),
        ensures
            final(self)@ == old(self)@.exploded(x, y, owner_id),
            final(self).wf(),
            final(self).projectiles@ == old(self).projectiles@,
            final(self).config == old(self).config,
            final(self).events@.len() > old(self).events@.len(),
            final(self).events@.last() == (GameEvent::Explosion {
                x,
                y,
                radius: EXPLOSION_RADIUS,
                player_id: owner_id,
            }),
    {
        if x < -COORD_LIMIT || x > COORD_LIMIT || y < -COORD_LIMIT || y > COORD_LIMIT {
            proof {
                lemma_far_explosion(self@, x as int, y as int, self.players@.len());
            }
            self.events.push(
                GameEvent::Explosion { x, y, radius: EXPLOSION_RADIUS, player_id: owner_id },
            );
            return ;
        }
        let n = self.players.len();
        let mut i: usize = 0;
        while i < n
            invariant
                i <= n,
                n == self.players@.len(),
                self.wf(),
                -COORD_LIMIT <= x <= COORD_LIMIT,
                -COORD_LIMIT <= y <= COORD_LIMIT,
                self@ == old(self)@.blast_players(x as int, y as int, i as nat),
                self.projectiles@ == old(self).projectiles@,
                self.config == old(self).config,
                self.events@.len() >= old(self).events@.len(),
            decreases n - i,
        {
            self.blast_one(i, x, y);
            i += 1;
        }
        self.blast_the_ball(x, y);
        self.events.push(
            GameEvent::Explosion { x, y, radius: EXPLOSION_RADIUS, player_id: owner_id },
        );
    }

    /// Tells whether a rocket, after its flight in this tick, ends in an explosion.
    pub fn rocket_is_over(&self, p: &Projectile) -> (r: bool)
        requires
            self.wf(),
            -COORD_LIMIT <= p.x <= COORD_LIMIT,
            -COORD_LIMIT <= p.y <= COORD_LIMIT,
        ensures
            r == self@.rocket_ends(*p),
    {
        if p.x < 0 || p.x > self.config.field_width || p.y < 0 || p.y > self.config.field_height
            || p.lifetime == 0 {
            return true;
        }
        let n = self.map.len();
        let mut i: usize = 0;
        while i < n
            invariant
                i <= n,
                n == self.map@.len(),
                self.wf(),
                -COORD_LIMIT <= p.x <= COORD_LIMIT,
                -COORD_LIMIT <= p.y <= COORD_LIMIT,
                forall|j: int|
                    0 <= j < i ==> !((#[trigger] self.map@[j]).is_wall() && boxes_overlap(
                        p.x - PROJECTILE_RADIUS,
                        p.y - PROJECTILE_RADIUS,
                        2 * PROJECTILE_RADIUS,
                        2 * PROJECTILE_RADIUS,
                        self.map@[j].x as int,
                        self.map@[j].y as int,
                        self.map@[j].width as int,
                        self.map@[j].height as int,
                    )),
            decreases n - i,
        {
            let wall = &self.map[i];
            if wall.wall() && aabb_collision(
                p.x - PROJECTILE_RADIUS,
                p.y - PROJECTILE_RADIUS,
                2 * PROJECTILE_RADIUS,
                2 * PROJECTILE_RADIUS,
                wall.x,
                wall.y,
                wall.width,
                wall.height,
            ) {
                return true;
            }
            i += 1;
        }
        let m = self.players.len();
        let mut k: usize = 0;
        while k < m
            invariant
                k <= m,
                m == self.players@.len(),
                self.wf(),
                -COORD_LIMIT <= p.x <= COORD_LIMIT,
                -COORD_LIMIT <= p.y <= COORD_LIMIT,
                !self@.rocket_in_wall(*p),
                forall|j: int| 0 <= j < k ==> !#[trigger] self@.rocket_at_ship(*p, j),
            decreases m - k,
        {
            assert(self.players@[k as int].wf(self.config));
            let q = &self.players[k];
            if q.id != p.owner_id && norm2_of(q.ship.x - p.x, q.ship.y - p.y) < (ROCKET_SHIP_REACH
                * ROCKET_SHIP_REACH) as u64 {
                assert(self@.rocket_at_ship(*p, k as int));
                return true;
            }
            k += 1;
        }
        norm2_of(self.ball.x - p.x, self.ball.y - p.y) < (ROCKET_BALL_REACH * ROCKET_BALL_REACH) as u64
    }

    /// Flies every rocket for `dt` milliseconds, sets off the explosions of
    /// those that ended, and keeps the others.
    #[verifier::rlimit(40)]
    pub fn step_projectiles(&mut self, dt: u32)
        requires
            old(self).wf(),
            dt <= MAX_TICK_MS,
        ensures
            final(self)@ == old(self)@.rockets_flown(dt as int),
            final(self).wf(),
    {
        let n = self.projectiles.len();
        let mut flown: Vec<Projectile> = Vec::new();
        let mut doomed: Vec<bool> = Vec::new();
        let mut kept: Vec<Projectile> = Vec::new();
        let mut i: usize = 0;
        while i < n
            invariant
                i <= n,
                n == self.projectiles@.len(),
                self.wf(),
                *self == *old(self),
                dt <= MAX_TICK_MS,
                flown@.len() == i,
                doomed@.len() == i,
                forall|j: int| 0 <= j < i ==> #[trigger] flown@[j] == self.projectiles@[j].flown(dt as int),
                forall|j: int|
                    0 <= j < i ==> {
                        &&& -COORD_LIMIT <= (#[trigger] flown@[j]).x <= COORD_LIMIT
                        &&& -COORD_LIMIT <= flown@[j].y <= COORD_LIMIT
                    },
                forall|j: int|
                    0 <= j < i ==> #[trigger] doomed@[j] == self@.doomed(self.projectiles@[j], dt as int),
                kept@ == self@.survivors(dt as int, i as nat),
                projectiles_wf(kept@, self.config),
            decreases n - i,
        {
            assert(self.projectiles@[i as int].wf(self.config));
            let q = self.projectiles[i];
            let mut f = q;
            f.update_position(dt);
            let over = q.active && self.rocket_is_over(&f);
            flown.push(f);
            doomed.push(over);
            if q.active && !over {
                kept.push(f);
            }
            i += 1;
        }
        let mut k: usize = 0;
        while k < n
            invariant
                k <= n,
                n == old(self).projectiles@.len(),
                flown@.len() == n,
                doomed@.len() == n,
                self.wf(),
                dt <= MAX_TICK_MS,
                self.projectiles@ == old(self).projectiles@,
                forall|j: int|
                    0 <= j < n ==> #[trigger] flown@[j] == old(self).projectiles@[j].flown(dt as int),
                forall|j: int|
                    0 <= j < n ==> {
                        &&& -COORD_LIMIT <= (#[trigger] flown@[j]).x <= COORD_LIMIT
                        &&& -COORD_LIMIT <= flown@[j].y <= COORD_LIMIT
                    },
                forall|j: int|
                    0 <= j < n ==> #[trigger] doomed@[j] == old(self)@.doomed(
                        old(self).projectiles@[j],
                        dt as int,
                    ),
                self@ == old(self)@.explosions(old(self)@, dt as int, k as nat),
                self.config == old(self).config,
                kept@ == old(self)@.survivors(dt as int, n as nat),
                projectiles_wf(kept@, self.config),
            decreases n - k,
        {
            if doomed[k] {
                let f = flown[k];
                self.create_explosion(f.x, f.y, f.owner_id);
            }
            k += 1;
        }
        self.projectiles = kept;
    }
}

} // verus!
