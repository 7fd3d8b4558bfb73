//! The ship phases of a tick: cooldowns, steering and the walls.

use crate::ball::{Ball, SHOT_CLOCK_MS};
use crate::collision::{resolve_ship_collision, ship_stopped};
use crate::fixed::{cap_speed, cap_speed_spec, clamp, clamp_spec, decay, decay_spec, lemma_square_monotone, mul_div, norm2, scale_to, scale_to_spec, scaled, COORD_LIMIT, MAX_TICK_MS, SPEED_LIMIT, UNIT};
use crate::game::{lemma_ids_kept, lemma_players_stay_valid, players_wf, Game, GameView};
use crate::geometry::{map_wf, GameConfig, MapObject, SHIP_HEIGHT, SHIP_WIDTH};
use crate::player::{Player, Ship};
use vstd::prelude::*;

verus! {

/// Acceleration of a ship under thrust.
pub const SHIP_ACCELERATION: i64 = 200_000;

/// Top speed of a ship.
pub const SHIP_MAX_SPEED: i64 = 100_000;

/// Acceleration of the ship that carries the ball.
pub const CARRIER_ACCELERATION: i64 = 160_000;

/// Top speed of the ship that carries the ball.
pub const CARRIER_MAX_SPEED: i64 = 80_000;

/// Share of its speed, in thousandths, that a ship keeps over one tick.
pub const SHIP_FRICTION: i64 = 800;

/// Fuel shown per millisecond left on the shot clock.
pub const FUEL_PER_CLOCK_MS: u32 = 20;

/// The first `k` players after `f`, the others as they were.
pub open spec fn stepped(players: Seq<Player>, k: int, f: spec_fn(Player) -> Player) -> Seq<Player> {
    Seq::new(
        players.len(),
        |j: int|
            if j < k {
                f(players[j])
            } else {
                players[j]
            },
    )
}

/// A ship and its velocity after meeting the walls among the first `k`
/// rectangles of the map, one after the other.
pub open spec fn walled(ship: Ship, velocity: (i64, i64), map: Seq<MapObject>, k: nat) -> (
    Ship,
    (i64, i64),
)
    decreases k,
{
    if k == 0 {
        (ship, velocity)
    } else {
        let before = walled(ship, velocity, map, (k - 1) as nat);
        if map[k - 1].is_wall() {
            ship_stopped(before.0, before.1, map[k - 1])
        } else {
            before
        }
    }
}

impl Ball {
    /// The ball after `dt` milliseconds of waiting: its cooldowns have run
    /// down and so has the shot clock of a held ball.
    pub open spec fn cooled(self, dt: int) -> Ball {
        Ball {
            grab_cooldown: decay_spec(self.grab_cooldown as int, dt) as u32,
            pickup_cooldown: decay_spec(self.pickup_cooldown as int, dt) as u32,
            shot_clock: (if self.grabbed {
                decay_spec(self.shot_clock as int, dt)
            } else {
                self.shot_clock as int
            }) as u32,
            ..self
        }
    }

    /// The ball is held by `player_id`.
    pub open spec fn held_by(self, player_id: u32) -> bool {
        self.grabbed && self.owner == Some(player_id)
    }
}

impl Player {
    /// The player after `dt` milliseconds of waiting: the cooldowns have
    /// run down, and the holder of `ball` is shown what is left of the shot clock.
    pub open spec fn cooled(self, dt: int, ball: Ball) -> Player {
        Player {
            shoot_cooldown: decay_spec(self.shoot_cooldown as int, dt) as u32,
            grab_cooldown: decay_spec(self.grab_cooldown as int, dt) as u32,
            rocket_cooldown: decay_spec(self.rocket_cooldown as int, dt) as u32,
            fuel: (if ball.held_by(self.id) && ball.shot_clock <= SHOT_CLOCK_MS {
                ball.shot_clock * FUEL_PER_CLOCK_MS
            } else {
                self.fuel as int
            }) as u32,
            ..self
        }
    }

    /// The direction steered in, as a vector of length `UNIT` at most.
    pub open spec fn steering(self) -> (int, int) {
        let dx = (if self.input.right {
            UNIT as int
        } else {
            0
        }) - (if self.input.left {
            UNIT as int
        } else {
            0
        });
        let dy = (if self.input.down {
            UNIT as int
        } else {
            0
        }) - (if self.input.up {
            UNIT as int
        } else {
            0
        });
        scale_to_spec(dx, dy, UNIT as int)
    }

    /// The player after `dt` milliseconds of flight: the ship accelerates
    /// in the direction steered, is slowed by friction, keeps under its top
    /// speed and stays in the field. The ship that carries the ball is slower.
    pub open spec fn driven(self, carrier: bool, dt: int, config: GameConfig) -> Player {
        let acceleration = if carrier {
            CARRIER_ACCELERATION
        } else {
            SHIP_ACCELERATION
        };
        let top = if carrier {
            CARRIER_MAX_SPEED
        } else {
            SHIP_MAX_SPEED
        };
        let dir = self.steering();
        let pushed = (
            self.velocity.0 + scaled(scaled(dir.0, acceleration as int, 1000), dt, 1000),
            self.velocity.1 + scaled(scaled(dir.1, acceleration as int, 1000), dt, 1000),
        );
        let v = cap_speed_spec(
            scaled(pushed.0, SHIP_FRICTION as int, 1000),
            scaled(pushed.1, SHIP_FRICTION as int, 1000),
            top as int,
        );
        Player {
            ship: Ship {
                x: clamp_spec(self.ship.x + scaled(v.0, dt, 1000), 0, config.field_width as int) as i64,
                y: clamp_spec(
                    self.ship.y + scaled(v.1, dt, 1000),
                    0,
                    config.field_height as int,
                ) as i64,
            },
            velocity: (v.0 as i64, v.1 as i64),
            ..self
        }
    }

    /// The player after the ship met every wall of the map: pushed out of
    /// each in turn, stopped along the axis of the push, and kept in the field.
    pub open spec fn kept_out_of_walls(self, map: Seq<MapObject>, config: GameConfig) -> Player {
        let r = walled(self.ship, self.velocity, map, map.len());
        Player {
            ship: Ship {
                x: clamp_spec(r.0.x as int, 0, config.field_width as int) as i64,
                y: clamp_spec(r.0.y as int, 0, config.field_height as int) as i64,
            },
            velocity: r.1,
            ..self
        }
    }

    /// Runs the player's cooldowns down by `dt` milliseconds.
    pub fn cool(&mut self, dt: u32, ball: &Ball)
        ensures
            *final(self) == old(self).cooled(dt as int, *ball),
            forall|config: GameConfig| old(self).wf(config) ==> final(self).wf(config),
    {
        self.shoot_cooldown = decay(self.shoot_cooldown, dt);
        self.grab_cooldown = decay(self.grab_cooldown, dt);
        self.rocket_cooldown = decay(self.rocket_cooldown, dt);
        if ball.grabbed && ball.owner == Some(self.id) && ball.shot_clock <= SHOT_CLOCK_MS {
            self.fuel = ball.shot_clock * FUEL_PER_CLOCK_MS;
        }
    }

    /// Flies the ship for `dt` milliseconds.
    pub fn drive(&mut self, carrier: bool, dt: u32, config: &GameConfig)
        requires
            old(self).wf(*config),
            config.wf(),
            dt <= MAX_TICK_MS,
        ensures
            *final(self) == old(self).driven(carrier, dt as int, *config),
            final(self).wf(*config),
            norm2_within(final(self).velocity, SHIP_MAX_SPEED),
    {
        let acceleration = if carrier {
            CARRIER_ACCELERATION
        } else {
            SHIP_ACCELERATION
        };
        let top = if carrier {
            CARRIER_MAX_SPEED
        } else {
            SHIP_MAX_SPEED
        };
        let dx: i64 = (if self.input.right {
            UNIT
        } else {
            0
        }) - (if self.input.left {
            UNIT
        } else {
            0
        });
        let dy: i64 = (if self.input.down {
            UNIT
        } else {
            0
        }) - (if self.input.up {
            UNIT
        } else {
            0
        });
        let dir = scale_to(dx, dy, UNIT);
        let ax = mul_div(dir.0, acceleration, 1000);
        let ay = mul_div(dir.1, acceleration, 1000);
        let px = self.velocity.0 + mul_div(ax, dt as i64, 1000);
        let py = self.velocity.1 + mul_div(ay, dt as i64, 1000);
        let v = cap_speed(mul_div(px, SHIP_FRICTION, 1000), mul_div(py, SHIP_FRICTION, 1000), top);
        self.ship.x = clamp(self.ship.x + mul_div(v.0, dt as i64, 1000), 0, config.field_width);
        self.ship.y = clamp(self.ship.y + mul_div(v.1, dt as i64, 1000), 0, config.field_height);
        self.velocity = v;
        proof {
            lemma_square_monotone(top as int, SHIP_MAX_SPEED as int);
        }
    }

    /// Pushes the ship out of every wall of the map and keeps it in the field.
    pub fn keep_out_of_walls(&mut self, map: &Vec<MapObject>, config: &GameConfig)
        requires
            old(self).wf(*config),
            config.wf(),
            map_wf(map@),
        ensures
            *final(self) == old(self).kept_out_of_walls(map@, *config),
            final(self).wf(*config),
    {
        let n = map.len();
        let mut ship = self.ship;
        let mut velocity = self.velocity;
        let mut i: usize = 0;
        while i < n
            invariant
                i <= n,
                n == map@.len(),
                map_wf(map@),
                (ship, velocity) == walled(old(self).ship, old(self).velocity, map@, i as nat),
                -COORD_LIMIT - SHIP_WIDTH / 2 <= ship.x <= COORD_LIMIT + SHIP_WIDTH / 2,
                -COORD_LIMIT - SHIP_HEIGHT / 2 <= ship.y <= COORD_LIMIT + SHIP_HEIGHT / 2,
                -SPEED_LIMIT <= velocity.0 <= SPEED_LIMIT,
                -SPEED_LIMIT <= velocity.1 <= SPEED_LIMIT,
            decreases n - i,
        {
            let wall = &map[i];
            assert(map@[i as int].wf());
            if wall.wall() {
                resolve_ship_collision(&mut ship, &mut velocity, wall);
            }
            i += 1;
        }
        self.ship.x = clamp(ship.x, 0, config.field_width);
        self.ship.y = clamp(ship.y, 0, config.field_height);
        self.velocity = velocity;
    }
}

/// The squared length of `v` is at most `max` squared.
pub open spec fn norm2_within(v: (i64, i64), max: i64) -> bool {
    norm2(v.0 as int, v.1 as int) <= max * max
}

impl GameView {
    /// The match after `dt` milliseconds of waiting: every cooldown has run
    /// down, stopping at zero.
    pub open spec fn cooled(self, dt: int) -> GameView {
        let ball = self.ball.cooled(dt);
        GameView {
            goal_cooldown: decay_spec(self.goal_cooldown as int, dt) as u32,
            ball,
            players: self.players.map_values(|p: Player| p.cooled(dt, ball)),
            ..self
        }
    }

    /// The match after every ship flew for `dt` milliseconds.
    pub open spec fn ships_moved(self, dt: int) -> GameView {
        let ball = self.ball;
        let config = self.config;
        GameView {
            players: self.players.map_values(
                |p: Player| p.driven(ball.held_by(p.id), dt, config),
            ),
            ..self
        }
    }

    /// The match after every ship was pushed out of the walls.
    pub open spec fn ships_walled(self) -> GameView {
        let map = self.map;
        let config = self.config;
        GameView {
            players: self.players.map_values(|p: Player| p.kept_out_of_walls(map, config)),
            ..self
        }
    }
}

fn cool_players(players: &mut Vec<Player>, dt: u32, ball: &Ball)
    ensures
        final(players)@ == old(players)@.map_values(|p: Player| p.cooled(dt as int, *ball)),
{
    let n = players.len();
    let ghost f = |p: Player| p.cooled(dt as int, *ball);
    let mut i: usize = 0;
    while i < n
        invariant
            i <= n,
            n == players@.len(),
            n == old(players)@.len(),
            f == |p: Player| p.cooled(dt as int, *ball),
            players@ == stepped(old(players)@, i as int, f),
        decreases n - i,
    {
        let ghost before = players@;
        players[i].cool(dt, ball);
        assert(players@ =~= stepped(old(players)@, i + 1, f));
        i += 1;
    }
    assert(players@ =~= old(players)@.map_values(f));
}

fn drive_players(players: &mut Vec<Player>, dt: u32, ball: &Ball, config: &GameConfig)
    requires
        players_wf(old(players)@, *config),
        config.wf(),
        dt <= MAX_TICK_MS,
    ensures
        final(players)@ == old(players)@.map_values(
            |p: Player| p.driven(ball.held_by(p.id), dt as int, *config),
        ),
        players_wf(final(players)@, *config),
{
    let n = players.len();
    let ghost f = |p: Player| p.driven(ball.held_by(p.id), dt as int, *config);
    let mut i: usize = 0;
    while i < n
        invariant
            i <= n,
            n == players@.len(),
            n == old(players)@.len(),
            config.wf(),
            dt <= MAX_TICK_MS,
            f == |p: Player| p.driven(ball.held_by(p.id), dt as int, *config),
            players@ == stepped(old(players)@, i as int, f),
            players_wf(old(players)@, *config),
            forall|j: int| 0 <= j < i ==> (#[trigger] players@[j]).wf(*config),
        decreases n - i,
    {
        assert(old(players)@[i as int].wf(*config));
        let carrier = ball.grabbed && ball.owner == Some(players[i].id);
        players[i].drive(carrier, dt, config);
        assert(players@ =~= stepped(old(players)@, i + 1, f));
        i += 1;
    }
    assert(players@ =~= old(players)@.map_values(f));
}

fn wall_players(players: &mut Vec<Player>, map: &Vec<MapObject>, config: &GameConfig)
    requires
        players_wf(old(players)@, *config),
        config.wf(),
        map_wf(map@),
    ensures
        final(players)@ == old(players)@.map_values(
            |p: Player| p.kept_out_of_walls(map@, *config),
        ),
        players_wf(final(players)@, *config),
{
    let n = players.len();
    let ghost f = |p: Player| p.kept_out_of_walls(map@, *config);
    let mut i: usize = 0;
    while i < n
        invariant
            i <= n,
            n == players@.len(),
            n == old(players)@.len(),
            config.wf(),
            map_wf(map@),
            f == |p: Player| p.kept_out_of_walls(map@, *config),
            players@ == stepped(old(players)@, i as int, f),
            players_wf(old(players)@, *config),
            forall|j: int| 0 <= j < i ==> (#[trigger] players@[j]).wf(*config),
        decreases n - i,
    {
        assert(old(players)@[i as int].wf(*config));
        players[i].keep_out_of_walls(map, config);
        assert(players@ =~= stepped(old(players)@, i + 1, f));
        i += 1;
    }
    assert(players@ =~= old(players)@.map_values(f));
}

impl Game {
    /// Runs every cooldown down by `dt` milliseconds.
    pub fn decay_cooldowns(&mut self, dt: u32)
        requires
            old(self).wf(),
        ensures
            final(self)@ == old(self)@.cooled(dt as int),
            final(self).wf(),
    {
        self.goal_cooldown = decay(self.goal_cooldown, dt);
        self.ball.grab_cooldown = decay(self.ball.grab_cooldown, dt);
        self.ball.pickup_cooldown = decay(self.ball.pickup_cooldown, dt);
        if self.ball.grabbed {
            self.ball.shot_clock = decay(self.ball.shot_clock, dt);
        }
        let ball = self.ball;
        cool_players(&mut self.players, dt, &ball);
        proof {
            let after = self.players@;
            let before = old(self).players@;
            lemma_players_stay_valid(before, after, self.config, self.next_id);
        }
    }

    /// Flies every ship for `dt` milliseconds.
    pub fn move_ships(&mut self, dt: u32)
        requires
            old(self).wf(),
            dt <= MAX_TICK_MS,
        ensures
            final(self)@ == old(self)@.ships_moved(dt as int),
            final(self).wf(),
    {
        let ball = self.ball;
        let config = self.config;
        drive_players(&mut self.players, dt, &ball, &config);
        proof {
            let after = self.players@;
            let before = old(self).players@;
            lemma_ids_kept(before, after, self.next_id);
        }
    }

    /// Pushes every ship out of the walls.
    pub fn resolve_ship_walls(&mut self)
        requires
            old(self).wf(),
        ensures
            final(self)@ == old(self)@.ships_walled(),
            final(self).wf(),
    {
        let config = self.config;
        wall_players(&mut self.players, &self.map, &config);
        proof {
            let after = self.players@;
            let before = old(self).players@;
            lemma_ids_kept(before, after, self.next_id);
        }
    }
}

} // verus!
