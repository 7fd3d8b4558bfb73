//! One tick of the simulation, and what every client is told after it.

use crate::fixed::MAX_TICK_MS;
use crate::game::{Game, GameStateSnapshot, GameView};
use crate::player::ShipState;
use crate::projectile::Projectile;
use vstd::prelude::*;

verus! {

/// The length of a tick as it is simulated: no longer than `MAX_TICK_MS`.
pub open spec fn tick_length(fixed_dt: u32) -> int {
    if fixed_dt > MAX_TICK_MS {
        MAX_TICK_MS as int
    } else {
        fixed_dt as int
    }
}

impl GameView {
    /// The match after one tick of `dt` milliseconds. The phases follow
    /// each other in a fixed order: cooldowns, the shot clock, steering,
    /// rockets fired, walls, the holder's shot, ships against ships, the
    /// held ball carried along, the flight of the ball with pick-up, walls
    /// and goals, and the flight of the rockets with their explosions.
    pub open spec fn ticked(self, dt: int) -> GameView {
        let cooled = self.cooled(dt);
        let released = cooled.auto_released(dt);
        let moved = released.ships_moved(dt);
        let fired = moved.rockets_fired(moved.players.len());
        let walled = fired.ships_walled();
        let shot = walled.shooting_processed(dt);
        let collided = shot.ships_collided();
        let carried = collided.ball_carried();
        let flown = carried.ball_flown(dt);
        flown.rockets_flown(dt)
    }
}

impl Game {
    /// Advances the match by one tick of `fixed_dt` milliseconds; a longer
    /// tick than `MAX_TICK_MS` is simulated as one of that length. The
    /// events of the tick are appended to `events`.
    pub fn update(&mut self, fixed_dt: u32)
        requires
            old(self).wf(),
        ensures
            final(self)@ == old(self)@.ticked(tick_length(fixed_dt)),
            final(self).wf(),
            final(self).ball.in_field(final(self).config),
            final(self).ball.possession_ok(),
            final(self).ball.speed_ok(),
    {
        let dt = if fixed_dt > MAX_TICK_MS {
            MAX_TICK_MS
        } else {
            fixed_dt
        };
        self.decay_cooldowns(dt);
        self.auto_release(dt);
        self.move_ships(dt);
        self.fire_rockets();
        self.resolve_ship_walls();
        self.process_shooting(dt);
        self.resolve_ship_ships();
        self.carry_ball();
        self.fly_ball(dt);
        self.step_projectiles(dt);
    }

    /// What every client is told after a tick that ended at `time`.
    pub fn snapshot_at(&self, time: u64) -> (r: GameStateSnapshot)
        ensures
            r.time == time,
            r.ball == self.ball,
            r.projectiles@ == self.projectiles@,
            r.team1_score == self.team1_score,
            r.team2_score == self.team2_score,
            r.team3_score == self.team3_score,
            r.team4_score == self.team4_score,
            r.players@.len() == self.players@.len(),
            forall|i: int|
                0 <= i < self.players@.len() ==> {
                    let p = self.players@[i];
                    let s = #[trigger] r.players@[i];
                    &&& s.0 == p.id
                    &&& s.1.x == p.ship.x
                    &&& s.1.y == p.ship.y
                    &&& s.1.seq == p.last_seq
                    &&& s.1.fuel == p.fuel
                    &&& s.1.team == p.team
                    &&& s.1.display_name == p.display_name
                    &&& s.1.rocket_cooldown == p.rocket_cooldown
                },
    {
        let n = self.players.len();
        let mut players: Vec<(u32, ShipState)> = Vec::new();
        let mut i: usize = 0;
        while i < n
            invariant
                i <= n,
                n == self.players@.len(),
                players@.len() == i,
                forall|j: int|
                    0 <= j < i ==> {
                        let p = self.players@[j];
                        let s = #[trigger] players@[j];
                        &&& s.0 == p.id
                        &&& s.1.x == p.ship.x
                        &&& s.1.y == p.ship.y
                        &&& s.1.seq == p.last_seq
                        &&& s.1.fuel == p.fuel
                        &&& s.1.team == p.team
                        &&& s.1.display_name == p.display_name
                        &&& s.1.rocket_cooldown == p.rocket_cooldown
                    },
            decreases n - i,
        {
            let state = self.players[i].ship_state();
            players.push((self.players[i].id, state));
            i += 1;
        }
        let m = self.projectiles.len();
        let mut projectiles: Vec<Projectile> = Vec::new();
        let mut k: usize = 0;
        while k < m
            invariant
                k <= m,
                m == self.projectiles@.len(),
                projectiles@ == self.projectiles@.take(k as int),
            decreases m - k,
        {
            projectiles.push(self.projectiles[k]);
            k += 1;
            assert(projectiles@ =~= self.projectiles@.take(k as int));
        }
        assert(projectiles@ =~= self.projectiles@);
        GameStateSnapshot {
            time,
            players,
            ball: self.ball,
            projectiles,
            team1_score: self.team1_score,
            team2_score: self.team2_score,
            team3_score: self.team3_score,
            team4_score: self.team4_score,
        }
    }

    /// What every client is told after a tick, stamped with the present
    /// time; a time before the epoch is given as zero.
    pub fn create_snapshot(&self) -> (r: GameStateSnapshot)
        ensures
            r.ball == self.ball,
            r.projectiles@ == self.projectiles@,
            r.team1_score == self.team1_score,
            r.team2_score == self.team2_score,
            r.team3_score == self.team3_score,
            r.team4_score == self.team4_score,
            r.players@.len() == self.players@.len(),
            forall|i: int|
                0 <= i < self.players@.len() ==> {
                    let p = self.players@[i];
                    let s = #[trigger] r.players@[i];
                    &&& s.0 == p.id
                    &&& s.1.x == p.ship.x
                    &&& s.1.y == p.ship.y
                    &&& s.1.seq == p.last_seq
                    &&& s.1.fuel == p.fuel
                    &&& s.1.team == p.team
                    &&& s.1.display_name == p.display_name
                    &&& s.1.rocket_cooldown == p.rocket_cooldown
                },
    {
        let now = now_millis();
        let time: u64 = if now < 0 {
            0
        } else {
            now as u64
        };
        self.snapshot_at(time)
    }
}

/// Reads the clock: the system time, turned into a date by chrono's
/// `DateTime::<Utc>::from` and into milliseconds since the Unix epoch by
/// `DateTime::timestamp_millis`. Nothing is promised of the value; it is
/// negative on a machine whose clock stands before the epoch. The call does
/// not return where the clock shows a date that chrono cannot hold.
#[verifier::external_body]
pub(crate) fn now_millis() -> (r: i64) {
    chrono::DateTime::<chrono::Utc>::from(std::time::SystemTime::now()).timestamp_millis()
}

} // verus!
