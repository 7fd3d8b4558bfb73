//! Ships meeting ships: they are pushed apart, bounce off each other, and
//! the ball is knocked out of its holder's hands.

use crate::ball::Ball;
use crate::events::GameEvent;
use crate::fixed::{
    add_clamped, clamp, clamp_spec, lemma_mul_bound, lemma_square_monotone, length, mul_div, norm2,
    norm2_of, scale_to, scale_to_spec, scaled, trunc_div, vec_len, COORD_LIMIT, SPEED_LIMIT, UNIT,
};
use crate::game::{lemma_players_stay_valid, lookup, Game, GameView};
use crate::geometry::GameConfig;
use crate::player::{Player, Ship};
use vstd::prelude::*;

verus! {

/// Two ships touch when their centres are closer than twice this radius.
pub const COLLISION_RADIUS: i64 = 20_000;

/// Time before a player who lost the ball in a collision can pick it up again.
pub const KNOCKED_COOLDOWN_MS: u32 = 800;

/// Time before the other player of that collision can pick the ball up.
pub const KNOCKER_COOLDOWN_MS: u32 = 100;

/// The ships of a match together with what the collisions found so far
/// have in store for each: a shift of its position and a change of its velocity.
pub struct Contacts {
    pub game: GameView,
    pub shifts: Seq<(i64, i64)>,
    pub kicks: Seq<(i64, i64)>,
}

/// The two ships touch.
pub open spec fn ships_touch(a: Ship, b: Ship) -> bool {
    norm2(a.x - b.x, a.y - b.y) < (2 * COLLISION_RADIUS) * (2 * COLLISION_RADIUS)
}

/// The direction from ship `b` to ship `a`, as a vector of length `UNIT`;
/// to the right when the two lie on the same spot.
pub open spec fn contact_normal(a: Ship, b: Ship) -> (int, int) {
    if a.x == b.x && a.y == b.y {
        (UNIT as int, 0)
    } else {
        scale_to_spec(a.x - b.x, a.y - b.y, UNIT as int)
    }
}

/// How far each of two touching ships is pushed: three quarters of their
/// overlap, so that they end up apart.
pub open spec fn contact_shift(a: Ship, b: Ship) -> (int, int) {
    let n = contact_normal(a, b);
    let overlap = 2 * COLLISION_RADIUS - vec_len(a.x - b.x, a.y - b.y);
    let push = trunc_div(overlap * 3, 4);
    (scaled(n.0, push, 1000), scaled(n.1, push, 1000))
}

/// The speed at which ship `a` moves away from ship `b`; negative while
/// they approach.
pub open spec fn closing_speed(a: Player, b: Player) -> int {
    let n = contact_normal(a.ship, b.ship);
    trunc_div(
        (a.velocity.0 - b.velocity.0) * n.0 + (a.velocity.1 - b.velocity.1) * n.1,
        1000,
    )
}

/// The change of velocity of two touching ships: they bounce off each other
/// if they approach, with eight fifths of the closing speed.
pub open spec fn contact_kick(a: Player, b: Player) -> (int, int) {
    let n = contact_normal(a.ship, b.ship);
    let along = closing_speed(a, b);
    if along < 0 {
        let scalar = trunc_div(-along * 8, 5);
        (scaled(n.0, scalar, 1000), scaled(n.1, scalar, 1000))
    } else {
        (0, 0)
    }
}

/// `a + d`, each component held within `[-limit, limit]`.
pub open spec fn plus_clamped(a: (i64, i64), d: (int, int), limit: int) -> (i64, i64) {
    (clamp_spec(a.0 + d.0, -limit, limit) as i64, clamp_spec(a.1 + d.1, -limit, limit) as i64)
}

/// `a - d`, each component held within `[-limit, limit]`.
pub open spec fn minus_clamped(a: (i64, i64), d: (int, int), limit: int) -> (i64, i64) {
    (clamp_spec(a.0 - d.0, -limit, limit) as i64, clamp_spec(a.1 - d.1, -limit, limit) as i64)
}

impl GameView {
    /// The match after the players at `i` and `j` collided, as far as the
    /// ball goes: if one of them held it, the ball lies free at the
    /// holder's ship, and the holder has to wait longer than the other to
    /// pick it up again.
    pub open spec fn knocked(self, i: int, j: int) -> GameView {
        let a = self.players[i];
        let b = self.players[j];
        if self.ball.grabbed && (self.ball.owner == Some(a.id) || self.ball.owner == Some(b.id)) {
            let holder = if self.ball.owner == Some(a.id) {
                a
            } else {
                b
            };
            GameView {
                ball: Ball {
                    x: holder.ship.x,
                    y: holder.ship.y,
                    grabbed: false,
                    owner: None,
                    last_shooter: None,
                    ..self.ball
                },
                players: self.players.update(
                    i,
                    Player {
                        grab_cooldown: if self.ball.owner == Some(a.id) {
                            KNOCKED_COOLDOWN_MS
                        } else {
                            KNOCKER_COOLDOWN_MS
                        },
                        ..a
                    },
                ).update(
                    j,
                    Player {
                        grab_cooldown: if self.ball.owner == Some(b.id) {
                            KNOCKED_COOLDOWN_MS
                        } else {
                            KNOCKER_COOLDOWN_MS
                        },
                        ..b
                    },
                ),
                events: self.events.push(GameEvent::BallKnocked { player_id: holder.id }),
                ..self
            }
        } else {
            self
        }
    }
}

impl Contacts {
    /// Before any collision was found: nothing is in store for any ship.
    pub open spec fn start(game: GameView) -> Contacts {
        Contacts {
            game,
            shifts: Seq::new(game.players.len(), |k: int| (0i64, 0i64)),
            kicks: Seq::new(game.players.len(), |k: int| (0i64, 0i64)),
        }
    }

    /// The state after the ships of the players at `i` and `j` were held
    /// against each other.
    pub open spec fn pair(self, i: int, j: int) -> Contacts {
        let a = self.game.players[i];
        let b = self.game.players[j];
        if ships_touch(a.ship, b.ship) {
            let shift = contact_shift(a.ship, b.ship);
            let kick = contact_kick(a, b);
            Contacts {
                game: self.game.knocked(i, j),
                shifts: self.shifts.update(
                    i,
                    plus_clamped(self.shifts[i], shift, COORD_LIMIT as int),
                ).update(j, minus_clamped(self.shifts[j], shift, COORD_LIMIT as int)),
                kicks: self.kicks.update(i, plus_clamped(self.kicks[i], kick, COORD_LIMIT as int)).update(
                    j,
                    minus_clamped(self.kicks[j], kick, COORD_LIMIT as int),
                ),
            }
        } else {
            self
        }
    }

    /// The state after the ship at `i` was held against those at `i + 1`
    /// up to `end - 1`.
    pub open spec fn row(self, i: int, end: int) -> Contacts
        decreases end - i,
    {
        if end <= i + 1 {
            self
        } else {
            self.row(i, end - 1).pair(i, end - 1)
        }
    }

    /// The state after each of the first `k` ships was held against every
    /// ship behind it.
    pub open spec fn rows(self, k: int) -> Contacts
        decreases k,
    {
        if k <= 0 {
            self
        } else {
            self.rows(k - 1).row(k - 1, self.game.players.len() as int)
        }
    }

    /// The match is valid, there is one shift and one change of velocity
    /// for each player, and each lies within the coordinate limit.
    pub open spec fn wf(self) -> bool {
        &&& self.game.wf()
        &&& self.shifts.len() == self.game.players.len()
        &&& self.kicks.len() == self.game.players.len()
        &&& forall|k: int|
            0 <= k < self.shifts.len() ==> {
                &&& -COORD_LIMIT <= (#[trigger] self.shifts[k]).0 <= COORD_LIMIT
                &&& -COORD_LIMIT <= self.shifts[k].1 <= COORD_LIMIT
            }
        &&& forall|k: int|
            0 <= k < self.kicks.len() ==> {
                &&& -COORD_LIMIT <= (#[trigger] self.kicks[k]).0 <= COORD_LIMIT
                &&& -COORD_LIMIT <= self.kicks[k].1 <= COORD_LIMIT
            }
    }
}

impl Player {
    /// The player after a collision phase: the ship shifted, within the
    /// field, and the velocity changed, within the speed limit.
    pub open spec fn bumped(self, shift: (i64, i64), kick: (i64, i64), config: GameConfig) -> Player {
        Player {
            ship: Ship {
                x: clamp_spec(self.ship.x + shift.0, 0, config.field_width as int) as i64,
                y: clamp_spec(self.ship.y + shift.1, 0, config.field_height as int) as i64,
            },
            velocity: (
                clamp_spec(self.velocity.0 + kick.0, -SPEED_LIMIT as int, SPEED_LIMIT as int) as i64,
                clamp_spec(self.velocity.1 + kick.1, -SPEED_LIMIT as int, SPEED_LIMIT as int) as i64,
            ),
            ..self
        }
    }
}

impl GameView {
    /// The match after every pair of ships was held against each other and
    /// the shifts and changes of velocity found were applied.
    pub open spec fn ships_collided(self) -> GameView {
        let c = Contacts::start(self).rows(self.players.len() as int);
        let config = self.config;
        GameView {
            players: Seq::new(
                c.game.players.len(),
                |k: int| c.game.players[k].bumped(c.shifts[k], c.kicks[k], config),
            ),
            ..c.game
        }
    }

    /// The match after the held ball was moved to its holder's ship.
    pub open spec fn ball_carried(self) -> GameView {
        if self.ball.grabbed {
            match self.ball.owner {
                Some(owner) => match lookup(self.players, owner) {
                    Some(i) => GameView {
                        ball: Ball {
                            x: self.players[i].ship.x,
                            y: self.players[i].ship.y,
                            ..self.ball
                        },
                        ..self
                    },
                    None => self,
                },
                None => self,
            }
        } else {
            self
        }
    }
}

/// Computes the direction from ship `b` to ship `a`.
fn normal_of(a: &Ship, b: &Ship) -> (r: (i64, i64))
    requires
        -COORD_LIMIT <= a.x <= COORD_LIMIT,
        -COORD_LIMIT <= a.y <= COORD_LIMIT,
        -COORD_LIMIT <= b.x <= COORD_LIMIT,
        -COORD_LIMIT <= b.y <= COORD_LIMIT,
    ensures
        (r.0 as int, r.1 as int) == contact_normal(*a, *b),
        -UNIT <= r.0 <= UNIT,
        -UNIT <= r.1 <= UNIT,
{
    if a.x == b.x && a.y == b.y {
        (UNIT, 0)
    } else {
        scale_to(a.x - b.x, a.y - b.y, UNIT)
    }
}

impl Game {
    /// Knocks the ball out of its holder's hands if the holder is one of
    /// the players at `i` and `j`.
    fn knock(&mut self, i: usize, j: usize)
        requires
            old(self).wf(),
            i < j < old(self).players@.len(),
        ensures
            final(self)@ == old(self)@.knocked(i as int, j as int),
            final(self).wf(),
            final(self).players@.len() == old(self).players@.len(),
            forall|k: int|
                0 <= k < old(self).players@.len() ==> (#[trigger] final(self).players@[k]).ship
                    == old(self).players@[k].ship && final(self).players@[k].velocity == old(
                    self,
                ).players@[k].velocity,
    {
        assert(self.players@[i as int].wf(self.config));
        assert(self.players@[j as int].wf(self.config));
        let id_i = self.players[i].id;
        let id_j = self.players[j].id;
        if self.ball.grabbed && (self.ball.owner == Some(id_i) || self.ball.owner == Some(id_j)) {
            let i_held = self.ball.owner == Some(id_i);
            let holder = if i_held {
                i
            } else {
                j
            };
            let holder_id = self.players[holder].id;
            self.ball.x = self.players[holder].ship.x;
            self.ball.y = self.players[holder].ship.y;
            self.ball.grabbed = false;
            self.ball.owner = None;
            self.ball.last_shooter = None;
            self.players[i].grab_cooldown = if i_held {
                KNOCKED_COOLDOWN_MS
            } else {
                KNOCKER_COOLDOWN_MS
            };
            self.players[j].grab_cooldown = if self.ball.owner == Some(id_j) || !i_held {
                KNOCKED_COOLDOWN_MS
            } else {
                KNOCKER_COOLDOWN_MS
            };
            self.events.push(GameEvent::BallKnocked { player_id: holder_id });
            proof {
                let after = self.players@;
                let before = old(self).players@;
                assert(before[i as int].id != before[j as int].id);
                assert(after =~= old(self)@.knocked(i as int, j as int).players);
                lemma_players_stay_valid(before, after, self.config, self.next_id);
            }
        }
    }

    /// Holds the ships of the players at `i` and `j` against each other.
    #[verifier::rlimit(40)]
    fn collide_pair(
        &mut self,
        i: usize,
        j: usize,
        shifts: &mut Vec<(i64, i64)>,
        kicks: &mut Vec<(i64, i64)>,
    )
        requires
            (Contacts { game: old(self)@, shifts: old(shifts)@, kicks: old(kicks)@ }).wf(),
            i < j < old(self).players@.len(),
        ensures
            (Contacts { game: final(self)@, shifts: final(shifts)@, kicks: final(kicks)@ }) == (Contacts {
                game: old(self)@,
                shifts: old(shifts)@,
                kicks: old(kicks)@,
            }).pair(i as int, j as int),
            (Contacts { game: final(self)@, shifts: final(shifts)@, kicks: final(kicks)@ }).wf(),
            final(self).players@.len() == old(self).players@.len(),
    {
        assert(self.players@[i as int].wf(self.config));
        assert(self.players@[j as int].wf(self.config));
        let a = self.players[i].ship;
        let b = self.players[j].ship;
        let va = self.players[i].velocity;
        let vb = self.players[j].velocity;
        let d2 = norm2_of(a.x - b.x, a.y - b.y);
        if d2 < ((2 * COLLISION_RADIUS) * (2 * COLLISION_RADIUS)) as u64 {
            let n = normal_of(&a, &b);
            let dist = length(a.x - b.x, a.y - b.y);
            proof {
                let c = dist as int;
                let limit = 2 * COLLISION_RADIUS as int;
                if c > limit {
                    lemma_square_monotone(limit, c - 1);
                }
            }
            let overlap = 2 * COLLISION_RADIUS - dist;
            let push = (overlap * 3) / 4;
            let shift = (mul_div(n.0, push, 1000), mul_div(n.1, push, 1000));
            proof {
                lemma_mul_bound(va.0 - vb.0, n.0 as int, 2 * SPEED_LIMIT as int, UNIT as int);
                lemma_mul_bound(va.1 - vb.1, n.1 as int, 2 * SPEED_LIMIT as int, UNIT as int);
            }
            let along_sum = (va.0 - vb.0) * n.0 + (va.1 - vb.1) * n.1;
            let along = along_sum / 1000;
            let kick = if along < 0 {
                let scalar = (-along * 8) / 5;
                (mul_div(n.0, scalar, 1000), mul_div(n.1, scalar, 1000))
            } else {
                (0, 0)
            };
            let si = shifts[i];
            let sj = shifts[j];
            let ki = kicks[i];
            let kj = kicks[j];
            shifts[i] = (
                add_clamped(si.0, shift.0, COORD_LIMIT),
                add_clamped(si.1, shift.1, COORD_LIMIT),
            );
            shifts[j] = (
                add_clamped(sj.0, -shift.0, COORD_LIMIT),
                add_clamped(sj.1, -shift.1, COORD_LIMIT),
            );
            kicks[i] = (add_clamped(ki.0, kick.0, COORD_LIMIT), add_clamped(ki.1, kick.1, COORD_LIMIT));
            kicks[j] = (
                add_clamped(kj.0, -kick.0, COORD_LIMIT),
                add_clamped(kj.1, -kick.1, COORD_LIMIT),
            );
            self.knock(i, j);
            proof {
                let before = Contacts { game: old(self)@, shifts: old(shifts)@, kicks: old(kicks)@ };
                let want = before.pair(i as int, j as int);
                assert(shifts@ =~= want.shifts);
                assert(kicks@ =~= want.kicks);
            }
        }
    }

    /// Holds every pair of ships against each other: touching ships are
    /// pushed apart and bounce, and a holder among them loses the ball.
    #[verifier::rlimit(40)]
    pub fn resolve_ship_ships(&mut self)
        requires
            old(self).wf(),
        ensures
            final(self)@ == old(self)@.ships_collided(),
            final(self).wf(),
    {
        let n = self.players.len();
        let mut shifts: Vec<(i64, i64)> = Vec::new();
        let mut kicks: Vec<(i64, i64)> = Vec::new();
        let mut k: usize = 0;
        while k < n
            invariant
                k <= n,
                shifts@ == Seq::new(k as nat, |a: int| (0i64, 0i64)),
                kicks@ == Seq::new(k as nat, |a: int| (0i64, 0i64)),
            decreases n - k,
        {
            shifts.push((0, 0));
            kicks.push((0, 0));
            k += 1;
            assert(shifts@ =~= Seq::new(k as nat, |a: int| (0i64, 0i64)));
            assert(kicks@ =~= Seq::new(k as nat, |a: int| (0i64, 0i64)));
        }
        let ghost start = Contacts::start(old(self)@);
        assert(shifts@ =~= start.shifts);
        assert(kicks@ =~= start.kicks);
        let mut i: usize = 0;
        while i < n
            invariant
                i <= n,
                n == self.players@.len(),
                n == old(self).players@.len(),
                start == Contacts::start(old(self)@),
                self.config == old(self).config,
                (Contacts { game: self@, shifts: shifts@, kicks: kicks@ }) == start.rows(i as int),
                (Contacts { game: self@, shifts: shifts@, kicks: kicks@ }).wf(),
            decreases n - i,
        {
            let ghost row_start = Contacts { game: self@, shifts: shifts@, kicks: kicks@ };
            let mut j: usize = i + 1;
            while j < n
                invariant
                    i < n,
                    i + 1 <= j <= n,
                    n == self.players@.len(),
                    n == row_start.game.players.len(),
                    self.config == row_start.game.config,
                    (Contacts { game: self@, shifts: shifts@, kicks: kicks@ }) == row_start.row(
                        i as int,
                        j as int,
                    ),
                    (Contacts { game: self@, shifts: shifts@, kicks: kicks@ }).wf(),
                decreases n - j,
            {
                self.collide_pair(i, j, &mut shifts, &mut kicks);
                j += 1;
            }
            proof {
                assert(j == n);
                lemma_rows_length(start, i as int);
            }
            i += 1;
        }
        let ghost done = Contacts { game: self@, shifts: shifts@, kicks: kicks@ };
        let config = self.config;
        assert(self.players@ =~= Seq::new(n as nat, |a: int| done.game.players[a]));
        assert(Seq::new(n as nat, |a: int| done.game.players[a]) =~= Seq::new(
            n as nat,
            |a: int|
                if a < 0 {
                    done.game.players[a].bumped(done.shifts[a], done.kicks[a], config)
                } else {
                    done.game.players[a]
                },
        ));
        let mut k: usize = 0;
        while k < n
            invariant
                k <= n,
                n == self.players@.len(),
                n == done.game.players.len(),
                done.wf(),
                config == done.game.config,
                shifts@ == done.shifts,
                kicks@ == done.kicks,
                self@ == (GameView {
                    players: Seq::new(
                        n as nat,
                        |a: int|
                            if a < k {
                                done.game.players[a].bumped(done.shifts[a], done.kicks[a], config)
                            } else {
                                done.game.players[a]
                            },
                    ),
                    ..done.game
                }),
            decreases n - k,
        {
            assert(done.game.players[k as int].wf(config));
            let shift = shifts[k];
            let kick = kicks[k];
            let p = &mut self.players[k];
            p.ship.x = clamp(p.ship.x + shift.0, 0, config.field_width);
            p.ship.y = clamp(p.ship.y + shift.1, 0, config.field_height);
            p.velocity.0 = add_clamped(p.velocity.0, kick.0, SPEED_LIMIT);
            p.velocity.1 = add_clamped(p.velocity.1, kick.1, SPEED_LIMIT);
            k += 1;
            assert(self.players@ =~= Seq::new(
                n as nat,
                |a: int|
                    if a < k {
                        done.game.players[a].bumped(done.shifts[a], done.kicks[a], config)
                    } else {
                        done.game.players[a]
                    },
            ));
        }
        proof {
            let after = self.players@;
            let before = done.game.players;
            assert(after =~= Seq::new(
                before.len(),
                |a: int| before[a].bumped(done.shifts[a], done.kicks[a], config),
            ));
            lemma_players_stay_valid(before, after, self.config, self.next_id);
            assert(done == start.rows(n as int));
            assert(after =~= old(self)@.ships_collided().players);
        }
    }

    /// Moves the held ball to its holder's ship.
    pub fn carry_ball(&mut self)
        requires
            old(self).wf(),
        ensures
            final(self)@ == old(self)@.ball_carried(),
            final(self).wf(),
    {
        if self.ball.grabbed {
            if let Some(owner) = self.ball.owner {
                if let Some(i) = self.find_player(owner) {
                    assert(self.players@[i as int].wf(self.config));
                    self.ball.x = self.players[i].ship.x;
                    self.ball.y = self.players[i].ship.y;
                }
            }
        }
    }
}

/// Collisions neither add nor remove players.
pub proof fn lemma_pair_length(c: Contacts, i: int, j: int)
    requires
        0 <= i < j < c.game.players.len(),
    ensures
        c.pair(i, j).game.players.len() == c.game.players.len(),
{
}

/// Holding one ship against those behind it neither adds nor removes players.
pub proof fn lemma_row_length(c: Contacts, i: int, end: int)
    requires
        0 <= i,
        end <= c.game.players.len(),
    ensures
        c.row(i, end).game.players.len() == c.game.players.len(),
    decreases end - i,
{
    if end > i + 1 {
        lemma_row_length(c, i, end - 1);
        lemma_pair_length(c.row(i, end - 1), i, end - 1);
    }
}

/// Holding ships against each other neither adds nor removes players.
pub proof fn lemma_rows_length(c: Contacts, k: int)
    requires
        k <= c.game.players.len(),
    ensures
        c.rows(k).game.players.len() == c.game.players.len(),
    decreases k,
{
    if k > 0 {
        lemma_rows_length(c, k - 1);
        lemma_row_length(c.rows(k - 1), k - 1, c.game.players.len() as int);
    }
}

} // verus!
