//! Teams, ships and the per-connection player record.

use crate::fixed::{clamp, clamp_spec, COORD_LIMIT, SPEED_LIMIT};
use crate::geometry::{center_of_goals, goal_center, GameConfig, MapObject};
use crate::text::bytes_eq;
use vstd::prelude::*;
use vstd::string::StringSliceAdditionalSpecFns;

verus! {

/// Fuel shown to a client when the tank (or the shot clock) is full.
pub const MAX_FUEL: u32 = 200_000;

/// Distance between a team's spawn line and the centre of the field.
pub const SPAWN_OFFSET: i64 = 150_000;

/// Width of the band around the centre in which a spawn position is drawn.
pub const SPAWN_SPREAD: u32 = 100_000;

/// A team; each defends the goal zone of its colour.
#[derive(Clone, Copy, Debug, PartialEq, Eq, Structural)]
pub enum Team {
    Red,
    Blue,
    Yellow,
    Green,
}

/// The team that a name stands for.
pub open spec fn team_named(name: Seq<u8>) -> Option<Team> {
    if name == "Red".spec_bytes() {
        Some(Team::Red)
    } else if name == "Blue".spec_bytes() {
        Some(Team::Blue)
    } else if name == "Yellow".spec_bytes() {
        Some(Team::Yellow)
    } else if name == "Green".spec_bytes() {
        Some(Team::Green)
    } else {
        None
    }
}

impl Team {
    /// Red and Green line up left of the centre, Blue and Yellow right of it.
    pub open spec fn spawns_left(self) -> bool {
        self == Team::Red || self == Team::Green
    }

    /// Reads the name of a team as a client writes it: `Red`, `Blue`,
    /// `Yellow` or `Green`.
    pub fn from_name(name: &str) -> (r: Option<Team>)
        ensures
            r == team_named(name.spec_bytes()),
    {
        let b = name.as_bytes();
        if bytes_eq(b, "Red".as_bytes()) {
            Some(Team::Red)
        } else if bytes_eq(b, "Blue".as_bytes()) {
            Some(Team::Blue)
        } else if bytes_eq(b, "Yellow".as_bytes()) {
            Some(Team::Yellow)
        } else if bytes_eq(b, "Green".as_bytes()) {
            Some(Team::Green)
        } else {
            None
        }
    }

    /// The lower-case name used in the handshake sent to a new client.
    pub fn wire_name(self) -> (r: &'static str)
        ensures
            r@ == match self {
                Team::Red => "red"@,
                Team::Blue => "blue"@,
                Team::Yellow => "yellow"@,
                Team::Green => "green"@,
            },
    {
        match self {
            Team::Red => "red",
            Team::Blue => "blue",
            Team::Yellow => "yellow",
            Team::Green => "green",
        }
    }
}

/// The position of a ship's centre.
#[derive(Clone, Copy, Debug, PartialEq, Eq, Structural)]
pub struct Ship {
    pub x: i64,
    pub y: i64,
}

/// The latest command of one connection.
#[derive(Clone, Copy, Debug, PartialEq, Eq, Structural)]
pub struct InputState {
    pub left: bool,
    pub right: bool,
    pub up: bool,
    pub down: bool,
    pub shoot: bool,
    pub boost: bool,
    pub target_x: Option<i64>,
    pub target_y: Option<i64>,
}

impl InputState {
    /// No key pressed, no aim.
    pub open spec fn idle() -> InputState {
        InputState {
            left: false,
            right: false,
            up: false,
            down: false,
            shoot: false,
            boost: false,
            target_x: None,
            target_y: None,
        }
    }

    /// The point aimed at, when both coordinates were given: the target
    /// point, moved to within the coordinate limit where it lies beyond.
    pub open spec fn target(self) -> Option<(int, int)> {
        match (self.target_x, self.target_y) {
            (Some(x), Some(y)) => Some(
                (
                    clamp_spec(x as int, -COORD_LIMIT as int, COORD_LIMIT as int),
                    clamp_spec(y as int, -COORD_LIMIT as int, COORD_LIMIT as int),
                ),
            ),
            _ => None,
        }
    }

    /// Computes the point aimed at.
    pub fn aimed_at(&self) -> (r: Option<(i64, i64)>)
        ensures
            match r {
                Some(t) => self.target() == Some((t.0 as int, t.1 as int)) && -COORD_LIMIT <= t.0
                    <= COORD_LIMIT && -COORD_LIMIT <= t.1 <= COORD_LIMIT,
                None => self.target().is_none(),
            },
    {
        match (self.target_x, self.target_y) {
            (Some(x), Some(y)) => Some(
                (clamp(x, -COORD_LIMIT, COORD_LIMIT), clamp(y, -COORD_LIMIT, COORD_LIMIT)),
            ),
            _ => None,
        }
    }
}

impl Default for InputState {
    fn default() -> (r: InputState)
        ensures
            r == InputState::idle(),
    {
        InputState {
            left: false,
            right: false,
            up: false,
            down: false,
            shoot: false,
            boost: false,
            target_x: None,
            target_y: None,
        }
    }
}

/// What every client is told about a ship in each snapshot.
#[derive(Debug)]
pub struct ShipState {
    pub x: i64,
    pub y: i64,
    pub seq: u32,
    pub fuel: u32,
    pub team: Team,
    pub display_name: String,
    pub rocket_cooldown: u32,
}

/// A connected player and the ship the player flies.
#[derive(Debug)]
pub struct Player {
    pub id: u32,
    pub ship: Ship,
    pub input: InputState,
    pub last_seq: u32,
    pub velocity: (i64, i64),
    pub shoot_cooldown: u32,
    pub grab_cooldown: u32,
    pub fuel: u32,
    pub team: Team,
    pub display_name: String,
    pub is_host: bool,
    pub rocket_cooldown: u32,
    pub pending_shot_id: Option<u32>,
}

/// Where a player of `team` appears, given the centre of the field and a
/// random draw: on the team's side of the centre, at a height spread around
/// it, and inside the field.
pub open spec fn spawn_position(team: Team, center: (int, int), draw: int, config: GameConfig) -> (
    int,
    int,
) {
    let x = if team.spawns_left() {
        center.0 - SPAWN_OFFSET
    } else {
        center.0 + SPAWN_OFFSET
    };
    let y = center.1 + draw % (SPAWN_SPREAD as int) - SPAWN_SPREAD / 2;
    (clamp_spec(x, 0, config.field_width as int), clamp_spec(y, 0, config.field_height as int))
}

/// Computes where a player of `team` appears for `draw`, a number drawn at random.
pub fn spawn_point(team: Team, center: (i64, i64), draw: u32, config: &GameConfig) -> (r: (i64, i64))
    requires
        config.wf(),
        -COORD_LIMIT <= center.0 <= COORD_LIMIT,
        -COORD_LIMIT <= center.1 <= COORD_LIMIT,
    ensures
        (r.0 as int, r.1 as int) == spawn_position(
            team,
            (center.0 as int, center.1 as int),
            draw as int,
            *config,
        ),
        0 <= r.0 <= config.field_width,
        0 <= r.1 <= config.field_height,
{
    let side = match team {
        Team::Red => -SPAWN_OFFSET,
        Team::Green => -SPAWN_OFFSET,
        Team::Blue => SPAWN_OFFSET,
        Team::Yellow => SPAWN_OFFSET,
    };
    let x = clamp(center.0 + side, 0, config.field_width);
    let spread: i64 = (draw % SPAWN_SPREAD) as i64;
    let y = clamp(center.1 + spread - (SPAWN_SPREAD / 2) as i64, 0, config.field_height);
    (x, y)
}

impl Player {
    /// The ship lies in the field and the velocity within the speed limit.
    pub open spec fn wf(self, config: GameConfig) -> bool {
        &&& 0 <= self.ship.x <= config.field_width
        &&& 0 <= self.ship.y <= config.field_height
        &&& -SPEED_LIMIT <= self.velocity.0 <= SPEED_LIMIT
        &&& -SPEED_LIMIT <= self.velocity.1 <= SPEED_LIMIT
        &&& self.fuel <= MAX_FUEL
    }

    /// A fresh player at rest at `position`.
    pub open spec fn fresh(id: u32, team: Team, display_name: String, position: (int, int)) -> Player {
        Player {
            id,
            ship: Ship { x: position.0 as i64, y: position.1 as i64 },
            input: InputState::idle(),
            last_seq: 0,
            velocity: (0, 0),
            shoot_cooldown: 0,
            grab_cooldown: 0,
            fuel: MAX_FUEL,
            team,
            display_name,
            is_host: false,
            rocket_cooldown: 0,
            pending_shot_id: None,
        }
    }

    /// Creates the player that appears for `draw`, a number drawn at random.
    pub fn spawn(
        id: u32,
        team: Team,
        display_name: String,
        center: (i64, i64),
        draw: u32,
        config: &GameConfig,
    ) -> (r: Player)
        requires
            config.wf(),
            -COORD_LIMIT <= center.0 <= COORD_LIMIT,
            -COORD_LIMIT <= center.1 <= COORD_LIMIT,
        ensures
            r == Player::fresh(
                id,
                team,
                display_name,
                spawn_position(team, (center.0 as int, center.1 as int), draw as int, *config),
            ),
            r.wf(*config),
    {
        let (x, y) = spawn_point(team, center, draw, config);
        Player {
            id,
            ship: Ship { x, y },
            input: InputState::default(),
            last_seq: 0,
            velocity: (0, 0),
            shoot_cooldown: 0,
            grab_cooldown: 0,
            fuel: MAX_FUEL,
            team,
            display_name,
            is_host: false,
            rocket_cooldown: 0,
            pending_shot_id: None,
        }
    }

    /// Creates a player on its team's side of the point midway between the
    /// goals, at a height drawn at random.
    pub fn new(id: u32, team: Team, display_name: String, map: &Vec<MapObject>, config: &GameConfig) -> (r:
        Player)
        requires
            config.wf(),
            forall|i: int| 0 <= i < map@.len() ==> (#[trigger] map@[i]).wf(),
        ensures
            exists|draw: int|
                r == Player::fresh(
                    id,
                    team,
                    display_name,
                    #[trigger] spawn_position(team, goal_center(map@, *config), draw, *config),
                ),
            r.wf(*config),
    {
        let center = center_of_goals(map, config);
        let draw = random_draw();
        Player::spawn(id, team, display_name, center, draw, config)
    }

    /// Renames the player, unless the new name is empty.
    pub fn set_display_name(&mut self, name: String)
        ensures
            final(self).display_name == (if name@.len() == 0 {
                old(self).display_name
            } else {
                name
            }),
            *final(self) == (Player { display_name: final(self).display_name, ..*old(self) }),
    {
        if !name.as_str().is_empty() {
            self.display_name = name;
        }
    }

    /// Burns `amount` of fuel if the tank holds that much, and says whether it did.
    pub fn use_boost(&mut self, amount: u32) -> (used: bool)
        ensures
            used == (old(self).fuel >= amount),
            final(self).fuel == (if used {
                old(self).fuel - amount
            } else {
                old(self).fuel as int
            }),
            *final(self) == (Player { fuel: final(self).fuel, ..*old(self) }),
    {
        if self.fuel >= amount {
            self.fuel = self.fuel - amount;
            true
        } else {
            false
        }
    }

    /// Refills the tank by `amount`, up to `MAX_FUEL`.
    pub fn regenerate_fuel(&mut self, amount: u32)
        ensures
            final(self).fuel == (if old(self).fuel + amount >= MAX_FUEL {
                MAX_FUEL as int
            } else {
                old(self).fuel + amount
            }),
            *final(self) == (Player { fuel: final(self).fuel, ..*old(self) }),
    {
        if amount >= MAX_FUEL || self.fuel >= MAX_FUEL - amount {
            self.fuel = MAX_FUEL;
        } else {
            self.fuel = self.fuel + amount;
        }
    }

    /// The public part of the player's state.
    pub fn ship_state(&self) -> (r: ShipState)
        ensures
            r.x == self.ship.x,
            r.y == self.ship.y,
            r.seq == self.last_seq,
            r.fuel == self.fuel,
            r.team == self.team,
            r.display_name == self.display_name,
            r.rocket_cooldown == self.rocket_cooldown,
    {
        ShipState {
            x: self.ship.x,
            y: self.ship.y,
            seq: self.last_seq,
            fuel: self.fuel,
            team: self.team,
            display_name: self.display_name.clone(),
            rocket_cooldown: self.rocket_cooldown,
        }
    }
}

/// Draws a number with `rand::random`. The generator is seeded by the
/// operating system, so nothing is promised of the value; the call does not
/// return where the operating system gives no seed.
#[verifier::external_body]
pub(crate) fn random_draw() -> (r: u32) {
    rand::random::<u32>()
}

} // verus!
