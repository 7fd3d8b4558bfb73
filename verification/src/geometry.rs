//! The geometry table: walls and goal zones, and the configuration of a match.

use crate::fixed::{clamp, clamp_spec, trunc_div, COORD_LIMIT};
use crate::player::Team;
use crate::text::bytes_eq;
use vstd::prelude::*;
use vstd::string::StringSliceAdditionalSpecFns;

verus! {

pub const SHIP_WIDTH: i64 = 40_000;

pub const SHIP_HEIGHT: i64 = 40_000;

pub const BALL_WIDTH: i64 = 20_000;

pub const BALL_HEIGHT: i64 = 20_000;

/// How far a wall's collision box lies inside its drawn outline.
pub const WALL_COLLISION_INSET: i64 = 5_000;

/// Largest width or height of a field.
pub const FIELD_LIMIT: i64 = 500_000_000;

/// How a shot is aimed.
#[derive(Clone, Copy, Debug, PartialEq, Eq, Structural)]
pub enum AimMode {
    /// At the target point, else along the ship's velocity, else upward.
    Target,
    /// Along the ship's velocity, else at the target point, else upward.
    Velocity,
}

/// The settings of one match.
#[derive(Clone, Copy, Debug, PartialEq, Eq, Structural)]
pub struct GameConfig {
    pub field_width: i64,
    pub field_height: i64,
    /// Four teams (one goal in each corner) instead of two.
    pub four_teams: bool,
    /// In fixed-team modes, the number of players a team can hold.
    pub max_players_per_team: Option<u32>,
    pub aim_mode: AimMode,
    /// Whether ships carry the secondary weapon.
    pub rockets: bool,
}

impl GameConfig {
    /// The field is large enough for the ball and within the field limit.
    pub open spec fn wf(self) -> bool {
        &&& BALL_WIDTH <= self.field_width <= FIELD_LIMIT
        &&& BALL_HEIGHT <= self.field_height <= FIELD_LIMIT
    }

    /// Four teams of one player each, shots aimed at the target point, rockets on.
    pub open spec fn corner_defense_spec() -> GameConfig {
        GameConfig {
            field_width: 2_000_000,
            field_height: 1_200_000,
            four_teams: true,
            max_players_per_team: Some(1u32),
            aim_mode: AimMode::Target,
            rockets: true,
        }
    }

    /// Two open teams, shots aimed along the ship's velocity, no rockets.
    pub open spec fn two_team_spec() -> GameConfig {
        GameConfig {
            field_width: 2_000_000,
            field_height: 1_200_000,
            four_teams: false,
            max_players_per_team: None,
            aim_mode: AimMode::Velocity,
            rockets: false,
        }
    }

    /// Four teams of one player each, shots aimed at the target point, rockets on.
    pub fn corner_defense() -> (r: GameConfig)
        ensures
            r == GameConfig::corner_defense_spec(),
            r.wf(),
    {
        GameConfig {
            field_width: 2_000_000,
            field_height: 1_200_000,
            four_teams: true,
            max_players_per_team: Some(1),
            aim_mode: AimMode::Target,
            rockets: true,
        }
    }

    /// Two open teams, shots aimed along the ship's velocity, no rockets.
    pub fn two_team() -> (r: GameConfig)
        ensures
            r == GameConfig::two_team_spec(),
            r.wf(),
    {
        GameConfig {
            field_width: 2_000_000,
            field_height: 1_200_000,
            four_teams: false,
            max_players_per_team: None,
            aim_mode: AimMode::Velocity,
            rockets: false,
        }
    }

    /// Tells whether the field's size is one the simulation accepts.
    pub fn is_valid(&self) -> (r: bool)
        ensures
            r == self.wf(),
    {
        BALL_WIDTH <= self.field_width && self.field_width <= FIELD_LIMIT && BALL_HEIGHT
            <= self.field_height && self.field_height <= FIELD_LIMIT
    }
}

/// What a rectangle of the map is.
#[derive(Clone, Copy, Debug, PartialEq, Eq, Structural)]
pub enum ObjType {
    Wall,
    /// The goal zone that `Team` defends.
    Goal(Team),
    /// A tag that the simulation does not know; such rectangles are ignored.
    Other,
}

/// The kind that a map tag stands for.
pub open spec fn tag_type(tag: Seq<u8>) -> ObjType {
    if tag == "wall".spec_bytes() {
        ObjType::Wall
    } else if tag == "goal_red".spec_bytes() {
        ObjType::Goal(Team::Red)
    } else if tag == "goal_blue".spec_bytes() {
        ObjType::Goal(Team::Blue)
    } else if tag == "goal_yellow".spec_bytes() {
        ObjType::Goal(Team::Yellow)
    } else if tag == "goal_green".spec_bytes() {
        ObjType::Goal(Team::Green)
    } else {
        ObjType::Other
    }
}

impl ObjType {
    /// Reads a map tag: `wall`, or `goal_` followed by a team's name.
    pub fn from_tag(tag: &str) -> (r: ObjType)
        ensures
            r == tag_type(tag.spec_bytes()),
    {
        let b = tag.as_bytes();
        if bytes_eq(b, "wall".as_bytes()) {
            ObjType::Wall
        } else if bytes_eq(b, "goal_red".as_bytes()) {
            ObjType::Goal(Team::Red)
        } else if bytes_eq(b, "goal_blue".as_bytes()) {
            ObjType::Goal(Team::Blue)
        } else if bytes_eq(b, "goal_yellow".as_bytes()) {
            ObjType::Goal(Team::Yellow)
        } else if bytes_eq(b, "goal_green".as_bytes()) {
            ObjType::Goal(Team::Green)
        } else {
            ObjType::Other
        }
    }
}

/// An axis-aligned rectangle of the map.
#[derive(Clone, Copy, Debug, PartialEq, Eq, Structural)]
pub struct MapObject {
    pub obj_type: ObjType,
    pub x: i64,
    pub y: i64,
    pub width: i64,
    pub height: i64,
}

impl MapObject {
    /// The rectangle has a non-negative size and lies within the coordinate limit.
    pub open spec fn wf(self) -> bool {
        &&& self.width >= 0
        &&& self.height >= 0
        &&& -COORD_LIMIT <= self.x
        &&& self.x + self.width <= COORD_LIMIT
        &&& -COORD_LIMIT <= self.y
        &&& self.y + self.height <= COORD_LIMIT
    }

    pub open spec fn is_wall(self) -> bool {
        self.obj_type == ObjType::Wall
    }

    pub open spec fn is_goal(self) -> bool {
        self.obj_type is Goal
    }

    /// Builds a rectangle, or nothing when it is not well formed.
    pub fn new(obj_type: ObjType, x: i64, y: i64, width: i64, height: i64) -> (r: Option<MapObject>)
        ensures
            r == (if (MapObject { obj_type, x, y, width, height }).wf() {
                Some(MapObject { obj_type, x, y, width, height })
            } else {
                None
            }),
    {
        if width >= 0 && height >= 0 && width <= 2 * COORD_LIMIT && height <= 2 * COORD_LIMIT && x
            >= -COORD_LIMIT && y >= -COORD_LIMIT && x <= COORD_LIMIT - width && y <= COORD_LIMIT
            - height {
            Some(MapObject { obj_type, x, y, width, height })
        } else {
            None
        }
    }

    /// Tells whether the rectangle is a wall.
    pub fn wall(&self) -> (r: bool)
        ensures
            r == self.is_wall(),
    {
        match self.obj_type {
            ObjType::Wall => true,
            _ => false,
        }
    }

    /// The team that defends this goal zone, if it is one.
    pub fn goal_team(&self) -> (r: Option<Team>)
        ensures
            r == (match self.obj_type {
                ObjType::Goal(t) => Some(t),
                _ => None,
            }),
    {
        match self.obj_type {
            ObjType::Goal(t) => Some(t),
            _ => None,
        }
    }
}

/// Every rectangle of the map is well formed.
pub open spec fn map_wf(map: Seq<MapObject>) -> bool {
    forall|i: int| 0 <= i < map.len() ==> (#[trigger] map[i]).wf()
}

/// Tells whether every rectangle of the map is well formed.
pub fn validate_map(map: &Vec<MapObject>) -> (r: bool)
    ensures
        r == map_wf(map@),
{
    let n = map.len();
    let mut i: usize = 0;
    while i < n
        invariant
            i <= n,
            n == map@.len(),
            forall|j: int| 0 <= j < i ==> (#[trigger] map@[j]).wf(),
        decreases n - i,
    {
        let o = &map[i];
        let ok = o.width >= 0 && o.height >= 0 && o.width <= 2 * COORD_LIMIT && o.height <= 2
            * COORD_LIMIT && o.x >= -COORD_LIMIT && o.y >= -COORD_LIMIT && o.x <= COORD_LIMIT
            - o.width && o.y <= COORD_LIMIT - o.height;
        if !ok {
            assert(!map@[i as int].wf());
            return false;
        }
        i += 1;
    }
    true
}

/// An axis-aligned box given by its least and greatest coordinates.
pub struct Bounds {
    pub min_x: int,
    pub max_x: int,
    pub min_y: int,
    pub max_y: int,
}

pub open spec fn min_int(a: int, b: int) -> int {
    if a <= b {
        a
    } else {
        b
    }
}

pub open spec fn max_int(a: int, b: int) -> int {
    if a >= b {
        a
    } else {
        b
    }
}

/// The box around the goal zones among the first `k` rectangles of the map.
pub open spec fn goal_bounds(map: Seq<MapObject>, k: nat) -> Option<Bounds>
    decreases k,
{
    if k == 0 {
        None
    } else {
        let rest = goal_bounds(map, (k - 1) as nat);
        let o = map[k - 1];
        if o.is_goal() {
            match rest {
                None => Some(
                    Bounds {
                        min_x: o.x as int,
                        max_x: o.x + o.width,
                        min_y: o.y as int,
                        max_y: o.y + o.height,
                    },
                ),
                Some(b) => Some(
                    Bounds {
                        min_x: min_int(b.min_x, o.x as int),
                        max_x: max_int(b.max_x, o.x + o.width),
                        min_y: min_int(b.min_y, o.y as int),
                        max_y: max_int(b.max_y, o.y + o.height),
                    },
                ),
            }
        } else {
            rest
        }
    }
}

/// The point where the ball is put down: the middle of the box around all
/// goal zones, moved into the field if it lies outside. Without goal zones
/// it is the middle of the field.
pub open spec fn goal_center(map: Seq<MapObject>, config: GameConfig) -> (int, int) {
    match goal_bounds(map, map.len()) {
        None => (config.field_width / 2, config.field_height / 2),
        Some(b) => (
            clamp_spec(trunc_div(b.min_x + b.max_x, 2), 0, config.field_width as int),
            clamp_spec(trunc_div(b.min_y + b.max_y, 2), 0, config.field_height as int),
        ),
    }
}

/// The box around the goal zones, said without recursion: there is none
/// exactly when there is no goal zone; it holds every goal zone, and each
/// of its sides is a side of one of them.
pub proof fn lemma_goal_bounds_are_extremes(map: Seq<MapObject>, k: nat)
    requires
        k <= map.len(),
    ensures
        match goal_bounds(map, k) {
            None => forall|j: int| 0 <= j < k ==> !(#[trigger] map[j]).is_goal(),
            Some(b) => {
                &&& forall|j: int|
                    0 <= j < k && (#[trigger] map[j]).is_goal() ==> b.min_x <= map[j].x && map[j].x
                        + map[j].width <= b.max_x && b.min_y <= map[j].y && map[j].y
                        + map[j].height <= b.max_y
                &&& exists|j: int| 0 <= j < k && (#[trigger] map[j]).is_goal() && b.min_x == map[j].x
                &&& exists|j: int|
                    0 <= j < k && (#[trigger] map[j]).is_goal() && b.max_x == map[j].x
                        + map[j].width
                &&& exists|j: int| 0 <= j < k && (#[trigger] map[j]).is_goal() && b.min_y == map[j].y
                &&& exists|j: int|
                    0 <= j < k && (#[trigger] map[j]).is_goal() && b.max_y == map[j].y
                        + map[j].height
            },
        },
    decreases k,
{
    if k > 0 {
        lemma_goal_bounds_are_extremes(map, (k - 1) as nat);
        let o = map[k - 1];
        if o.is_goal() {
            assert(map[k - 1].is_goal());
        }
    }
}

/// The box around the goal zones of a valid map lies within the coordinate limit.
pub proof fn lemma_goal_bounds_within(map: Seq<MapObject>, k: nat)
    requires
        map_wf(map),
        k <= map.len(),
    ensures
        goal_bounds(map, k) matches Some(b) ==> {
            &&& -COORD_LIMIT <= b.min_x <= COORD_LIMIT
            &&& -COORD_LIMIT <= b.max_x <= COORD_LIMIT
            &&& -COORD_LIMIT <= b.min_y <= COORD_LIMIT
            &&& -COORD_LIMIT <= b.max_y <= COORD_LIMIT
        },
    decreases k,
{
    if k > 0 {
        lemma_goal_bounds_within(map, (k - 1) as nat);
        assert(map[k - 1].wf());
    }
}

/// Computes the point where the ball is put down.
pub fn center_of_goals(map: &Vec<MapObject>, config: &GameConfig) -> (r: (i64, i64))
    requires
        config.wf(),
        map_wf(map@),
    ensures
        (r.0 as int, r.1 as int) == goal_center(map@, *config),
        0 <= r.0 <= config.field_width,
        0 <= r.1 <= config.field_height,
{
    let n = map.len();
    let mut found = false;
    let mut min_x: i64 = 0;
    let mut max_x: i64 = 0;
    let mut min_y: i64 = 0;
    let mut max_y: i64 = 0;
    let mut i: usize = 0;
    while i < n
        invariant
            i <= n,
            n == map@.len(),
            map_wf(map@),
            found == goal_bounds(map@, i as nat).is_some(),
            found ==> goal_bounds(map@, i as nat) == Some(
                Bounds {
                    min_x: min_x as int,
                    max_x: max_x as int,
                    min_y: min_y as int,
                    max_y: max_y as int,
                },
            ),
        decreases n - i,
    {
        let o = &map[i];
        proof {
            assert(map@[i as int].wf());
            lemma_goal_bounds_within(map@, i as nat);
        }
        if o.goal_team().is_some() {
            let right = o.x + o.width;
            let bottom = o.y + o.height;
            if !found {
                found = true;
                min_x = o.x;
                max_x = right;
                min_y = o.y;
                max_y = bottom;
            } else {
                if o.x < min_x {
                    min_x = o.x;
                }
                if right > max_x {
                    max_x = right;
                }
                if o.y < min_y {
                    min_y = o.y;
                }
                if bottom > max_y {
                    max_y = bottom;
                }
            }
        }
        i += 1;
    }
    if found {
        proof {
            lemma_goal_bounds_within(map@, n as nat);
        }
        (
            clamp((min_x + max_x) / 2, 0, config.field_width),
            clamp((min_y + max_y) / 2, 0, config.field_height),
        )
    } else {
        (config.field_width / 2, config.field_height / 2)
    }
}

} // verus!
