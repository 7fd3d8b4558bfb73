//! The simulation context: one match with its ball, ships, rockets and scores.

use crate::ball::{Ball, MAX_BALL_SPEED, SHOT_CLOCK_MS};
use crate::fixed::{norm2_of, SPEED_LIMIT};
use crate::events::GameEvent;
use crate::geometry::{center_of_goals, goal_center, map_wf, validate_map, GameConfig, MapObject};
use crate::collision::lemma_speed_components;
use crate::player::{
    random_draw, spawn_point, spawn_position, InputState, Player, Ship, ShipState, Team, MAX_FUEL,
};
use crate::projectile::{Projectile, PROJECTILE_OFFSET};
use crate::text::{decimal, numbered};
use vstd::prelude::*;

verus! {

/// Pause after a holder left the match before the ball can be picked up again.
pub const DROP_GRAB_COOLDOWN_MS: u32 = 500;

/// One match. The simulation owns all of it; connections reach it only
/// through the functions of this library.
pub struct Game {
    pub config: GameConfig,
    pub map: Vec<MapObject>,
    pub ball: Ball,
    pub players: Vec<Player>,
    pub next_id: u32,
    /// Goals scored against the red team.
    pub team1_score: u32,
    /// Goals scored against the blue team.
    pub team2_score: u32,
    /// Goals scored against the yellow team.
    pub team3_score: u32,
    /// Goals scored against the green team.
    pub team4_score: u32,
    pub goal_cooldown: u32,
    pub red_team_count: u32,
    pub blue_team_count: u32,
    pub yellow_team_count: u32,
    pub green_team_count: u32,
    pub projectiles: Vec<Projectile>,
    pub next_projectile_id: u32,
    /// Events raised since they were last taken, oldest first.
    pub events: Vec<GameEvent>,
}

/// The mathematical state of a match.
pub struct GameView {
    pub config: GameConfig,
    pub map: Seq<MapObject>,
    pub ball: Ball,
    pub players: Seq<Player>,
    pub next_id: u32,
    pub team1_score: u32,
    pub team2_score: u32,
    pub team3_score: u32,
    pub team4_score: u32,
    pub goal_cooldown: u32,
    pub red_team_count: u32,
    pub blue_team_count: u32,
    pub yellow_team_count: u32,
    pub green_team_count: u32,
    pub projectiles: Seq<Projectile>,
    pub next_projectile_id: u32,
    pub events: Seq<GameEvent>,
}

impl View for Game {
    type V = GameView;

    open spec fn view(&self) -> GameView {
        GameView {
            config: self.config,
            map: self.map@,
            ball: self.ball,
            players: self.players@,
            next_id: self.next_id,
            team1_score: self.team1_score,
            team2_score: self.team2_score,
            team3_score: self.team3_score,
            team4_score: self.team4_score,
            goal_cooldown: self.goal_cooldown,
            red_team_count: self.red_team_count,
            blue_team_count: self.blue_team_count,
            yellow_team_count: self.yellow_team_count,
            green_team_count: self.green_team_count,
            projectiles: self.projectiles@,
            next_projectile_id: self.next_projectile_id,
            events: self.events@,
        }
    }
}

/// What every client is sent after a tick.
pub struct GameStateSnapshot {
    /// Server time in milliseconds since the Unix epoch.
    pub time: u64,
    /// The public state of each ship, with its player's id.
    pub players: Vec<(u32, ShipState)>,
    pub ball: Ball,
    pub projectiles: Vec<Projectile>,
    pub team1_score: u32,
    pub team2_score: u32,
    pub team3_score: u32,
    pub team4_score: u32,
}

/// The name of a player who has not chosen one.
pub open spec fn default_name(id: u32) -> Seq<char> {
    "Player_"@ + decimal(id as nat)
}

/// A counter after one more: it stops at the largest value.
pub open spec fn bumped(count: u32) -> u32 {
    if count < u32::MAX {
        (count + 1) as u32
    } else {
        count
    }
}

/// A count as a counter holds it: the largest value stands for all beyond it.
pub open spec fn capped(count: nat) -> u32 {
    if count > u32::MAX {
        u32::MAX
    } else {
        count as u32
    }
}

/// A counter after one less: it stops at zero.
pub open spec fn lowered(count: u32) -> u32 {
    if count > 0 {
        (count - 1) as u32
    } else {
        count
    }
}

/// Every player's ship and input are well formed.
pub open spec fn players_wf(players: Seq<Player>, config: GameConfig) -> bool {
    forall|i: int| 0 <= i < players.len() ==> (#[trigger] players[i]).wf(config)
}

/// No two players share an id.
pub open spec fn ids_distinct(players: Seq<Player>) -> bool {
    forall|i: int, j: int|
        0 <= i < j < players.len() ==> (#[trigger] players[i]).id != (#[trigger] players[j]).id
}

/// Every id in use lies below `next_id`.
pub open spec fn ids_below(players: Seq<Player>, next_id: u32) -> bool {
    forall|i: int| 0 <= i < players.len() ==> (#[trigger] players[i]).id < next_id
}

/// Every rocket is valid.
pub open spec fn projectiles_wf(projectiles: Seq<Projectile>, config: GameConfig) -> bool {
    forall|i: int| 0 <= i < projectiles.len() ==> (#[trigger] projectiles[i]).wf(config)
}

/// The index of the first of the first `k` players whose id is `id`.
pub open spec fn position_of(players: Seq<Player>, id: u32, k: nat) -> Option<int>
    decreases k,
{
    if k == 0 {
        None
    } else {
        match position_of(players, id, (k - 1) as nat) {
            Some(i) => Some(i),
            None => if players[k - 1].id == id {
                Some(k - 1)
            } else {
                None
            },
        }
    }
}

/// The index of the player whose id is `id`.
pub open spec fn lookup(players: Seq<Player>, id: u32) -> Option<int> {
    position_of(players, id, players.len())
}

/// The number of players of `team` among the first `k`.
pub open spec fn team_size(players: Seq<Player>, team: Team, k: nat) -> nat
    decreases k,
{
    if k == 0 {
        0
    } else {
        team_size(players, team, (k - 1) as nat) + if players[k - 1].team == team {
            1nat
        } else {
            0nat
        }
    }
}

/// What the index found for an id says of the players.
pub proof fn lemma_position_of(players: Seq<Player>, id: u32, k: nat)
    requires
        k <= players.len(),
    ensures
        match position_of(players, id, k) {
            Some(i) => 0 <= i < k && players[i].id == id && forall|j: int|
                0 <= j < i ==> players[j].id != id,
            None => forall|j: int| 0 <= j < k ==> players[j].id != id,
        },
    decreases k,
{
    if k > 0 {
        lemma_position_of(players, id, (k - 1) as nat);
    }
}

impl GameView {
    /// The invariant of a match: the field and the map are valid, the ball
    /// and every ship lie in the field with bounded speed, a held ball has
    /// an owner and does not move, and ids are unique.
    pub open spec fn wf(self) -> bool {
        &&& self.config.wf()
        &&& map_wf(self.map)
        &&& self.ball.wf(self.config)
        &&& players_wf(self.players, self.config)
        &&& ids_distinct(self.players)
        &&& ids_below(self.players, self.next_id)
        &&& projectiles_wf(self.projectiles, self.config)
    }

    /// A match before anyone has joined: the ball rests in the middle of the field.
    pub open spec fn initial(config: GameConfig, map: Seq<MapObject>) -> GameView {
        GameView {
            config,
            map,
            ball: Ball::at_rest(config.field_width / 2, config.field_height / 2),
            players: Seq::empty(),
            next_id: 1,
            team1_score: 0,
            team2_score: 0,
            team3_score: 0,
            team4_score: 0,
            goal_cooldown: 0,
            red_team_count: 0,
            blue_team_count: 0,
            yellow_team_count: 0,
            green_team_count: 0,
            projectiles: Seq::empty(),
            next_projectile_id: 1,
            events: Seq::empty(),
        }
    }

    /// The number of players counted on `team`.
    pub open spec fn team_count(self, team: Team) -> u32 {
        match team {
            Team::Red => self.red_team_count,
            Team::Blue => self.blue_team_count,
            Team::Yellow => self.yellow_team_count,
            Team::Green => self.green_team_count,
        }
    }

    /// The match with `count` players counted on `team`.
    pub open spec fn with_team_count(self, team: Team, count: u32) -> GameView {
        match team {
            Team::Red => GameView { red_team_count: count, ..self },
            Team::Blue => GameView { blue_team_count: count, ..self },
            Team::Yellow => GameView { yellow_team_count: count, ..self },
            Team::Green => GameView { green_team_count: count, ..self },
        }
    }

    /// A team takes part in the match: red and blue always, yellow and
    /// green with four teams.
    pub open spec fn plays(self, team: Team) -> bool {
        team == Team::Red || team == Team::Blue || self.config.four_teams
    }

    /// The team can take one more player.
    pub open spec fn has_room(self, team: Team) -> bool {
        match self.config.max_players_per_team {
            Some(max) => self.team_count(team) < max,
            None => true,
        }
    }

    /// A new player may be put on `team`.
    pub open spec fn eligible(self, team: Team) -> bool {
        self.plays(team) && self.has_room(team)
    }

    /// `team` has no more players than `other`, should `other` be eligible.
    pub open spec fn no_larger(self, team: Team, other: Team) -> bool {
        self.eligible(other) ==> self.team_count(team) <= self.team_count(other)
    }

    /// `team` has fewer players than `other`, should `other` be eligible.
    pub open spec fn smaller(self, team: Team, other: Team) -> bool {
        self.eligible(other) ==> self.team_count(team) < self.team_count(other)
    }

    /// The least-populated eligible team, the first of them in the order
    /// red, blue, yellow, green; none when every team is full.
    pub open spec fn open_team(self) -> Option<Team> {
        if self.eligible(Team::Red) && self.no_larger(Team::Red, Team::Blue) && self.no_larger(
            Team::Red,
            Team::Yellow,
        ) && self.no_larger(Team::Red, Team::Green) {
            Some(Team::Red)
        } else if self.eligible(Team::Blue) && self.smaller(Team::Blue, Team::Red)
            && self.no_larger(Team::Blue, Team::Yellow) && self.no_larger(Team::Blue, Team::Green) {
            Some(Team::Blue)
        } else if self.eligible(Team::Yellow) && self.smaller(Team::Yellow, Team::Red)
            && self.smaller(Team::Yellow, Team::Blue) && self.no_larger(Team::Yellow, Team::Green) {
            Some(Team::Yellow)
        } else if self.eligible(Team::Green) {
            Some(Team::Green)
        } else {
            None
        }
    }

    /// The team that the next player to join is put on.
    pub open spec fn joining_team(self) -> Team {
        match self.open_team() {
            Some(t) => t,
            None => Team::Red,
        }
    }

    /// The match after a new player was given a team.
    pub open spec fn team_assigned(self) -> GameView {
        match self.open_team() {
            Some(team) => self.with_team_count(team, bumped(self.team_count(team))),
            None => self,
        }
    }

    /// The match with its team counts taken from the players.
    pub open spec fn recounted(self) -> GameView {
        GameView {
            red_team_count: capped(team_size(self.players, Team::Red, self.players.len())),
            blue_team_count: capped(team_size(self.players, Team::Blue, self.players.len())),
            yellow_team_count: capped(team_size(self.players, Team::Yellow, self.players.len())),
            green_team_count: capped(team_size(self.players, Team::Green, self.players.len())),
            ..self
        }
    }

    /// The ball after the player `player_id` left: dropped, if that player held it.
    pub open spec fn ball_without(self, player_id: u32) -> Ball {
        if self.ball.grabbed && self.ball.owner == Some(player_id) {
            Ball { grabbed: false, owner: None, grab_cooldown: DROP_GRAB_COOLDOWN_MS, ..self.ball }
        } else {
            self.ball
        }
    }

    /// The match after the player `player_id` left. A player who is not in
    /// the match leaves it unchanged.
    pub open spec fn without_player(self, player_id: u32) -> GameView {
        match lookup(self.players, player_id) {
            Some(i) => {
                let team = self.players[i].team;
                GameView {
                    players: self.players.remove(i),
                    ball: self.ball_without(player_id),
                    events: self.events.push(GameEvent::PlayerLeave { player_id }),
                    ..self.with_team_count(team, lowered(self.team_count(team)))
                }
            },
            None => self,
        }
    }

    /// The match after a player joined under the name `display_name`, at
    /// the spawn position `position`. Nobody joins once the ids are used up.
    pub open spec fn with_player(self, display_name: String, position: (int, int)) -> GameView {
        if self.next_id == u32::MAX {
            self
        } else {
            let assigned = self.team_assigned();
            let team = match self.open_team() {
                Some(t) => t,
                None => Team::Red,
            };
            let is_host = self.players.len() == 0;
            let player = Player { is_host, ..Player::fresh(self.next_id, team, display_name, position) };
            GameView {
                players: self.players.push(player),
                next_id: (self.next_id + 1) as u32,
                events: self.events.push(
                    GameEvent::PlayerJoin { player_id: self.next_id, team, is_host },
                ),
                ..assigned
            }
        }
    }
}

impl Game {
    /// The match satisfies its invariant.
    pub open spec fn wf(&self) -> bool {
        self@.wf()
    }

    /// A match on `map` with nobody in it.
    pub fn new(config: GameConfig, map: Vec<MapObject>) -> (r: Game)
        requires
            config.wf(),
            map_wf(map@),
        ensures
            r@ == GameView::initial(config, map@),
            r.wf(),
    {
        let ball = Ball::new(config.field_width / 2, config.field_height / 2);
        proof {
            assert(0 * 0 + 0 * 0 == 0) by (nonlinear_arith);
        }
        Game {
            config,
            map,
            ball,
            players: Vec::new(),
            next_id: 1,
            team1_score: 0,
            team2_score: 0,
            team3_score: 0,
            team4_score: 0,
            goal_cooldown: 0,
            red_team_count: 0,
            blue_team_count: 0,
            yellow_team_count: 0,
            green_team_count: 0,
            projectiles: Vec::new(),
            next_projectile_id: 1,
            events: Vec::new(),
        }
    }

    /// A match on `map`, or nothing when the field or the map is not valid.
    pub fn create(config: GameConfig, map: Vec<MapObject>) -> (r: Option<Game>)
        ensures
            match r {
                Some(game) => config.wf() && map_wf(map@) && game@ == GameView::initial(config, map@)
                    && game.wf(),
                None => !(config.wf() && map_wf(map@)),
            },
    {
        if config.is_valid() && validate_map(&map) {
            Some(Game::new(config, map))
        } else {
            None
        }
    }

    /// The index of the player with the given id.
    pub fn find_player(&self, player_id: u32) -> (r: Option<usize>)
        ensures
            match r {
                Some(i) => lookup(self.players@, player_id) == Some(i as int) && i
                    < self.players@.len() && self.players@[i as int].id == player_id,
                None => lookup(self.players@, player_id).is_none(),
            },
    {
        let n = self.players.len();
        let mut i: usize = 0;
        while i < n
            invariant
                i <= n,
                n == self.players@.len(),
                position_of(self.players@, player_id, i as nat).is_none(),
            decreases n - i,
        {
            if self.players[i].id == player_id {
                proof {
                    lemma_next_position(self.players@, player_id, i as nat, n as nat);
                }
                return Some(i);
            }
            i += 1;
        }
        None
    }

    /// The number of players counted on `team`.
    pub fn team_count(&self, team: Team) -> (r: u32)
        ensures
            r == self@.team_count(team),
    {
        match team {
            Team::Red => self.red_team_count,
            Team::Blue => self.blue_team_count,
            Team::Yellow => self.yellow_team_count,
            Team::Green => self.green_team_count,
        }
    }

    fn set_team_count(&mut self, team: Team, count: u32)
        ensures
            final(self)@ == old(self)@.with_team_count(team, count),
    {
        match team {
            Team::Red => self.red_team_count = count,
            Team::Blue => self.blue_team_count = count,
            Team::Yellow => self.yellow_team_count = count,
            Team::Green => self.green_team_count = count,
        }
    }

    /// Tells whether `team` takes part in the match and can take one more player.
    pub fn can_join_team(&self, team: Team) -> (r: bool)
        ensures
            r == self@.eligible(team),
    {
        let plays = match team {
            Team::Red => true,
            Team::Blue => true,
            _ => self.config.four_teams,
        };
        let room = match self.config.max_players_per_team {
            Some(max) => self.team_count(team) < max,
            None => true,
        };
        plays && room
    }

    /// The team a new player would be put on.
    pub fn open_team(&self) -> (r: Option<Team>)
        ensures
            r == self@.open_team(),
    {
        let mut best: Option<Team> = None;
        let mut best_count: u32 = 0;
        if self.can_join_team(Team::Red) {
            best = Some(Team::Red);
            best_count = self.red_team_count;
        }
        if self.can_join_team(Team::Blue) && (best.is_none() || self.blue_team_count < best_count) {
            best = Some(Team::Blue);
            best_count = self.blue_team_count;
        }
        if self.can_join_team(Team::Yellow) && (best.is_none() || self.yellow_team_count
            < best_count) {
            best = Some(Team::Yellow);
            best_count = self.yellow_team_count;
        }
        if self.can_join_team(Team::Green) && (best.is_none() || self.green_team_count
            < best_count) {
            best = Some(Team::Green);
        }
        best
    }

    /// Puts a new player on the least-populated team that can take one and
    /// counts the player there. When every team is full the player goes to
    /// the red team and no count changes.
    pub fn assign_team(&mut self) -> (team: Team)
        ensures
            final(self)@ == old(self)@.team_assigned(),
            team == (match old(self)@.open_team() {
                Some(t) => t,
                None => Team::Red,
            }),
            old(self).wf() ==> final(self).wf(),
    {
        match self.open_team() {
            Some(team) => {
                let count = self.team_count(team);
                let next = if count < u32::MAX {
                    count + 1
                } else {
                    count
                };
                self.set_team_count(team, next);
                team
            },
            None => Team::Red,
        }
    }

    /// Takes the team counts from the players in the match.
    pub fn recalculate_team_counts(&mut self)
        ensures
            final(self)@ == old(self)@.recounted(),
            old(self).wf() ==> final(self).wf(),
    {
        let n = self.players.len();
        let mut red: u32 = 0;
        let mut blue: u32 = 0;
        let mut yellow: u32 = 0;
        let mut green: u32 = 0;
        let mut i: usize = 0;
        while i < n
            invariant
                i <= n,
                n == self.players@.len(),
                red == capped(team_size(self.players@, Team::Red, i as nat)),
                blue == capped(team_size(self.players@, Team::Blue, i as nat)),
                yellow == capped(team_size(self.players@, Team::Yellow, i as nat)),
                green == capped(team_size(self.players@, Team::Green, i as nat)),
            decreases n - i,
        {
            match self.players[i].team {
                Team::Red => red = count_up(red),
                Team::Blue => blue = count_up(blue),
                Team::Yellow => yellow = count_up(yellow),
                Team::Green => green = count_up(green),
            }
            i += 1;
        }
        self.red_team_count = red;
        self.blue_team_count = blue;
        self.yellow_team_count = yellow;
        self.green_team_count = green;
    }

    /// Removes a player from the match: the player's team shrinks by one,
    /// and the ball is dropped if the player held it.
    pub fn remove_player(&mut self, player_id: u32)
        ensures
            final(self)@ == old(self)@.without_player(player_id),
            old(self).wf() ==> final(self).wf(),
    {
        match self.find_player(player_id) {
            Some(i) => {
                let team = self.players[i].team;
                let count = self.team_count(team);
                let next = if count > 0 {
                    count - 1
                } else {
                    count
                };
                self.set_team_count(team, next);
                if self.ball.grabbed && self.ball.owner == Some(player_id) {
                    self.ball.grabbed = false;
                    self.ball.owner = None;
                    self.ball.grab_cooldown = DROP_GRAB_COOLDOWN_MS;
                }
                let ghost before = self.players@;
                self.players.remove(i);
                self.events.push(GameEvent::PlayerLeave { player_id });
                proof {
                    if old(self).wf() {
                        lemma_leaving_keeps_valid(before, i as int, self.config, self.next_id);
                    }
                }
            },
            None => {},
        }
    }

    /// Lets a player into the match at the spawn position `position`: the
    /// player gets the next id and a team, and is the host if the match was
    /// empty. Returns the new player's id, or nothing once the ids are used up.
    pub fn add_player(&mut self, display_name: String, position: (i64, i64)) -> (r: Option<u32>)
        requires
            0 <= position.0 <= old(self).config.field_width,
            0 <= position.1 <= old(self).config.field_height,
        ensures
            final(self)@ == old(self)@.with_player(
                display_name,
                (position.0 as int, position.1 as int),
            ),
            r == (if old(self).next_id == u32::MAX {
                None
            } else {
                Some(old(self).next_id)
            }),
            old(self).wf() ==> final(self).wf(),
    {
        if self.next_id == u32::MAX {
            return None;
        }
        let id = self.next_id;
        let is_host = self.players.len() == 0;
        let team = self.assign_team();
        let player = Player {
            id,
            ship: Ship { x: position.0, y: position.1 },
            input: InputState::default(),
            last_seq: 0,
            velocity: (0, 0),
            shoot_cooldown: 0,
            grab_cooldown: 0,
            fuel: MAX_FUEL,
            team,
            display_name,
            is_host,
            rocket_cooldown: 0,
            pending_shot_id: None,
        };
        let ghost before = self.players@;
        self.players.push(player);
        self.next_id = id + 1;
        self.events.push(GameEvent::PlayerJoin { player_id: id, team, is_host });
        proof {
            if old(self).wf() {
                lemma_joining_keeps_valid(before, self.players@[before.len() as int], self.config, id);
            }
        }
        Some(id)
    }

    /// Lets a player into the match: the player gets the next id, the
    /// least-populated team that can take one, a place on that team's side
    /// of the centre at a height drawn at random, and the name `Player_`
    /// followed by the id. Returns the new player's id, or nothing once the
    /// ids are used up.
    pub fn join(&mut self) -> (r: Option<u32>)
        requires
            old(self).wf(),
        ensures
            exists|draw: int, name: String|
                name@ == default_name(old(self).next_id) && final(self)@ == #[trigger] old(self)@.with_player(
                    name,
                    spawn_position(
                        old(self)@.joining_team(),
                        goal_center(old(self).map@, old(self).config),
                        draw,
                        old(self).config,
                    ),
                ),
            r == (if old(self).next_id == u32::MAX {
                None
            } else {
                Some(old(self).next_id)
            }),
            final(self).wf(),
    {
        let team = match self.open_team() {
            Some(t) => t,
            None => Team::Red,
        };
        let center = center_of_goals(&self.map, &self.config);
        let draw = random_draw();
        let at = spawn_point(team, center, draw, &self.config);
        let name = numbered("Player_", self.next_id);
        let ghost chosen = name;
        let r = self.add_player(name, at);
        assert(self@ == old(self)@.with_player(
            chosen,
            spawn_position(
                old(self)@.joining_team(),
                goal_center(old(self).map@, old(self).config),
                draw as int,
                old(self).config,
            ),
        ));
        r
    }

    /// Tells whether the ball is where and as the invariant asks.
    fn ball_is_valid(&self) -> (r: bool)
        requires
            self.config.wf(),
        ensures
            r == self.ball.wf(self.config),
    {
        let b = &self.ball;
        if !(0 <= b.x && b.x <= self.config.field_width && 0 <= b.y && b.y
            <= self.config.field_height) {
            return false;
        }
        if !(-MAX_BALL_SPEED <= b.vx && b.vx <= MAX_BALL_SPEED && -MAX_BALL_SPEED <= b.vy && b.vy
            <= MAX_BALL_SPEED) {
            proof {
                if b.speed_ok() {
                    lemma_speed_components(b.vx as int, b.vy as int);
                }
            }
            return false;
        }
        if norm2_of(b.vx, b.vy) > (MAX_BALL_SPEED * MAX_BALL_SPEED) as u64 {
            return false;
        }
        if b.grabbed != b.owner.is_some() {
            return false;
        }
        if b.grabbed && (b.vx != 0 || b.vy != 0) {
            return false;
        }
        b.shot_clock <= SHOT_CLOCK_MS
    }

    /// Tells whether the player at index `i` is valid and shares its id
    /// with none of the players before it.
    fn player_is_valid(&self, i: usize) -> (r: bool)
        requires
            i < self.players@.len(),
        ensures
            r == (self.players@[i as int].wf(self.config) && self.players@[i as int].id
                < self.next_id && forall|j: int|
                0 <= j < i ==> (#[trigger] self.players@[j]).id != self.players@[i as int].id),
    {
        let p = &self.players[i];
        let in_field = 0 <= p.ship.x && p.ship.x <= self.config.field_width && 0 <= p.ship.y
            && p.ship.y <= self.config.field_height;
        let slow = -SPEED_LIMIT <= p.velocity.0 && p.velocity.0 <= SPEED_LIMIT && -SPEED_LIMIT
            <= p.velocity.1 && p.velocity.1 <= SPEED_LIMIT;
        if !(in_field && slow && p.fuel <= MAX_FUEL && p.id < self.next_id) {
            return false;
        }
        let mut j: usize = 0;
        while j < i
            invariant
                j <= i,
                i < self.players@.len(),
                forall|k: int|
                    0 <= k < j ==> (#[trigger] self.players@[k]).id != self.players@[i as int].id,
            decreases i - j,
        {
            if self.players[j].id == self.players[i].id {
                return false;
            }
            j += 1;
        }
        true
    }

    /// Tells whether the match satisfies its invariant. A match made by
    /// `create` and changed by the functions of this library always does;
    /// one whose fields were written directly may not.
    pub fn is_well_formed(&self) -> (r: bool)
        ensures
            r == self.wf(),
    {
        if !self.config.is_valid() || !validate_map(&self.map) {
            return false;
        }
        if !self.ball_is_valid() {
            return false;
        }
        let n = self.players.len();
        let mut i: usize = 0;
        while i < n
            invariant
                i <= n,
                n == self.players@.len(),
                forall|a: int| 0 <= a < i ==> (#[trigger] self.players@[a]).wf(self.config),
                forall|a: int| 0 <= a < i ==> (#[trigger] self.players@[a]).id < self.next_id,
                forall|a: int, b: int|
                    0 <= a < b < i ==> (#[trigger] self.players@[a]).id != (
                    #[trigger] self.players@[b]).id,
            decreases n - i,
        {
            if !self.player_is_valid(i) {
                return false;
            }
            i += 1;
        }
        let m = self.projectiles.len();
        let mut k: usize = 0;
        while k < m
            invariant
                k <= m,
                m == self.projectiles@.len(),
                self.config.wf(),
                forall|a: int| 0 <= a < k ==> (#[trigger] self.projectiles@[a]).wf(self.config),
            decreases m - k,
        {
            let q = &self.projectiles[k];
            if !(-PROJECTILE_OFFSET <= q.x && q.x <= self.config.field_width + PROJECTILE_OFFSET
                && -PROJECTILE_OFFSET <= q.y && q.y <= self.config.field_height + PROJECTILE_OFFSET
                && -SPEED_LIMIT <= q.vx && q.vx <= SPEED_LIMIT && -SPEED_LIMIT <= q.vy && q.vy
                <= SPEED_LIMIT) {
                return false;
            }
            k += 1;
        }
        true
    }

    /// Hands out the events raised since the last call, oldest first.
    pub fn take_events(&mut self) -> (r: Vec<GameEvent>)
        ensures
            r@ == old(self)@.events,
            final(self)@ == (GameView { events: Seq::empty(), ..old(self)@ }),
            old(self).wf() ==> final(self).wf(),
    {
        let mut out: Vec<GameEvent> = Vec::new();
        core::mem::swap(&mut out, &mut self.events);
        out
    }
}

/// Where no two players share an id, the player with a given id is found
/// at the index at which it stands.
pub proof fn lemma_lookup_finds(players: Seq<Player>, id: u32, i: int)
    requires
        0 <= i < players.len(),
        players[i].id == id,
        ids_distinct(players),
    ensures
        lookup(players, id) == Some(i),
{
    lemma_position_of(players, id, players.len());
}

/// An id that no player has is not found.
pub proof fn lemma_lookup_misses(players: Seq<Player>, id: u32)
    requires
        forall|j: int| 0 <= j < players.len() ==> (#[trigger] players[j]).id != id,
    ensures
        lookup(players, id).is_none(),
{
    lemma_position_of(players, id, players.len());
}

/// The players of a valid match without one of them are valid players.
pub proof fn lemma_leaving_keeps_valid(before: Seq<Player>, i: int, config: GameConfig, next_id: u32)
    requires
        0 <= i < before.len(),
        players_wf(before, config),
        ids_distinct(before),
        ids_below(before, next_id),
    ensures
        players_wf(before.remove(i), config),
        ids_distinct(before.remove(i)),
        ids_below(before.remove(i), next_id),
{
    let after = before.remove(i);
    assert forall|a: int| 0 <= a < after.len() implies (#[trigger] after[a]).wf(config) by {
        assert(before[if a < i { a } else { a + 1 }].wf(config));
    }
    assert forall|a: int, b: int| 0 <= a < b < after.len() implies (#[trigger] after[a]).id != (
    #[trigger] after[b]).id by {
        let a2 = if a < i { a } else { a + 1 };
        let b2 = if b < i { b } else { b + 1 };
        assert(before[a2].id != before[b2].id);
    }
    assert forall|a: int| 0 <= a < after.len() implies (#[trigger] after[a]).id < next_id by {
        assert(before[if a < i { a } else { a + 1 }].id < next_id);
    }
}

/// The players of a valid match with one more, who is valid and has the
/// next id, are valid players with ids below the id after that.
pub proof fn lemma_joining_keeps_valid(before: Seq<Player>, player: Player, config: GameConfig, id: u32)
    requires
        players_wf(before, config),
        ids_distinct(before),
        ids_below(before, id),
        player.wf(config),
        player.id == id,
        id < u32::MAX,
    ensures
        players_wf(before.push(player), config),
        ids_distinct(before.push(player)),
        ids_below(before.push(player), (id + 1) as u32),
{
    let after = before.push(player);
    assert forall|a: int| 0 <= a < after.len() implies (#[trigger] after[a]).wf(config) by {
        if a < before.len() {
            assert(before[a].wf(config));
        }
    }
    assert forall|a: int, b: int| 0 <= a < b < after.len() implies (#[trigger] after[a]).id != (
    #[trigger] after[b]).id by {
        assert(before[a].id < id);
        if b < before.len() {
            assert(before[a].id != before[b].id);
        }
    }
    assert forall|a: int| 0 <= a < after.len() implies (#[trigger] after[a]).id < id + 1 by {
        if a < before.len() {
            assert(before[a].id < id);
        }
    }
}

/// Players who keep their ids keep them distinct and below the next id.
pub proof fn lemma_ids_kept(before: Seq<Player>, after: Seq<Player>, next_id: u32)
    requires
        after.len() == before.len(),
        forall|i: int| 0 <= i < before.len() ==> (#[trigger] after[i]).id == before[i].id,
        ids_distinct(before),
        ids_below(before, next_id),
    ensures
        ids_distinct(after),
        ids_below(after, next_id),
{
    assert forall|a: int, b: int| 0 <= a < b < after.len() implies (#[trigger] after[a]).id != (
    #[trigger] after[b]).id by {
        assert(before[a].id != before[b].id);
    }
    assert forall|a: int| 0 <= a < after.len() implies (#[trigger] after[a]).id < next_id by {
        assert(before[a].id < next_id);
    }
}

/// Players who keep their ids and of whom each stays valid make a valid
/// list of players again.
pub proof fn lemma_players_stay_valid(
    before: Seq<Player>,
    after: Seq<Player>,
    config: GameConfig,
    next_id: u32,
)
    requires
        after.len() == before.len(),
        forall|i: int| 0 <= i < before.len() ==> (#[trigger] after[i]).id == before[i].id,
        forall|i: int|
            0 <= i < before.len() && before[i].wf(config) ==> (#[trigger] after[i]).wf(config),
        players_wf(before, config),
        ids_distinct(before),
        ids_below(before, next_id),
    ensures
        players_wf(after, config),
        ids_distinct(after),
        ids_below(after, next_id),
{
    lemma_ids_kept(before, after, next_id);
    assert forall|a: int| 0 <= a < after.len() implies (#[trigger] after[a]).wf(config) by {
        assert(before[a].wf(config));
    }
}

/// In a valid match a held ball has an owner and does not move.
pub proof fn lemma_held_ball_rests(game: GameView)
    requires
        game.wf(),
    ensures
        game.ball.grabbed ==> game.ball.owner.is_some() && game.ball.vx == 0 && game.ball.vy == 0,
{
}

/// One more on a counter that stops at the largest value.
pub fn count_up(count: u32) -> (r: u32)
    ensures
        r == bumped(count),
{
    if count < u32::MAX {
        count + 1
    } else {
        count
    }
}

/// The first player with the id sought stays the first when more players are looked at.
pub proof fn lemma_next_position(players: Seq<Player>, id: u32, i: nat, n: nat)
    requires
        i < n <= players.len(),
        position_of(players, id, i).is_none(),
        players[i as int].id == id,
    ensures
        position_of(players, id, n) == Some(i as int),
    decreases n - i,
{
    if n > i + 1 {
        lemma_next_position(players, id, i, (n - 1) as nat);
    } else {
        assert(position_of(players, id, (i + 1) as nat) == Some(i as int));
    }
}

} // verus!
