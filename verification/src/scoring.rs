//! Goals: detection, the score, and the restart that follows.

use crate::ball::{Ball, SHOT_CLOCK_MS};
use crate::events::GameEvent;
use crate::game::{bumped, lemma_players_stay_valid, Game, GameView};
use crate::geometry::{center_of_goals, goal_center, MapObject, ObjType, BALL_HEIGHT, BALL_WIDTH};
use crate::player::{random_draw, spawn_point, spawn_position, Player, Ship, Team};
use vstd::prelude::*;

verus! {

/// A goal counts from this far outside the goal zone.
pub const GOAL_MARGIN: i64 = 1_000;

/// Time after a goal during which no further goal counts.
pub const GOAL_COOLDOWN_MS: u32 = 2_000;

/// Time after a goal during which nobody may pick the ball up.
pub const GOAL_PICKUP_COOLDOWN_MS: u32 = 3_000;

/// Grab cooldown of the ball after a goal.
pub const GOAL_GRAB_COOLDOWN_MS: u32 = 500;

/// Time after a reset of the match during which no goal counts.
pub const RESET_COOLDOWN_MS: u32 = 5_000;

/// The count at which the countdown before play starts.
pub const COUNTDOWN_START: u32 = 5;

/// The ball's box, widened by the goal margin, reaches the zone.
pub open spec fn ball_in_zone(ball: Ball, zone: MapObject) -> bool {
    &&& ball.x + BALL_WIDTH / 2 >= zone.x - GOAL_MARGIN
    &&& ball.x - BALL_WIDTH / 2 <= zone.x + zone.width + GOAL_MARGIN
    &&& ball.y + BALL_HEIGHT / 2 >= zone.y - GOAL_MARGIN
    &&& ball.y - BALL_HEIGHT / 2 <= zone.y + zone.height + GOAL_MARGIN
}

/// The index of the first goal zone among the first `k` rectangles of the
/// map that the ball has reached.
pub open spec fn first_goal_reached(map: Seq<MapObject>, ball: Ball, k: nat) -> Option<int>
    decreases k,
{
    if k == 0 {
        None
    } else {
        match first_goal_reached(map, ball, (k - 1) as nat) {
            Some(i) => Some(i),
            None => if map[k - 1].is_goal() && ball_in_zone(ball, map[k - 1]) {
                Some(k - 1)
            } else {
                None
            },
        }
    }
}

/// The rectangle at index `i` is a goal zone that the ball has reached, and
/// the first such in the map.
pub open spec fn first_goal_at(map: Seq<MapObject>, ball: Ball, i: int) -> bool {
    &&& 0 <= i < map.len()
    &&& map[i].is_goal()
    &&& ball_in_zone(ball, map[i])
    &&& forall|j: int| 0 <= j < i ==> !((#[trigger] map[j]).is_goal() && ball_in_zone(ball, map[j]))
}

/// The ball has reached no goal zone of the map.
pub open spec fn no_goal_reached(map: Seq<MapObject>, ball: Ball) -> bool {
    forall|j: int| 0 <= j < map.len() ==> !((#[trigger] map[j]).is_goal() && ball_in_zone(ball, map[j]))
}

/// The draw for the player at index `i`: zero where none was made.
pub open spec fn draw_at(draws: Seq<u32>, i: int) -> int {
    if 0 <= i < draws.len() {
        draws[i] as int
    } else {
        0
    }
}

/// What comes after `count` in the countdown: one less, and nothing after zero.
pub open spec fn countdown_after(count: u32) -> Option<u32> {
    if count == 0 {
        None
    } else {
        Some((count - 1) as u32)
    }
}

/// The count that follows `count` in the countdown, each one second after
/// the one before; after zero play resumes and the countdown is over.
pub fn next_countdown(count: u32) -> (r: Option<u32>)
    ensures
        r == countdown_after(count),
{
    if count == 0 {
        None
    } else {
        Some(count - 1)
    }
}

impl GameView {
    /// The goals counted against `team`.
    pub open spec fn score(self, team: Team) -> u32 {
        match team {
            Team::Red => self.team1_score,
            Team::Blue => self.team2_score,
            Team::Yellow => self.team3_score,
            Team::Green => self.team4_score,
        }
    }

    /// The match with `score` goals counted against `team`.
    pub open spec fn with_score(self, team: Team, score: u32) -> GameView {
        match team {
            Team::Red => GameView { team1_score: score, ..self },
            Team::Blue => GameView { team2_score: score, ..self },
            Team::Yellow => GameView { team3_score: score, ..self },
            Team::Green => GameView { team4_score: score, ..self },
        }
    }

    /// The match after a goal against `team`: the goal is counted, the
    /// ball rests at the centre, nobody may pick it up for a while and then
    /// only `team`, and the countdown starts.
    pub open spec fn scored_against(self, team: Team) -> GameView {
        let counted = self.with_score(team, bumped(self.score(team)));
        let center = goal_center(self.map, self.config);
        GameView {
            ball: Ball {
                x: center.0 as i64,
                y: center.1 as i64,
                vx: 0,
                vy: 0,
                grabbed: false,
                owner: None,
                grab_cooldown: GOAL_GRAB_COOLDOWN_MS,
                pickup_cooldown: GOAL_PICKUP_COOLDOWN_MS,
                exclusive_team: Some(team),
                ..self.ball
            },
            goal_cooldown: GOAL_COOLDOWN_MS,
            events: self.events.push(
                GameEvent::Goal {
                    scored_on_team: team,
                    scorer: self.ball.last_shooter,
                    team1_score: counted.team1_score,
                    team2_score: counted.team2_score,
                    team3_score: counted.team3_score,
                    team4_score: counted.team4_score,
                },
            ).push(GameEvent::Countdown { count: COUNTDOWN_START }),
            ..counted
        }
    }

    /// The match after the goal zones were looked at. While the goal
    /// cooldown runs or the ball is held, nothing happens; otherwise the
    /// first zone that the ball has reached counts as a goal, and only that one.
    pub open spec fn goal_checked(self) -> GameView {
        if self.goal_cooldown > 0 || self.ball.grabbed {
            self
        } else {
            match first_goal_reached(self.map, self.ball, self.map.len()) {
                Some(i) => match self.map[i].obj_type {
                    ObjType::Goal(team) => self.scored_against(team),
                    _ => self,
                },
                None => self,
            }
        }
    }

    /// The player at index `i` after a reset for which `draw` was drawn
    /// at random: at rest at the spawn position of the player's team.
    pub open spec fn respawned(self, i: int, draw: int) -> Player {
        let p = self.players[i];
        let at = spawn_position(p.team, goal_center(self.map, self.config), draw, self.config);
        Player { ship: Ship { x: at.0 as i64, y: at.1 as i64 }, velocity: (0, 0), ..p }
    }

    /// The match after a reset for which `draws` were drawn at random, one
    /// for each player: the scores are zero, the ball rests free at the
    /// centre, every ship is back at its spawn position, no rocket is
    /// left, and the countdown starts.
    pub open spec fn reset(self, draws: Seq<u32>) -> GameView {
        let center = goal_center(self.map, self.config);
        GameView {
            team1_score: 0,
            team2_score: 0,
            team3_score: 0,
            team4_score: 0,
            ball: Ball {
                x: center.0 as i64,
                y: center.1 as i64,
                vx: 0,
                vy: 0,
                grabbed: false,
                owner: None,
                last_shooter: None,
                shot_clock: SHOT_CLOCK_MS,
                pickup_cooldown: 0,
                exclusive_team: None,
                ..self.ball
            },
            players: Seq::new(self.players.len(), |i: int| self.respawned(i, draw_at(draws, i))),
            goal_cooldown: RESET_COOLDOWN_MS,
            projectiles: Seq::empty(),
            events: self.events.push(
                GameEvent::GameReset { team1_score: 0, team2_score: 0, team3_score: 0, team4_score: 0 },
            ).push(GameEvent::Countdown { count: COUNTDOWN_START }),
            ..self
        }
    }
}

/// Tells whether the ball's box, widened by the goal margin, reaches the zone.
fn in_zone(ball: &Ball, zone: &MapObject) -> (r: bool)
    requires
        ball.placed(),
        zone.wf(),
    ensures
        r == ball_in_zone(*ball, *zone),
{
    ball.x + BALL_WIDTH / 2 >= zone.x - GOAL_MARGIN && ball.x - BALL_WIDTH / 2 <= zone.x
        + zone.width + GOAL_MARGIN && ball.y + BALL_HEIGHT / 2 >= zone.y - GOAL_MARGIN && ball.y
        - BALL_HEIGHT / 2 <= zone.y + zone.height + GOAL_MARGIN
}

impl Game {
    /// The goals counted against `team`.
    pub fn score(&self, team: Team) -> (r: u32)
        ensures
            r == self@.score(team),
    {
        match team {
            Team::Red => self.team1_score,
            Team::Blue => self.team2_score,
            Team::Yellow => self.team3_score,
            Team::Green => self.team4_score,
        }
    }

    /// Starts the countdown before play resumes: the first count is
    /// announced, and each further one follows a second after the one
    /// before (see `next_countdown`).
    pub fn start_countdown(&mut self)
        ensures
            final(self)@ == (GameView {
                events: old(self)@.events.push(GameEvent::Countdown { count: COUNTDOWN_START }),
                ..old(self)@
            }),
            old(self).wf() ==> final(self).wf(),
    {
        self.events.push(GameEvent::Countdown { count: COUNTDOWN_START });
    }

    /// Counts a goal against `team` and restarts play from the centre.
    fn score_against(&mut self, team: Team)
        requires
            old(self).wf(),
        ensures
            final(self)@ == old(self)@.scored_against(team),
            final(self).wf(),
    {
        let before = self.score(team);
        let after = if before < u32::MAX {
            before + 1
        } else {
            before
        };
        match team {
            Team::Red => self.team1_score = after,
            Team::Blue => self.team2_score = after,
            Team::Yellow => self.team3_score = after,
            Team::Green => self.team4_score = after,
        }
        let center = center_of_goals(&self.map, &self.config);
        self.ball.x = center.0;
        self.ball.y = center.1;
        self.ball.vx = 0;
        self.ball.vy = 0;
        self.ball.grabbed = false;
        self.ball.owner = None;
        self.ball.grab_cooldown = GOAL_GRAB_COOLDOWN_MS;
        self.ball.pickup_cooldown = GOAL_PICKUP_COOLDOWN_MS;
        self.ball.exclusive_team = Some(team);
        self.goal_cooldown = GOAL_COOLDOWN_MS;
        self.events.push(
            GameEvent::Goal {
                scored_on_team: team,
                scorer: self.ball.last_shooter,
                team1_score: self.team1_score,
                team2_score: self.team2_score,
                team3_score: self.team3_score,
                team4_score: self.team4_score,
            },
        );
        self.start_countdown();
    }

    /// Looks at the goal zones: unless the goal cooldown runs or the ball is
    /// held, the first zone that the ball has reached counts as a goal.
    pub fn check_goal_collision(&mut self)
        requires
            old(self).wf(),
        ensures
            final(self)@ == old(self)@.goal_checked(),
            final(self).wf(),
            old(self).goal_cooldown > 0 ==> final(self)@ == old(self)@,
            old(self).ball.grabbed ==> final(self)@ == old(self)@,
            no_goal_reached(old(self).map@, old(self).ball) ==> final(self)@ == old(self)@,
            forall|i: int|
                #![trigger old(self).map@[i]]
                old(self).goal_cooldown == 0 && !old(self).ball.grabbed && first_goal_at(
                    old(self).map@,
                    old(self).ball,
                    i,
                ) ==> (old(self).map@[i].obj_type matches ObjType::Goal(team) && final(self)@
                    == old(self)@.scored_against(team)),
    {
        proof {
            lemma_first_goal_reached(self.map@, self.ball, self.map@.len());
        }
        if self.goal_cooldown > 0 || self.ball.grabbed {
            return ;
        }
        let n = self.map.len();
        let mut i: usize = 0;
        while i < n
            invariant
                i <= n,
                n == self.map@.len(),
                self.wf(),
                *self == *old(self),
                self.goal_cooldown == 0,
                !self.ball.grabbed,
                first_goal_reached(self.map@, self.ball, i as nat).is_none(),
            decreases n - i,
        {
            assert(self.map@[i as int].wf());
            let zone = self.map[i];
            if let Some(team) = zone.goal_team() {
                if in_zone(&self.ball, &zone) {
                    proof {
                        lemma_first_goal_stays(self.map@, self.ball, i as nat, n as nat);
                        lemma_first_goal_reached(self.map@, self.ball, n as nat);
                    }
                    self.score_against(team);
                    return ;
                }
            }
            i += 1;
        }
    }

    /// Restarts the match with the given random draws, one for each
    /// player; a player beyond the draws gets the draw zero.
    pub fn reset_with(&mut self, draws: &Vec<u32>)
        requires
            old(self).wf(),
        ensures
            final(self)@ == old(self)@.reset(draws@),
            final(self).wf(),
    {
        self.team1_score = 0;
        self.team2_score = 0;
        self.team3_score = 0;
        self.team4_score = 0;
        let center = center_of_goals(&self.map, &self.config);
        self.ball.x = center.0;
        self.ball.y = center.1;
        self.ball.vx = 0;
        self.ball.vy = 0;
        self.ball.grabbed = false;
        self.ball.owner = None;
        self.ball.last_shooter = None;
        self.ball.shot_clock = SHOT_CLOCK_MS;
        self.ball.pickup_cooldown = 0;
        self.ball.exclusive_team = None;
        let config = self.config;
        let n = self.players.len();
        let ghost start = old(self)@;
        let mut i: usize = 0;
        while i < n
            invariant
                i <= n,
                n == self.players@.len(),
                n == start.players.len(),
                start == old(self)@,
                start.wf(),
                config == start.config,
                config.wf(),
                (center.0 as int, center.1 as int) == goal_center(start.map, start.config),
                0 <= center.0 <= config.field_width,
                0 <= center.1 <= config.field_height,
                self.players@ == Seq::new(
                    n as nat,
                    |k: int|
                        if k < i {
                            start.respawned(k, draw_at(draws@, k))
                        } else {
                            start.players[k]
                        },
                ),
                self.map == old(self).map,
                self.config == old(self).config,
                self.ball == (Ball {
                    x: center.0,
                    y: center.1,
                    vx: 0,
                    vy: 0,
                    grabbed: false,
                    owner: None,
                    last_shooter: None,
                    shot_clock: SHOT_CLOCK_MS,
                    pickup_cooldown: 0,
                    exclusive_team: None,
                    ..old(self).ball
                }),
                self.next_id == old(self).next_id,
                self.team1_score == 0,
                self.team2_score == 0,
                self.team3_score == 0,
                self.team4_score == 0,
                self.goal_cooldown == old(self).goal_cooldown,
                self.red_team_count == old(self).red_team_count,
                self.blue_team_count == old(self).blue_team_count,
                self.yellow_team_count == old(self).yellow_team_count,
                self.green_team_count == old(self).green_team_count,
                self.projectiles == old(self).projectiles,
                self.next_projectile_id == old(self).next_projectile_id,
                self.events == old(self).events,
            decreases n - i,
        {
            let draw: u32 = if i < draws.len() {
                draws[i]
            } else {
                0
            };
            let at = spawn_point(self.players[i].team, center, draw, &config);
            let p = &mut self.players[i];
            p.ship.x = at.0;
            p.ship.y = at.1;
            p.velocity = (0, 0);
            i += 1;
            assert(self.players@ =~= Seq::new(
                n as nat,
                |k: int|
                    if k < i {
                        start.respawned(k, draw_at(draws@, k))
                    } else {
                        start.players[k]
                    },
            ));
        }
        self.goal_cooldown = RESET_COOLDOWN_MS;
        self.projectiles.clear();
        self.events.push(
            GameEvent::GameReset { team1_score: 0, team2_score: 0, team3_score: 0, team4_score: 0 },
        );
        self.start_countdown();
        proof {
            let after = self.players@;
            let before = start.players;
            assert(after =~= start.reset(draws@).players);
            assert(self.projectiles@ =~= Seq::empty());
            lemma_players_stay_valid(before, after, self.config, self.next_id);
        }
    }

    /// Restarts the match: scores to zero, ball and ships back to their
    /// places, each ship at a height drawn at random.
    pub fn reset_game(&mut self)
        requires
            old(self).wf(),
        ensures
            exists|draws: Seq<u32>| final(self)@ == #[trigger] old(self)@.reset(draws),
            final(self).wf(),
    {
        let n = self.players.len();
        let mut draws: Vec<u32> = Vec::new();
        let mut i: usize = 0;
        while i < n
            invariant
                i <= n,
                draws@.len() == i,
            decreases n - i,
        {
            draws.push(random_draw());
            i += 1;
        }
        self.reset_with(&draws);
    }
}

/// What the search for the first goal zone reached finds, said without recursion.
pub proof fn lemma_first_goal_reached(map: Seq<MapObject>, ball: Ball, k: nat)
    requires
        k <= map.len(),
    ensures
        match first_goal_reached(map, ball, k) {
            Some(i) => i < k && first_goal_at(map, ball, i),
            None => forall|j: int|
                0 <= j < k ==> !((#[trigger] map[j]).is_goal() && ball_in_zone(ball, map[j])),
        },
    decreases k,
{
    if k > 0 {
        lemma_first_goal_reached(map, ball, (k - 1) as nat);
    }
}

/// Looking at the goal zones twice gives what looking once gives: after
/// a goal the goal cooldown runs, and while it runs no goal counts.
pub proof fn lemma_goal_check_idempotent(game: GameView)
    ensures
        game.goal_checked().goal_checked() == game.goal_checked(),
{
}

/// While the goal cooldown runs, looking at the goal zones changes
/// nothing: no score, and not the ball that was put back at the centre.
pub proof fn lemma_no_goal_during_cooldown(game: GameView)
    requires
        game.goal_cooldown > 0,
    ensures
        game.goal_checked() == game,
{
}

/// The first goal zone reached stays the first when more of the map is looked at.
pub proof fn lemma_first_goal_stays(map: Seq<MapObject>, ball: Ball, i: nat, n: nat)
    requires
        i < n <= map.len(),
        first_goal_reached(map, ball, i).is_none(),
        map[i as int].is_goal(),
        ball_in_zone(ball, map[i as int]),
    ensures
        first_goal_reached(map, ball, n) == Some(i as int),
    decreases n - i,
{
    if n > i + 1 {
        lemma_first_goal_stays(map, ball, i, (n - 1) as nat);
    } else {
        assert(first_goal_reached(map, ball, (i + 1) as nat) == Some(i as int));
    }
}

} // verus!
