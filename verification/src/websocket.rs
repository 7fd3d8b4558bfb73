//! What a connection may ask of the match: commands, shots that must not
//! be lost, a change of team, a reset.

use crate::geometry::GameConfig;
use crate::game::{bumped, count_up, lemma_lookup_finds, lemma_lookup_misses, lemma_players_stay_valid, lemma_position_of, lookup, lowered, Game, GameView};
use crate::player::{InputState, Player, Team};
use crate::text::{bytes_eq, contains, contains_bytes};
use vstd::prelude::*;
use vstd::string::StringSliceAdditionalSpecFns;

verus! {

/// One command of a client.
#[derive(Debug)]
pub struct InputMessage {
    pub left: bool,
    pub right: bool,
    pub up: bool,
    pub down: bool,
    pub seq: u32,
    pub shoot: Option<bool>,
    pub boost: Option<bool>,
    pub target_x: Option<i64>,
    pub target_y: Option<i64>,
    pub display_name: String,
}

/// What became of a command.
#[derive(Clone, Copy, Debug, PartialEq, Eq, Structural)]
pub enum InputOutcome {
    Accepted,
    /// The sequence number was not greater than the last one accepted.
    Stale,
    UnknownPlayer,
}

/// Why a shot that must not be lost was accepted or refused.
#[derive(Clone, Copy, Debug, PartialEq, Eq, Structural)]
pub enum ShootAckReason {
    Accepted,
    CooldownActive,
    NoBall,
    UnknownError,
}

/// The immediate answer to a shot that must not be lost.
#[derive(Clone, Copy, Debug, PartialEq, Eq, Structural)]
pub struct ShootAck {
    pub shot_id: u32,
    pub success: bool,
    pub reason: ShootAckReason,
}

/// What became of a request to change team.
#[derive(Clone, Copy, Debug, PartialEq, Eq, Structural)]
pub enum SwitchOutcome {
    Switched,
    AlreadyOnTeam,
    /// The team takes no part in the match or can take no more players.
    TeamFull,
    UnknownPlayer,
}

/// The text is the bare word `ping`.
pub open spec fn plain_ping(text: Seq<u8>) -> bool {
    text == "ping".spec_bytes()
}

/// The text announces, in its `type` field, a request to reset the match.
pub open spec fn announces_reset(text: Seq<u8>) -> bool {
    ||| contains_bytes(text, "\"type\":\"reset_game\"".spec_bytes())
    ||| contains_bytes(text, "\"type\": \"reset_game\"".spec_bytes())
}

/// The text announces, in its `type` field, a shot that must not be lost.
pub open spec fn announces_reliable_shoot(text: Seq<u8>) -> bool {
    contains_bytes(text, "\"type\":\"reliable_shoot\"".spec_bytes())
}

/// Tells whether the text is the bare word `ping`.
pub fn is_plain_ping(text: &str) -> (r: bool)
    ensures
        r == plain_ping(text.spec_bytes()),
{
    bytes_eq(text.as_bytes(), "ping".as_bytes())
}

/// Tells whether the text asks for a reset of the match.
pub fn is_reset_request(text: &str) -> (r: bool)
    ensures
        r == announces_reset(text.spec_bytes()),
{
    let t = text.as_bytes();
    contains(t, "\"type\":\"reset_game\"".as_bytes()) || contains(
        t,
        "\"type\": \"reset_game\"".as_bytes(),
    )
}

/// Tells whether the text orders a shot that must not be lost.
pub fn is_reliable_shoot(text: &str) -> (r: bool)
    ensures
        r == announces_reliable_shoot(text.spec_bytes()),
{
    contains(text.as_bytes(), "\"type\":\"reliable_shoot\"".as_bytes())
}

impl ShootAckReason {
    /// The word under which the reason is sent.
    pub fn wire_name(self) -> (r: &'static str)
        ensures
            r@ == match self {
                ShootAckReason::Accepted => "accepted"@,
                ShootAckReason::CooldownActive => "cooldown_active"@,
                ShootAckReason::NoBall => "no_ball"@,
                ShootAckReason::UnknownError => "unknown_error"@,
            },
    {
        match self {
            ShootAckReason::Accepted => "accepted",
            ShootAckReason::CooldownActive => "cooldown_active",
            ShootAckReason::NoBall => "no_ball",
            ShootAckReason::UnknownError => "unknown_error",
        }
    }
}

impl Player {
    /// The player after the command `msg` was accepted: the directions
    /// and the aim are those of the command, trigger and rocket trigger are
    /// set where the command speaks of them, a name that is not empty
    /// replaces the old one, and the sequence number is that of the command.
    pub open spec fn commanded(self, msg: InputMessage) -> Player {
        Player {
            input: InputState {
                left: msg.left,
                right: msg.right,
                up: msg.up,
                down: msg.down,
                shoot: match msg.shoot {
                    Some(s) => s,
                    None => self.input.shoot,
                },
                boost: match msg.boost {
                    Some(b) => b,
                    None => self.input.boost,
                },
                target_x: msg.target_x,
                target_y: msg.target_y,
            },
            display_name: if msg.display_name@.len() == 0 {
                self.display_name
            } else {
                msg.display_name
            },
            last_seq: msg.seq,
            ..self
        }
    }

    /// The player after a shot that must not be lost was accepted.
    pub open spec fn shot_ordered(self, shot_id: u32, target_x: i64, target_y: i64, seq: u32) -> Player {
        Player {
            input: InputState {
                shoot: true,
                target_x: Some(target_x),
                target_y: Some(target_y),
                ..self.input
            },
            last_seq: if seq > self.last_seq {
                seq
            } else {
                self.last_seq
            },
            pending_shot_id: Some(shot_id),
            ..self
        }
    }
}

impl GameView {
    /// The match after the command `msg` arrived from the player
    /// `player_id`. A command whose sequence number is not greater than the
    /// last one accepted changes nothing, and neither does one from a
    /// player who is not in the match.
    pub open spec fn input_applied(self, player_id: u32, msg: InputMessage) -> GameView {
        match lookup(self.players, player_id) {
            Some(i) => if msg.seq > self.players[i].last_seq {
                GameView { players: self.players.update(i, self.players[i].commanded(msg)), ..self }
            } else {
                self
            },
            None => self,
        }
    }

    /// The answer to a shot that must not be lost.
    pub open spec fn shoot_ack(self, player_id: u32) -> ShootAckReason {
        match lookup(self.players, player_id) {
            Some(i) => if self.players[i].shoot_cooldown > 0 {
                ShootAckReason::CooldownActive
            } else if !self.ball.held_by(player_id) {
                ShootAckReason::NoBall
            } else {
                ShootAckReason::Accepted
            },
            None => ShootAckReason::UnknownError,
        }
    }

    /// The match after a shot that must not be lost arrived: if it is
    /// accepted, the trigger of the player is pulled and the aim set.
    pub open spec fn shot_requested(
        self,
        player_id: u32,
        shot_id: u32,
        target_x: i64,
        target_y: i64,
        seq: u32,
    ) -> GameView {
        match lookup(self.players, player_id) {
            Some(i) => if self.shoot_ack(player_id) == ShootAckReason::Accepted {
                GameView {
                    players: self.players.update(
                        i,
                        self.players[i].shot_ordered(shot_id, target_x, target_y, seq),
                    ),
                    ..self
                }
            } else {
                self
            },
            None => self,
        }
    }

    /// What becomes of the request of the player `player_id` to change to `team`.
    pub open spec fn switch_outcome(self, player_id: u32, team: Team) -> SwitchOutcome {
        match lookup(self.players, player_id) {
            Some(i) => if self.players[i].team == team {
                SwitchOutcome::AlreadyOnTeam
            } else if self.recounted().eligible(team) {
                SwitchOutcome::Switched
            } else {
                SwitchOutcome::TeamFull
            },
            None => SwitchOutcome::UnknownPlayer,
        }
    }

    /// The match after the player `player_id` asked to change to `team`.
    /// The team counts are taken anew from the players; if the team can
    /// take the player, the player is moved and counted there. A request
    /// that is refused changes nothing.
    pub open spec fn team_switched(self, player_id: u32, team: Team) -> GameView {
        match lookup(self.players, player_id) {
            Some(i) => if self.switch_outcome(player_id, team) == SwitchOutcome::Switched {
                let counted = self.recounted();
                let from = self.players[i].team;
                let left = counted.with_team_count(from, lowered(counted.team_count(from)));
                GameView {
                    players: self.players.update(i, Player { team, ..self.players[i] }),
                    ..left.with_team_count(team, bumped(left.team_count(team)))
                }
            } else {
                self
            },
            None => self,
        }
    }

    /// The player `player_id` is the host of the match.
    pub open spec fn is_host(self, player_id: u32) -> bool {
        match lookup(self.players, player_id) {
            Some(i) => self.players[i].is_host,
            None => false,
        }
    }
}

/// The sequence number accepted last never goes down when a command arrives.
pub proof fn lemma_sequence_never_decreases(game: GameView, player_id: u32, msg: InputMessage)
    ensures
        game.input_applied(player_id, msg).players.len() == game.players.len(),
        forall|i: int|
            0 <= i < game.players.len() ==> (#[trigger] game.input_applied(
                player_id,
                msg,
            ).players[i]).last_seq >= game.players[i].last_seq,
{
    lemma_position_of(game.players, player_id, game.players.len());
}

/// A command whose sequence number is not greater than the last one
/// accepted from its sender leaves the whole match as it was.
pub proof fn lemma_stale_input_changes_nothing(game: GameView, player_id: u32, msg: InputMessage)
    requires
        lookup(game.players, player_id) matches Some(i) ==> msg.seq <= game.players[i].last_seq,
    ensures
        game.input_applied(player_id, msg) == game,
{
}

impl Player {
    /// Takes the command `msg` as the player's latest.
    pub fn command(&mut self, msg: InputMessage)
        ensures
            *final(self) == old(self).commanded(msg),
            forall|config: GameConfig| old(self).wf(config) ==> final(self).wf(config),
    {
        self.input.left = msg.left;
        self.input.right = msg.right;
        self.input.up = msg.up;
        self.input.down = msg.down;
        if let Some(shoot) = msg.shoot {
            self.input.shoot = shoot;
        }
        if let Some(boost) = msg.boost {
            self.input.boost = boost;
        }
        self.input.target_x = msg.target_x;
        self.input.target_y = msg.target_y;
        self.last_seq = msg.seq;
        if !msg.display_name.as_str().is_empty() {
            self.display_name = msg.display_name;
        }
    }
}

impl Game {
    /// Takes a command from the player `player_id`.
    #[verifier::rlimit(40)]
    pub fn apply_input(&mut self, player_id: u32, msg: InputMessage) -> (r: InputOutcome)
        requires
            old(self).wf(),
        ensures
            final(self)@ == old(self)@.input_applied(player_id, msg),
            final(self).wf(),
            r == (match lookup(old(self).players@, player_id) {
                Some(i) => if msg.seq > old(self).players@[i].last_seq {
                    InputOutcome::Accepted
                } else {
                    InputOutcome::Stale
                },
                None => InputOutcome::UnknownPlayer,
            }),
            r != InputOutcome::Accepted ==> final(self)@ == old(self)@,
            final(self).players@.len() == old(self).players@.len(),
            forall|i: int|
                0 <= i < old(self).players@.len() ==> (#[trigger] final(self).players@[i]).last_seq
                    >= old(self).players@[i].last_seq,
            forall|i: int|
                0 <= i < old(self).players@.len() && (#[trigger] old(self).players@[i]).id
                    == player_id ==> r == (if msg.seq > old(self).players@[i].last_seq {
                    InputOutcome::Accepted
                } else {
                    InputOutcome::Stale
                }),
            (forall|i: int|
                0 <= i < old(self).players@.len() ==> (#[trigger] old(self).players@[i]).id
                    != player_id) ==> r == InputOutcome::UnknownPlayer,
            forall|i: int|
                0 <= i < old(self).players@.len() && (#[trigger] old(self).players@[i]).id
                    == player_id && msg.seq > old(self).players@[i].last_seq ==> {
                    let p = final(self).players@[i];
                    &&& p.last_seq == msg.seq
                    &&& p.input.left == msg.left
                    &&& p.input.right == msg.right
                    &&& p.input.up == msg.up
                    &&& p.input.down == msg.down
                    &&& p.input.target_x == msg.target_x
                    &&& p.input.target_y == msg.target_y
                },
    {
        proof {
            assert forall|i: int|
                0 <= i < self.players@.len() && (#[trigger] self.players@[i]).id
                    == player_id implies lookup(self.players@, player_id) == Some(i) by {
                lemma_lookup_finds(self.players@, player_id, i);
            }
            if forall|i: int|
                0 <= i < self.players@.len() ==> (#[trigger] self.players@[i]).id != player_id {
                lemma_lookup_misses(self.players@, player_id);
            }
        }
        match self.find_player(player_id) {
            Some(i) => {
                assert(self.players@[i as int].wf(self.config));
                if msg.seq > self.players[i].last_seq {
                    self.players[i].command(msg);
                    proof {
                        let after = self.players@;
                        let before = old(self).players@;
                        assert(after =~= before.update(i as int, before[i as int].commanded(msg)));
                        lemma_players_stay_valid(before, after, self.config, self.next_id);
                    }
                    InputOutcome::Accepted
                } else {
                    InputOutcome::Stale
                }
            },
            None => InputOutcome::UnknownPlayer,
        }
    }

    /// Takes a shot that must not be lost from the player `player_id`, and
    /// answers at once whether it was accepted.
    pub fn reliable_shoot(
        &mut self,
        player_id: u32,
        shot_id: u32,
        target_x: i64,
        target_y: i64,
        seq: u32,
    ) -> (r: ShootAck)
        requires
            old(self).wf(),
        ensures
            final(self)@ == old(self)@.shot_requested(player_id, shot_id, target_x, target_y, seq),
            final(self).wf(),
            r == (ShootAck {
                shot_id,
                success: old(self)@.shoot_ack(player_id) == ShootAckReason::Accepted,
                reason: old(self)@.shoot_ack(player_id),
            }),
            final(self).players@.len() == old(self).players@.len(),
            forall|i: int|
                0 <= i < old(self).players@.len() ==> (#[trigger] final(self).players@[i]).last_seq
                    >= old(self).players@[i].last_seq,
    {
        let ball_available = self.ball.grabbed && self.ball.owner == Some(player_id);
        match self.find_player(player_id) {
            Some(i) => {
                assert(self.players@[i as int].wf(self.config));
                if self.players[i].shoot_cooldown > 0 {
                    ShootAck { shot_id, success: false, reason: ShootAckReason::CooldownActive }
                } else if !ball_available {
                    ShootAck { shot_id, success: false, reason: ShootAckReason::NoBall }
                } else {
                    let p = &mut self.players[i];
                    p.input.shoot = true;
                    p.input.target_x = Some(target_x);
                    p.input.target_y = Some(target_y);
                    if seq > p.last_seq {
                        p.last_seq = seq;
                    }
                    p.pending_shot_id = Some(shot_id);
                    proof {
                        let after = self.players@;
                        let before = old(self).players@;
                        assert(after =~= before.update(
                            i as int,
                            before[i as int].shot_ordered(shot_id, target_x, target_y, seq),
                        ));
                        lemma_players_stay_valid(before, after, self.config, self.next_id);
                    }
                    ShootAck { shot_id, success: true, reason: ShootAckReason::Accepted }
                }
            },
            None => ShootAck { shot_id, success: false, reason: ShootAckReason::UnknownError },
        }
    }

    /// Moves the player `player_id` to `team`, if the team can take the player.
    pub fn switch_team(&mut self, player_id: u32, team: Team) -> (r: SwitchOutcome)
        requires
            old(self).wf(),
        ensures
            final(self)@ == old(self)@.team_switched(player_id, team),
            final(self).wf(),
            r == old(self)@.switch_outcome(player_id, team),
            r != SwitchOutcome::Switched ==> final(self)@ == old(self)@,
    {
        match self.find_player(player_id) {
            Some(i) => {
                let from = self.players[i].team;
                if from == team {
                    return SwitchOutcome::AlreadyOnTeam;
                }
                let red = self.red_team_count;
                let blue = self.blue_team_count;
                let yellow = self.yellow_team_count;
                let green = self.green_team_count;
                self.recalculate_team_counts();
                if !self.can_join_team(team) {
                    self.red_team_count = red;
                    self.blue_team_count = blue;
                    self.yellow_team_count = yellow;
                    self.green_team_count = green;
                    return SwitchOutcome::TeamFull;
                }
                let from_count = self.team_count(from);
                let lower = if from_count > 0 {
                    from_count - 1
                } else {
                    from_count
                };
                match from {
                    Team::Red => self.red_team_count = lower,
                    Team::Blue => self.blue_team_count = lower,
                    Team::Yellow => self.yellow_team_count = lower,
                    Team::Green => self.green_team_count = lower,
                }
                let to_count = count_up(self.team_count(team));
                match team {
                    Team::Red => self.red_team_count = to_count,
                    Team::Blue => self.blue_team_count = to_count,
                    Team::Yellow => self.yellow_team_count = to_count,
                    Team::Green => self.green_team_count = to_count,
                }
                self.players[i].team = team;
                proof {
                    let after = self.players@;
                    let before = old(self).players@;
                    assert(after =~= before.update(i as int, Player { team, ..before[i as int] }));
                    lemma_players_stay_valid(before, after, self.config, self.next_id);
                }
                SwitchOutcome::Switched
            },
            None => SwitchOutcome::UnknownPlayer,
        }
    }

    /// Resets the match if the player `player_id` is its host, and says
    /// whether it did. For anyone else the match stays as it is.
    pub fn request_reset(&mut self, player_id: u32) -> (r: bool)
        requires
            old(self).wf(),
        ensures
            r == old(self)@.is_host(player_id),
            r ==> exists|draws: Seq<u32>| final(self)@ == #[trigger] old(self)@.reset(draws),
            !r ==> final(self)@ == old(self)@,
            final(self).wf(),
    {
        let host = match self.find_player(player_id) {
            Some(i) => self.players[i].is_host,
            None => false,
        };
        if host {
            self.reset_game();
        }
        host
    }
}

} // verus!
