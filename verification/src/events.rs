//! The discrete events that a tick hands to the broadcast gateway.

use crate::dual_connection::MessageType;
use crate::player::Team;
use vstd::prelude::*;

verus! {

/// Something that happened in a tick and that every client must hear of.
#[derive(Clone, Copy, Debug, PartialEq, Eq, Structural)]
pub enum GameEvent {
    /// The ball entered the goal zone of `scored_on_team`.
    Goal {
        scored_on_team: Team,
        scorer: Option<u32>,
        team1_score: u32,
        team2_score: u32,
        team3_score: u32,
        team4_score: u32,
    },
    GameReset { team1_score: u32, team2_score: u32, team3_score: u32, team4_score: u32 },
    /// One step of the countdown before play resumes; `count` 0 starts play.
    Countdown { count: u32 },
    /// The shot clock ran out and the ball left its holder.
    AutoShoot { player_id: u32 },
    BallShot { player_id: u32 },
    /// The ball was knocked out of its holder's hands.
    BallKnocked { player_id: u32 },
    Explosion { x: i64, y: i64, radius: i64, player_id: u32 },
    ProjectileFired { player_id: u32 },
    PlayerJoin { player_id: u32, team: Team, is_host: bool },
    PlayerLeave { player_id: u32 },
}

impl GameEvent {
    /// The message class of the event.
    pub open spec fn class(self) -> MessageType {
        match self {
            GameEvent::Goal { .. } => MessageType::Goal,
            GameEvent::GameReset { .. } => MessageType::GameReset,
            GameEvent::Countdown { .. } => MessageType::Countdown,
            GameEvent::AutoShoot { .. } => MessageType::AutoShoot,
            GameEvent::BallShot { .. } => MessageType::BallShot,
            GameEvent::BallKnocked { .. } => MessageType::BallKnocked,
            GameEvent::Explosion { .. } => MessageType::Explosion,
            GameEvent::ProjectileFired { .. } => MessageType::ProjectileFired,
            GameEvent::PlayerJoin { .. } => MessageType::PlayerJoin,
            GameEvent::PlayerLeave { .. } => MessageType::PlayerLeave,
        }
    }

    /// The message class under which the event is sent. No event is
    /// latency-sensitive: each one must reach every client.
    pub fn message_type(&self) -> (r: MessageType)
        ensures
            r == self.class(),
            !r.is_latency_sensitive(),
    {
        match self {
            GameEvent::Goal { .. } => MessageType::Goal,
            GameEvent::GameReset { .. } => MessageType::GameReset,
            GameEvent::Countdown { .. } => MessageType::Countdown,
            GameEvent::AutoShoot { .. } => MessageType::AutoShoot,
            GameEvent::BallShot { .. } => MessageType::BallShot,
            GameEvent::BallKnocked { .. } => MessageType::BallKnocked,
            GameEvent::Explosion { .. } => MessageType::Explosion,
            GameEvent::ProjectileFired { .. } => MessageType::ProjectileFired,
            GameEvent::PlayerJoin { .. } => MessageType::PlayerJoin,
            GameEvent::PlayerLeave { .. } => MessageType::PlayerLeave,
        }
    }
}

} // verus!
