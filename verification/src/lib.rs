//! Authoritative simulation core of a team ball game: ships chase a ball,
//! carry it, shoot it at the goal zones of the other teams, and fire
//! rockets at each other.
//!
//! A tick is deterministic. Positions, speeds and times are integers (see
//! [`fixed`]), a match is one value ([`game::Game`]) that is advanced tick
//! by tick ([`game::Game::update`]), and every function that changes a
//! match says exactly what the match is afterwards, over its mathematical
//! view ([`game::GameView`]). A valid match stays valid: the ball and the
//! ships stay in the field, the ball keeps under its top speed, and a held
//! ball has an owner and rests.
//!
//! The phases of a tick are found in
//! [`movement`] (cooldowns, steering, walls), [`possession`] (the shot
//! clock, shots, picking the ball up), [`rocket`] (firing, flight and
//! explosions), [`contact`] (ships against ships), [`flight`] (the ball's
//! sub-steps) and [`scoring`] (goals and restarts). [`websocket`] holds what
//! a connection may ask of a match, [`dual_connection`] the choice of the
//! channel on which a message leaves, [`webrtc_signaling`] the signalling
//! between peers, and [`lobby`] the register of the matches that are open.

pub mod fixed;
pub mod text;
pub mod geometry;
pub mod player;
pub mod ball;
pub mod collision;
pub mod projectile;
pub mod events;
pub mod game;
pub mod movement;
pub mod possession;
pub mod contact;
pub mod scoring;
pub mod flight;
pub mod rocket;
pub mod tick;
pub mod websocket;
pub mod dual_connection;
pub mod webrtc_signaling;
pub mod webtransport_relay;
pub mod lobby;
