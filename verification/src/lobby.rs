//! The lobby: the register of the matches that are open, and the messages
//! with which clients create, list and join them.

use crate::game::{bumped, count_up, Game, GameView};
use crate::geometry::{map_wf, validate_map, GameConfig, MapObject};
use crate::player::Player;
use crate::text::{decimal, numbered};
use vstd::prelude::*;
use vstd::string::StringExecFns;

verus! {

/// The port told to a client who joins a match that has none of its own.
pub const DEFAULT_GAME_PORT: u16 = 8081;

/// What the lobby tells a client about one game.
#[derive(Debug, Clone)]
pub struct GameInfo {
    pub id: String,
    pub name: String,
    pub player_count: usize,
    pub max_players: usize,
    pub is_public: bool,
}

/// A message between a client and the lobby.
#[derive(Debug)]
pub enum LobbyMessage {
    CreateGame { name: String, max_players: usize, is_public: bool, display_name: String },
    JoinGame { game_id: String, display_name: String },
    ListGames,
    GameList { games: Vec<GameInfo> },
    GameCreated { game_id: String, port: u16 },
    GameJoined { game_id: String, port: u16 },
    Error { message: String },
    Ping { timestamp: u64 },
    Pong { timestamp: u64 },
    Heartbeat,
}

/// Why a client could not join a match.
#[derive(Clone, Copy, Debug, PartialEq, Eq, Structural)]
pub enum LobbyError {
    GameFull,
    GameNotFound,
}

/// A match that is open, with what the lobby knows of it.
pub struct GameInstance {
    pub id: String,
    pub name: String,
    pub host_id: String,
    pub game: Game,
    /// The number of clients who joined through the lobby.
    pub player_count: usize,
    pub max_players: usize,
    pub is_public: bool,
    pub port: Option<u16>,
}

/// The register of the matches that are open. Every match is played on
/// the same field and map.
pub struct LobbyManager {
    pub games: Vec<GameInstance>,
    pub next_game_id: u32,
    pub config: GameConfig,
    pub map: Vec<MapObject>,
}

/// The id of the match that is created when the counter stands at `n`.
pub open spec fn game_id(n: u32) -> Seq<char> {
    "game_"@ + decimal(n as nat)
}

/// The index of the first of the first `k` matches whose id is `id`.
pub open spec fn game_at(games: Seq<GameInstance>, id: Seq<char>, k: nat) -> Option<int>
    decreases k,
{
    if k == 0 {
        None
    } else {
        match game_at(games, id, (k - 1) as nat) {
            Some(i) => Some(i),
            None => if games[k - 1].id@ == id {
                Some(k - 1)
            } else {
                None
            },
        }
    }
}

/// What the lobby tells about a match.
pub open spec fn info_of(g: GameInstance) -> GameInfo {
    GameInfo {
        id: g.id,
        name: g.name,
        player_count: g.player_count,
        max_players: g.max_players,
        is_public: g.is_public,
    }
}

/// What the lobby tells about the public matches among the first `k`.
pub open spec fn public_games(games: Seq<GameInstance>, k: nat) -> Seq<GameInfo>
    decreases k,
{
    if k == 0 {
        Seq::empty()
    } else {
        let rest = public_games(games, (k - 1) as nat);
        if games[k - 1].is_public {
            rest.push(info_of(games[k - 1]))
        } else {
            rest
        }
    }
}

/// The matches among the first `k` that have players in them.
pub open spec fn occupied_games(games: Seq<GameInstance>, k: nat) -> Seq<GameInstance>
    decreases k,
{
    if k == 0 {
        Seq::empty()
    } else {
        let rest = occupied_games(games, (k - 1) as nat);
        if games[k - 1].game.players@.len() > 0 {
            rest.push(games[k - 1])
        } else {
            rest
        }
    }
}

/// The matches with `made` among them: it takes the place of a match with
/// the same id, if there is one.
pub open spec fn with_game(games: Seq<GameInstance>, made: GameInstance) -> Seq<GameInstance> {
    match game_at(games, made.id@, games.len()) {
        Some(i) => games.update(i, made),
        None => games.push(made),
    }
}

/// The name under which a player is listed who has not chosen one.
pub open spec fn player_label(id: u32) -> Seq<char> {
    "Player "@ + decimal(id as nat)
}

/// The index of the first of the first `k` players who has not chosen a name.
pub open spec fn first_unnamed(players: Seq<Player>, k: nat) -> Option<int>
    decreases k,
{
    if k == 0 {
        None
    } else {
        match first_unnamed(players, (k - 1) as nat) {
            Some(i) => Some(i),
            None => if players[k - 1].display_name@ == player_label(players[k - 1].id) {
                Some(k - 1)
            } else {
                None
            },
        }
    }
}

/// The players after the player at index `i` was offered the name
/// `name`: the player takes it, unless it is empty.
pub open spec fn renamed(players: Seq<Player>, i: int, name: String) -> Seq<Player> {
    if name@.len() == 0 {
        players
    } else {
        players.update(i, Player { display_name: name, ..players[i] })
    }
}

/// A match after a client joined it under the name `name`: the first
/// player who has not chosen a name is offered it.
pub open spec fn joined_by(game: GameView, name: String) -> GameView {
    match first_unnamed(game.players, game.players.len()) {
        Some(k) => GameView { players: renamed(game.players, k, name), ..game },
        None => game,
    }
}

/// The first unnamed player stays the first when more players are looked at.
pub proof fn lemma_unnamed_stays(players: Seq<Player>, i: nat, n: nat)
    requires
        i < n <= players.len(),
        first_unnamed(players, i).is_none(),
        players[i as int].display_name@ == player_label(players[i as int].id),
    ensures
        first_unnamed(players, n) == Some(i as int),
    decreases n - i,
{
    if n > i + 1 {
        lemma_unnamed_stays(players, i, (n - 1) as nat);
    } else {
        assert(first_unnamed(players, (i + 1) as nat) == Some(i as int));
    }
}

/// The first match with the id sought stays the first when more are looked at.
pub proof fn lemma_game_stays(games: Seq<GameInstance>, id: Seq<char>, i: nat, n: nat)
    requires
        i < n <= games.len(),
        game_at(games, id, i).is_none(),
        games[i as int].id@ == id,
    ensures
        game_at(games, id, n) == Some(i as int),
    decreases n - i,
{
    if n > i + 1 {
        lemma_game_stays(games, id, i, (n - 1) as nat);
    } else {
        assert(game_at(games, id, (i + 1) as nat) == Some(i as int));
    }
}

impl LobbyError {
    /// The words in which the client is told of the error.
    pub fn message(self) -> (r: &'static str)
        ensures
            r@ == (match self {
                LobbyError::GameFull => "Game is full"@,
                LobbyError::GameNotFound => "Game not found"@,
            }),
    {
        match self {
            LobbyError::GameFull => "Game is full",
            LobbyError::GameNotFound => "Game not found",
        }
    }
}

impl Game {
    /// Offers the name `display_name` to the first player of the match, the host.
    pub fn name_host(&mut self, display_name: String)
        ensures
            final(self)@ == (if old(self).players@.len() > 0 {
                GameView { players: renamed(old(self).players@, 0, display_name), ..old(self)@ }
            } else {
                old(self)@
            }),
            old(self).wf() ==> final(self).wf(),
    {
        if self.players.len() > 0 {
            self.players[0].set_display_name(display_name);
            assert(self.players@ =~= renamed(old(self).players@, 0, display_name));
        }
    }

    /// Offers the name `display_name` to the first player who has not chosen one.
    pub fn name_unnamed(&mut self, display_name: String)
        ensures
            final(self)@ == (match first_unnamed(old(self).players@, old(self).players@.len()) {
                Some(i) => GameView {
                    players: renamed(old(self).players@, i, display_name),
                    ..old(self)@
                },
                None => old(self)@,
            }),
            old(self).wf() ==> final(self).wf(),
    {
        let n = self.players.len();
        let mut i: usize = 0;
        while i < n
            invariant
                i <= n,
                n == self.players@.len(),
                *self == *old(self),
                first_unnamed(self.players@, i as nat).is_none(),
            decreases n - i,
        {
            let label = numbered("Player ", self.players[i].id);
            if self.players[i].display_name == label {
                proof {
                    lemma_unnamed_stays(self.players@, i as nat, n as nat);
                }
                self.players[i].set_display_name(display_name);
                assert(self.players@ =~= renamed(old(self).players@, i as int, display_name));
                return ;
            }
            i += 1;
        }
    }
}

impl LobbyManager {
    /// The field and the map are valid, and so is every match.
    pub open spec fn wf(&self) -> bool {
        &&& self.config.wf()
        &&& map_wf(self.map@)
        &&& forall|i: int| 0 <= i < self.games@.len() ==> (#[trigger] self.games@[i]).game.wf()
    }

    /// A lobby without matches, whose matches will be played on `map`;
    /// the first match will be `game_1`.
    pub fn new(config: GameConfig, map: Vec<MapObject>) -> (r: LobbyManager)
        requires
            config.wf(),
            map_wf(map@),
        ensures
            r.games@ == Seq::<GameInstance>::empty(),
            r.next_game_id == 1,
            r.config == config,
            r.map == map,
            r.wf(),
    {
        LobbyManager { games: Vec::new(), next_game_id: 1, config, map }
    }

    /// Tells whether the lobby satisfies its invariant.
    pub fn is_well_formed(&self) -> (r: bool)
        ensures
            r == self.wf(),
    {
        if !self.config.is_valid() || !validate_map(&self.map) {
            return false;
        }
        let n = self.games.len();
        let mut i: usize = 0;
        while i < n
            invariant
                i <= n,
                n == self.games@.len(),
                forall|j: int| 0 <= j < i ==> (#[trigger] self.games@[j]).game.wf(),
            decreases n - i,
        {
            if !self.games[i].game.is_well_formed() {
                return false;
            }
            i += 1;
        }
        true
    }

    /// The index of the match with the id `game_id`.
    pub fn find_game(&self, game_id: &String) -> (r: Option<usize>)
        ensures
            match r {
                Some(i) => game_at(self.games@, game_id@, self.games@.len()) == Some(i as int) && i
                    < self.games@.len() && self.games@[i as int].id@ == game_id@,
                None => game_at(self.games@, game_id@, self.games@.len()).is_none(),
            },
    {
        let n = self.games.len();
        let mut i: usize = 0;
        while i < n
            invariant
                i <= n,
                n == self.games@.len(),
                game_at(self.games@, game_id@, i as nat).is_none(),
            decreases n - i,
        {
            if self.games[i].id == *game_id {
                proof {
                    lemma_game_stays(self.games@, game_id@, i as nat, n as nat);
                }
                return Some(i);
            }
            i += 1;
        }
        None
    }

    /// Puts a match into the register, in the place of one with the same
    /// id if there is one.
    fn put_game(&mut self, made: GameInstance)
        ensures
            final(self).games@ == with_game(old(self).games@, made),
            final(self).next_game_id == old(self).next_game_id,
            final(self).config == old(self).config,
            final(self).map == old(self).map,
            old(self).wf() && made.game.wf() ==> final(self).wf(),
    {
        match self.find_game(&made.id) {
            Some(i) => {
                self.games[i] = made;
            },
            None => {
                self.games.push(made);
            },
        }
    }

    /// Opens a match whose host is offered the name `display_name` and
    /// which is played on `port`, and returns its id.
    fn open_game(
        &mut self,
        name: String,
        max_players: usize,
        is_public: bool,
        host_id: String,
        display_name: String,
        port: Option<u16>,
    ) -> (id: String)
        requires
            old(self).wf(),
        ensures
            id@ == game_id(old(self).next_game_id),
            final(self).next_game_id == bumped(old(self).next_game_id),
            exists|game: Game|
                #![trigger game@]
                game@ == GameView::initial(old(self).config, old(self).map@) && final(self).games@
                    == with_game(
                    old(self).games@,
                    GameInstance {
                        id,
                        name,
                        host_id,
                        game,
                        player_count: 0,
                        max_players,
                        is_public,
                        port,
                    },
                ),
            final(self).config == old(self).config,
            final(self).map == old(self).map,
            final(self).wf(),
    {
        let id = numbered("game_", self.next_game_id);
        self.next_game_id = count_up(self.next_game_id);
        let n = self.map.len();
        let mut map: Vec<MapObject> = Vec::new();
        let mut i: usize = 0;
        while i < n
            invariant
                i <= n,
                n == self.map@.len(),
                map@ == self.map@.take(i as int),
            decreases n - i,
        {
            map.push(self.map[i]);
            i += 1;
            assert(map@ =~= self.map@.take(i as int));
        }
        assert(map@ =~= self.map@);
        let mut game = Game::new(self.config, map);
        game.name_host(display_name);
        let made = GameInstance {
            id: id.clone(),
            name,
            host_id,
            game,
            player_count: 0,
            max_players,
            is_public,
            port,
        };
        let ghost witness = made.game;
        self.put_game(made);
        assert(witness@ == GameView::initial(old(self).config, old(self).map@));
        id
    }

    /// Opens a match and returns its id, `game_` followed by the number of
    /// the match. The match is new: nobody is in it, nobody has joined it
    /// and it has no port yet.
    pub fn create_game(&mut self, name: String, max_players: usize, is_public: bool, host_id: String) -> (id:
        String)
        requires
            old(self).wf(),
        ensures
            id@ == game_id(old(self).next_game_id),
            final(self).next_game_id == bumped(old(self).next_game_id),
            exists|game: Game|
                #![trigger game@]
                game@ == GameView::initial(old(self).config, old(self).map@) && final(self).games@
                    == with_game(
                    old(self).games@,
                    GameInstance {
                        id,
                        name,
                        host_id,
                        game,
                        player_count: 0,
                        max_players,
                        is_public,
                        port: None,
                    },
                ),
            final(self).config == old(self).config,
            final(self).map == old(self).map,
            final(self).wf(),
    {
        self.open_game(name, max_players, is_public, host_id, String::new(), None)
    }

    /// What the lobby tells about its public matches, in the order in which
    /// they were opened.
    pub fn list_games(&self) -> (r: Vec<GameInfo>)
        ensures
            r@ == public_games(self.games@, self.games@.len()),
    {
        let n = self.games.len();
        let mut out: Vec<GameInfo> = Vec::new();
        let mut i: usize = 0;
        while i < n
            invariant
                i <= n,
                n == self.games@.len(),
                out@ == public_games(self.games@, i as nat),
            decreases n - i,
        {
            let g = &self.games[i];
            if g.is_public {
                out.push(
                    GameInfo {
                        id: g.id.clone(),
                        name: g.name.clone(),
                        player_count: g.player_count,
                        max_players: g.max_players,
                        is_public: g.is_public,
                    },
                );
            }
            i += 1;
        }
        out
    }

    /// Lets one more client into the match `game_id`, if the match exists
    /// and is not full.
    pub fn join_game(&mut self, game_id: &str, _player_id: &str) -> (r: Result<(), LobbyError>)
        ensures
            r == (match game_at(old(self).games@, game_id@, old(self).games@.len()) {
                Some(i) => if old(self).games@[i].player_count < old(self).games@[i].max_players {
                    Ok::<(), LobbyError>(())
                } else {
                    Err::<(), LobbyError>(LobbyError::GameFull)
                },
                None => Err::<(), LobbyError>(LobbyError::GameNotFound),
            }),
            final(self).games@ == (match game_at(old(self).games@, game_id@, old(self).games@.len()) {
                Some(i) => if old(self).games@[i].player_count < old(self).games@[i].max_players {
                    old(self).games@.update(
                        i,
                        GameInstance {
                            player_count: (old(self).games@[i].player_count + 1) as usize,
                            ..old(self).games@[i]
                        },
                    )
                } else {
                    old(self).games@
                },
                None => old(self).games@,
            }),
            final(self).next_game_id == old(self).next_game_id,
            final(self).config == old(self).config,
            final(self).map == old(self).map,
            old(self).wf() ==> final(self).wf(),
    {
        let key = String::from_str(game_id);
        match self.find_game(&key) {
            Some(i) => {
                if self.games[i].player_count >= self.games[i].max_players {
                    return Err(LobbyError::GameFull);
                }
                self.games[i].player_count = self.games[i].player_count + 1;
                assert(self.games@ =~= old(self).games@.update(
                    i as int,
                    GameInstance {
                        player_count: (old(self).games@[i as int].player_count + 1) as usize,
                        ..old(self).games@[i as int]
                    },
                ));
                Ok(())
            },
            None => Err(LobbyError::GameNotFound),
        }
    }

    /// Closes the match `game_id`, if there is one.
    pub fn remove_game(&mut self, game_id: &str)
        ensures
            final(self).games@ == (match game_at(old(self).games@, game_id@, old(self).games@.len()) {
                Some(i) => old(self).games@.remove(i),
                None => old(self).games@,
            }),
            final(self).next_game_id == old(self).next_game_id,
            final(self).config == old(self).config,
            final(self).map == old(self).map,
            old(self).wf() ==> final(self).wf(),
    {
        let key = String::from_str(game_id);
        if let Some(i) = self.find_game(&key) {
            self.games.remove(i);
        }
    }

    /// Closes every match that nobody plays in.
    pub fn cleanup_empty_games(&mut self)
        ensures
            final(self).games@ == occupied_games(old(self).games@, old(self).games@.len()),
            final(self).next_game_id == old(self).next_game_id,
            final(self).config == old(self).config,
            final(self).map == old(self).map,
            old(self).wf() ==> final(self).wf(),
    {
        let ghost before = self.games@;
        let ghost mut done: nat = 0;
        let mut i: usize = 0;
        assert(self.games@ =~= occupied_games(before, 0) + before.subrange(0, before.len() as int));
        while i < self.games.len()
            invariant
                done <= before.len(),
                i == occupied_games(before, done).len(),
                self.games@ == occupied_games(before, done) + before.subrange(
                    done as int,
                    before.len() as int,
                ),
                self.next_game_id == old(self).next_game_id,
                self.config == old(self).config,
                self.map == old(self).map,
                old(self).wf() ==> self.wf(),
            decreases before.len() - done,
        {
            assert(self.games@[i as int] == before[done as int]);
            if self.games[i].game.players.len() == 0 {
                self.games.remove(i);
            } else {
                i += 1;
            }
            proof {
                done = done + 1;
            }
            assert(self.games@ =~= occupied_games(before, done) + before.subrange(
                done as int,
                before.len() as int,
            ));
        }
        assert(self.games@ =~= occupied_games(before, before.len()));
    }

    /// Sets the port on which the match `game_id` is played, if there is such a match.
    pub fn set_port(&mut self, game_id: &String, port: u16)
        ensures
            final(self).games@ == (match game_at(old(self).games@, game_id@, old(self).games@.len()) {
                Some(i) => old(self).games@.update(
                    i,
                    GameInstance { port: Some(port), ..old(self).games@[i] },
                ),
                None => old(self).games@,
            }),
            final(self).next_game_id == old(self).next_game_id,
            final(self).config == old(self).config,
            final(self).map == old(self).map,
            old(self).wf() ==> final(self).wf(),
    {
        if let Some(i) = self.find_game(game_id) {
            self.games[i].port = Some(port);
            assert(self.games@ =~= old(self).games@.update(
                i as int,
                GameInstance { port: Some(port), ..old(self).games@[i as int] },
            ));
        }
    }

    /// Does what a client asks of the lobby and returns the answer, if
    /// there is one.
    ///
    /// A match that is created is played on `port`; its id and port are the
    /// answer. A client who joins a match is counted there, the first
    /// player of the match who has not chosen a name takes the client's,
    /// and the id and port of the match are the answer; if the match is
    /// full or unknown, the answer says so and nothing changes. A request
    /// for the list is answered with the public matches. No other message
    /// is answered or changes anything.
    pub fn process_lobby_message(&mut self, message: LobbyMessage, client_id: &str, port: u16) -> (reply:
        Option<LobbyMessage>)
        requires
            old(self).wf(),
        ensures
            final(self).wf(),
            final(self).config == old(self).config,
            final(self).map == old(self).map,
            match message {
                LobbyMessage::CreateGame { name, max_players, is_public, display_name } => {
                    &&& final(self).next_game_id == bumped(old(self).next_game_id)
                    &&& reply matches Some(LobbyMessage::GameCreated { game_id: id, port: p })
                    &&& p == port
                    &&& id@ == game_id(old(self).next_game_id)
                    &&& exists|game: Game, host_id: String|
                        #![trigger game@, host_id@]
                        game@ == GameView::initial(old(self).config, old(self).map@) && host_id@
                            == client_id@ && final(self).games@ == with_game(
                            old(self).games@,
                            GameInstance {
                                id,
                                name,
                                host_id,
                                game,
                                player_count: 0,
                                max_players,
                                is_public,
                                port: Some(port),
                            },
                        )
                },
                LobbyMessage::JoinGame { game_id: wanted, display_name } => {
                    &&& final(self).next_game_id == old(self).next_game_id
                    &&& match game_at(old(self).games@, wanted@, old(self).games@.len()) {
                        Some(i) => if old(self).games@[i].player_count < old(self).games@[i].max_players {
                            &&& reply matches Some(LobbyMessage::GameJoined { game_id: id, port: p })
                            &&& id == wanted
                            &&& p == (match old(self).games@[i].port {
                                Some(q) => q,
                                None => DEFAULT_GAME_PORT,
                            })
                            &&& exists|game: Game|
                                #![trigger game@]
                                game@ == joined_by(old(self).games@[i].game@, display_name) && final(self).games@ == old(self).games@.update(
                                    i,
                                    GameInstance {
                                        player_count: (old(self).games@[i].player_count + 1) as usize,
                                        game,
                                        ..old(self).games@[i]
                                    },
                                )
                        } else {
                            &&& reply matches Some(LobbyMessage::Error { message: text })
                            &&& text@ == "Game is full"@
                            &&& final(self).games@ == old(self).games@
                        },
                        None => {
                            &&& reply matches Some(LobbyMessage::Error { message: text })
                            &&& text@ == "Game not found"@
                            &&& final(self).games@ == old(self).games@
                        },
                    }
                },
                LobbyMessage::ListGames => {
                    &&& reply matches Some(LobbyMessage::GameList { games })
                    &&& games@ == public_games(old(self).games@, old(self).games@.len())
                    &&& final(self).games@ == old(self).games@
                    &&& final(self).next_game_id == old(self).next_game_id
                },
                _ => reply.is_none() && final(self).games@ == old(self).games@ && final(self).next_game_id == old(self).next_game_id,
            },
    {
        match message {
            LobbyMessage::CreateGame { name, max_players, is_public, display_name } => {
                let host_id = String::from_str(client_id);
                let id = self.open_game(
                    name,
                    max_players,
                    is_public,
                    host_id,
                    display_name,
                    Some(port),
                );
                Some(LobbyMessage::GameCreated { game_id: id, port })
            },
            LobbyMessage::JoinGame { game_id, display_name } => {
                let i = match self.find_game(&game_id) {
                    Some(i) => i,
                    None => {
                        return Some(
                            LobbyMessage::Error {
                                message: String::from_str(LobbyError::GameNotFound.message()),
                            },
                        );
                    },
                };
                if self.games[i].player_count >= self.games[i].max_players {
                    return Some(
                        LobbyMessage::Error { message: String::from_str(LobbyError::GameFull.message()) },
                    );
                }
                self.games[i].player_count = self.games[i].player_count + 1;
                self.games[i].game.name_unnamed(display_name);
                let port = match self.games[i].port {
                    Some(p) => p,
                    None => DEFAULT_GAME_PORT,
                };
                proof {
                    let game = self.games@[i as int].game;
                    assert(game@ == joined_by(old(self).games@[i as int].game@, display_name));
                    assert(self.games@ =~= old(self).games@.update(
                        i as int,
                        GameInstance {
                            player_count: (old(self).games@[i as int].player_count + 1) as usize,
                            game,
                            ..old(self).games@[i as int]
                        },
                    ));
                }
                Some(LobbyMessage::GameJoined { game_id, port })
            },
            LobbyMessage::ListGames => Some(LobbyMessage::GameList { games: self.list_games() }),
            _ => None,
        }
    }
}

} // verus!
