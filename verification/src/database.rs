//! The store: what each operation on the tables of rooms, games and
//! sessions does, and the implementation that keeps the tables in memory.

use crate::client::ClientSession;
use crate::client::SessionView;
use crate::game::ConfigError;
use crate::game::Game;
use crate::game::GameView;
use crate::game::Team;
use crate::game::word_values;
use crate::random::RandomSource;
use crate::server::Room;
use crate::server::RoomView;
use crate::store::first_place;
use crate::store::StoreView;
use crate::text::decimal;
use crate::text::decimal_string;
use std::collections::HashMap;
use vstd::prelude::*;
use vstd::std_specs::iter::IteratorSpec;

verus! {

broadcast use vstd::std_specs::hash::group_hash_axioms;

/// Why an operation on the store did not take place.
#[derive(Debug)]
pub enum DatabaseError {
    /// A room of that name is there already.
    RoomExists { name: String },
    /// No room of that name is there.
    RoomNotFound { name: String },
    /// No session of that identifier is there.
    SessionNotFound { id: u64 },
    /// No game of that identifier is there.
    GameNotFound { id: u64 },
}

/// The mathematical value of a `DatabaseError`.
pub enum DatabaseErrorView {
    RoomExists { name: Seq<char> },
    RoomNotFound { name: Seq<char> },
    SessionNotFound { id: u64 },
    GameNotFound { id: u64 },
}

impl View for DatabaseError {
    type V = DatabaseErrorView;

    open spec fn view(&self) -> DatabaseErrorView {
        match *self {
            DatabaseError::RoomExists { name } => DatabaseErrorView::RoomExists { name: name@ },
            DatabaseError::RoomNotFound { name } => DatabaseErrorView::RoomNotFound { name: name@ },
            DatabaseError::SessionNotFound { id } => DatabaseErrorView::SessionNotFound { id },
            DatabaseError::GameNotFound { id } => DatabaseErrorView::GameNotFound { id },
        }
    }
}

impl DatabaseErrorView {
    /// The error in words.
    pub open spec fn message(self) -> Seq<char> {
        match self {
            DatabaseErrorView::RoomExists { name } => "Room "@ + name + " already exists!"@,
            DatabaseErrorView::RoomNotFound { name } => "Could not find room with name '"@ + name
                + "'."@,
            DatabaseErrorView::SessionNotFound { id } => "Session with id "@ + decimal(id as nat)
                + " does not exist."@,
            DatabaseErrorView::GameNotFound { id } => "Could not find game with id '"@ + decimal(
                id as nat,
            ) + "'."@,
        }
    }
}

impl DatabaseError {
    /// The error in words.
    pub fn to_string(&self) -> (text: String)
        ensures
            text@ == self@.message(),
    {
        match self {
            DatabaseError::RoomExists { name } => {
                let mut text = String::from_str("Room ");
                text.append(name.as_str());
                text.append(" already exists!");
                text
            },
            DatabaseError::RoomNotFound { name } => {
                let mut text = String::from_str("Could not find room with name '");
                text.append(name.as_str());
                text.append("'.");
                text
            },
            DatabaseError::SessionNotFound { id } => {
                let mut text = String::from_str("Session with id ");
                text.append(decimal_string(*id).as_str());
                text.append(" does not exist.");
                text
            },
            DatabaseError::GameNotFound { id } => {
                let mut text = String::from_str("Could not find game with id '");
                text.append(decimal_string(*id).as_str());
                text.append("'.");
                text
            },
        }
    }
}

/// Whether `found` holds each room of `rooms` once, and nothing else.
pub open spec fn lists_rooms(found: Seq<Room>, rooms: Map<Seq<char>, RoomView>) -> bool {
    &&& forall|i: int|
        0 <= i < found.len() ==> {
            let room = #[trigger] found[i];
            rooms.contains_key(room.name@) && rooms[room.name@] == room@
        }
    &&& forall|i: int, j: int|
        0 <= i < j < found.len() ==> (#[trigger] found[i]).name@ != (#[trigger] found[j]).name@
    &&& forall|name: Seq<char>| #[trigger]
        rooms.contains_key(name) ==> exists|i: int|
            0 <= i < found.len() && (#[trigger] found[i]).name@ == name
}

/// Whether `found` holds the record of each session of `sessions` once,
/// and nothing else: there is a list of the identifiers of `sessions`,
/// each once, of which `found` holds the records in turn.
pub open spec fn lists_sessions(found: Seq<ClientSession>, sessions: Map<u64, SessionView>) -> bool {
    exists|ids: Seq<u64>| #[trigger] lists_sessions_by(found, sessions, ids)
}

/// Whether `ids` holds each identifier of `sessions` once and `found` the
/// records that belong to them, in the same order.
pub open spec fn lists_sessions_by(
    found: Seq<ClientSession>,
    sessions: Map<u64, SessionView>,
    ids: Seq<u64>,
) -> bool {
    &&& ids.no_duplicates()
    &&& ids.len() == found.len()
    &&& ids.to_set() == sessions.dom()
    &&& forall|i: int| 0 <= i < ids.len() ==> (#[trigger] found[i])@ == sessions[ids[i]]
}

/// A store of rooms, games and sessions. Each operation is atomic: it takes
/// place as a whole or, where it reports an error, not at all (the one
/// exception is spelled out at `remove_session`).
pub trait Database {
    /// The tables as mathematical maps.
    spec fn view(&self) -> StoreView;

    /// The words from which the store deals the boards of its games.
    spec fn words(&self) -> Seq<Seq<char>>;

    /// The invariant of the implementation.
    spec fn inv(&self) -> bool;

    /// Creates a vacant room with a new game, begun by the blue team, under
    /// an identifier that no game of the store bears. Fails where a room of
    /// that name exists.
    fn create_room(&mut self, name: &String) -> (created: Result<String, DatabaseError>)
        requires
            old(self).inv(),
        ensures
            final(self).inv(),
            final(self).words() == old(self).words(),
            match created {
                Ok(created_name) => {
                    let game_id = final(self)@.rooms[name@].game_id;
                    let game = final(self)@.games[game_id];
                    &&& created_name@ == name@
                    &&& !old(self)@.rooms.contains_key(name@)
                    &&& !old(self)@.games.contains_key(game_id)
                    &&& game.fresh(Team::BLUE, old(self).words())
                    &&& final(self)@ == old(self)@.create_room(name@, game_id, game)
                },
                Err(e) => {
                    &&& old(self)@.rooms.contains_key(name@)
                    &&& e@ == (DatabaseErrorView::RoomExists { name: name@ })
                    &&& final(self)@ == old(self)@
                },
            },
    ;

    /// Removes a room together with its game. Fails where no room of that
    /// name exists.
    fn remove_room(&mut self, name: &String) -> (removed: Result<(), DatabaseError>)
        requires
            old(self).inv(),
        ensures
            final(self).inv(),
            final(self).words() == old(self).words(),
            match removed {
                Ok(_) => {
                    &&& old(self)@.rooms.contains_key(name@)
                    &&& final(self)@ == old(self)@.remove_room(name@)
                },
                Err(e) => {
                    &&& !old(self)@.rooms.contains_key(name@)
                    &&& e@ == (DatabaseErrorView::RoomNotFound { name: name@ })
                    &&& final(self)@ == old(self)@
                },
            },
    ;

    /// A copy of the room of that name.
    fn get_room(&self, name: &String) -> (found: Result<Room, DatabaseError>)
        requires
            self.inv(),
        ensures
            match found {
                Ok(room) => self@.rooms.contains_key(name@) && room@ == self@.rooms[name@],
                Err(e) => {
                    &&& !self@.rooms.contains_key(name@)
                    &&& e@ == (DatabaseErrorView::RoomNotFound { name: name@ })
                },
            },
    ;

    /// Copies of all rooms, each once, in no particular order.
    fn get_rooms(&self) -> (found: Result<Vec<Room>, DatabaseError>)
        requires
            self.inv(),
        ensures
            found matches Ok(rooms) && lists_rooms(rooms@, self@.rooms),
    ;

    /// Copies of the records of all sessions, each once, in no particular
    /// order.
    fn get_sessions(&self) -> (found: Result<Vec<ClientSession>, DatabaseError>)
        requires
            self.inv(),
        ensures
            found matches Ok(sessions) && lists_sessions(sessions@, self@.sessions),
    ;

    /// A copy of the record of a session.
    fn get_session(&self, id: &u64) -> (found: Result<ClientSession, DatabaseError>)
        requires
            self.inv(),
        ensures
            match found {
                Ok(session) => self@.sessions.contains_key(*id) && session@ == self@.sessions[*id],
                Err(e) => {
                    &&& !self@.sessions.contains_key(*id)
                    &&& e@ == (DatabaseErrorView::SessionNotFound { id: *id })
                },
            },
    ;

    /// Overwrites the record of session `id`; the identifier of the record
    /// stays `id` whatever `session_update` says. Fails where no session of
    /// that identifier exists.
    fn update_session(&mut self, id: u64, session_update: &ClientSession) -> (updated: Result<
        (),
        DatabaseError,
    >)
        requires
            old(self).inv(),
        ensures
            final(self).inv(),
            final(self).words() == old(self).words(),
            match updated {
                Ok(_) => {
                    &&& old(self)@.sessions.contains_key(id)
                    &&& final(self)@ == old(self)@.update_session(id, session_update@)
                },
                Err(e) => {
                    &&& !old(self)@.sessions.contains_key(id)
                    &&& e@ == (DatabaseErrorView::SessionNotFound { id })
                    &&& final(self)@ == old(self)@
                },
            },
    ;

    /// Creates a session under an identifier that no session of the store
    /// bears, and appends it to the sessions of `room`. Fails where no room
    /// of that name exists.
    fn create_session(&mut self, room: &String) -> (created: Result<u64, DatabaseError>)
        requires
            old(self).inv(),
        ensures
            final(self).inv(),
            final(self).words() == old(self).words(),
            match created {
                Ok(id) => {
                    &&& old(self)@.rooms.contains_key(room@)
                    &&& !old(self)@.sessions.contains_key(id)
                    &&& final(self)@ == old(self)@.create_session(id, room@)
                },
                Err(e) => {
                    &&& !old(self)@.rooms.contains_key(room@)
                    &&& e@ == (DatabaseErrorView::RoomNotFound { name: room@ })
                    &&& final(self)@ == old(self)@
                },
            },
    ;

    /// Removes a session: its record, and its identifier from the list of
    /// its room. Fails, with the store unchanged, where no session of that
    /// identifier exists. Where the session exists but its room does not,
    /// the record is removed and the missing room is reported.
    fn remove_session(&mut self, session_id: u64) -> (removed: Result<(), DatabaseError>)
        requires
            old(self).inv(),
        ensures
            final(self).inv(),
            final(self).words() == old(self).words(),
            match removed {
                Ok(_) => {
                    &&& old(self)@.sessions.contains_key(session_id)
                    &&& old(self)@.rooms.contains_key(old(self)@.sessions[session_id].room)
                    &&& final(self)@ == old(self)@.remove_session(session_id)
                },
                Err(e) => if old(self)@.sessions.contains_key(session_id) {
                    &&& !old(self)@.rooms.contains_key(old(self)@.sessions[session_id].room)
                    &&& e@ == (DatabaseErrorView::RoomNotFound {
                        name: old(self)@.sessions[session_id].room,
                    })
                    &&& final(self)@ == old(self)@.forget_session(session_id)
                } else {
                    &&& e@ == (DatabaseErrorView::SessionNotFound { id: session_id })
                    &&& final(self)@ == old(self)@
                },
            },
    ;

    /// Overwrites a game. Fails where no game of that identifier exists.
    fn update_game(&mut self, game_id: u64, game_update: &Game) -> (updated: Result<
        (),
        DatabaseError,
    >)
        requires
            old(self).inv(),
        ensures
            final(self).inv(),
            final(self).words() == old(self).words(),
            match updated {
                Ok(_) => {
                    &&& old(self)@.games.contains_key(game_id)
                    &&& final(self)@ == old(self)@.update_game(game_id, game_update@)
                },
                Err(e) => {
                    &&& !old(self)@.games.contains_key(game_id)
                    &&& e@ == (DatabaseErrorView::GameNotFound { id: game_id })
                    &&& final(self)@ == old(self)@
                },
            },
    ;

    /// Flips a card of a game in place and returns a copy of the game that
    /// results. Fails where no game of that identifier exists. Where the
    /// game exists, it has to be valid and the flip allowed.
    fn flip_card(&mut self, game_id: u64, coord: (usize, usize)) -> (flipped: Result<
        Game,
        DatabaseError,
    >)
        requires
            old(self).inv(),
            old(self)@.games.contains_key(game_id) ==> {
                &&& old(self)@.games[game_id].wf()
                &&& old(self)@.games[game_id].can_flip(coord.0, coord.1)
            },
        ensures
            final(self).inv(),
            final(self).words() == old(self).words(),
            match flipped {
                Ok(game) => {
                    &&& old(self)@.games.contains_key(game_id)
                    &&& game@ == old(self)@.games[game_id].flip(coord.0, coord.1)
                    &&& final(self)@ == old(self)@.update_game(game_id, game@)
                },
                Err(e) => {
                    &&& !old(self)@.games.contains_key(game_id)
                    &&& e@ == (DatabaseErrorView::GameNotFound { id: game_id })
                    &&& final(self)@ == old(self)@
                },
            },
    ;

    /// A copy of a game.
    fn get_game(&self, game_id: u64) -> (found: Result<Game, DatabaseError>)
        requires
            self.inv(),
        ensures
            match found {
                Ok(game) => self@.games.contains_key(game_id) && game@ == self@.games[game_id],
                Err(e) => {
                    &&& !self@.games.contains_key(game_id)
                    &&& e@ == (DatabaseErrorView::GameNotFound { id: game_id })
                },
            },
    ;

    /// Passes the turn of a game in place and returns a copy of the game
    /// that results. Fails where no game of that identifier exists.
    fn next_turn(&mut self, game_id: u64) -> (passed: Result<Game, DatabaseError>)
        requires
            old(self).inv(),
        ensures
            final(self).inv(),
            final(self).words() == old(self).words(),
            match passed {
                Ok(game) => {
                    &&& old(self)@.games.contains_key(game_id)
                    &&& game@ == old(self)@.games[game_id].pass_turn()
                    &&& final(self)@ == old(self)@.update_game(game_id, game@)
                },
                Err(e) => {
                    &&& !old(self)@.games.contains_key(game_id)
                    &&& e@ == (DatabaseErrorView::GameNotFound { id: game_id })
                    &&& final(self)@ == old(self)@
                },
            },
    ;
}

/// The in-memory tables: rooms in a list in which no name occurs twice,
/// games and sessions in hash maps by identifier.
pub struct MemoryDatabaseTables {
    rooms: Vec<Room>,
    games: HashMap<u64, Game>,
    sessions: HashMap<u64, ClientSession>,
}

/// Whether some room of the list bears the name.
pub open spec fn named(rooms: Seq<Room>, name: Seq<char>) -> bool {
    exists|i: int| 0 <= i < rooms.len() && (#[trigger] rooms[i]).name@ == name
}

/// The place of a room that bears the name.
pub open spec fn place_of(rooms: Seq<Room>, name: Seq<char>) -> int {
    choose|i: int| 0 <= i < rooms.len() && (#[trigger] rooms[i]).name@ == name
}

/// Whether no two rooms of the list bear the same name.
pub open spec fn distinct_names(rooms: Seq<Room>) -> bool {
    forall|i: int, j: int|
        0 <= i < j < rooms.len() ==> (#[trigger] rooms[i]).name@ != (#[trigger] rooms[j]).name@
}

/// The rooms of a list by name.
pub open spec fn rooms_by_name(rooms: Seq<Room>) -> Map<Seq<char>, RoomView> {
    Map::new(|name: Seq<char>| named(rooms, name), |name: Seq<char>| rooms[place_of(rooms, name)]@)
}

/// The games of a table as values.
pub open spec fn game_values(games: Map<u64, Game>) -> Map<u64, GameView> {
    Map::new(|id: u64| games.contains_key(id), |id: u64| games[id]@)
}

/// The sessions of a table as values.
pub open spec fn session_values(sessions: Map<u64, ClientSession>) -> Map<u64, SessionView> {
    Map::new(|id: u64| sessions.contains_key(id), |id: u64| sessions[id]@)
}

impl View for MemoryDatabaseTables {
    type V = StoreView;

    closed spec fn view(&self) -> StoreView {
        StoreView {
            rooms: rooms_by_name(self.rooms@),
            games: game_values(self.games@),
            sessions: session_values(self.sessions@),
        }
    }
}

impl MemoryDatabaseTables {
    /// The invariant of the tables: no two rooms bear the same name.
    pub closed spec fn inv(&self) -> bool {
        distinct_names(self.rooms@)
    }

    /// Tables without any room, game or session.
    pub fn new() -> (tables: MemoryDatabaseTables)
        ensures
            tables.inv(),
            tables@ == StoreView::empty(),
    {
        let tables = MemoryDatabaseTables {
            rooms: Vec::new(),
            games: HashMap::new(),
            sessions: HashMap::new(),
        };
        proof {
            assert(tables@.rooms =~= Map::empty());
            assert(tables@.games =~= Map::empty());
            assert(tables@.sessions =~= Map::empty());
        }
        tables
    }
}

proof fn lemma_room_at(rooms: Seq<Room>, i: int)
    requires
        distinct_names(rooms),
        0 <= i < rooms.len(),
    ensures
        named(rooms, rooms[i].name@),
        place_of(rooms, rooms[i].name@) == i,
        rooms_by_name(rooms).contains_key(rooms[i].name@),
        rooms_by_name(rooms)[rooms[i].name@] == rooms[i]@,
{
    let j = place_of(rooms, rooms[i].name@);
    if j < i {
        assert(rooms[j].name@ != rooms[i].name@);
    } else if i < j {
        assert(rooms[i].name@ != rooms[j].name@);
    }
}

proof fn lemma_rooms_push(rooms: Seq<Room>, room: Room)
    requires
        distinct_names(rooms),
        !named(rooms, room.name@),
    ensures
        distinct_names(rooms.push(room)),
        rooms_by_name(rooms.push(room)) == rooms_by_name(rooms).insert(room.name@, room@),
{
    let more = rooms.push(room);
    assert forall|i: int, j: int| 0 <= i < j < more.len() implies (#[trigger] more[i]).name@ != (
    #[trigger] more[j]).name@ by {
        if j < rooms.len() {
            assert(rooms[i].name@ != rooms[j].name@);
        } else {
            assert(more[i] == rooms[i]);
        }
    }
    assert forall|name: Seq<char>| #[trigger]
        rooms_by_name(more).contains_key(name) == rooms_by_name(rooms).insert(
            room.name@,
            room@,
        ).contains_key(name) by {
        if named(rooms, name) {
            let i = place_of(rooms, name);
            assert(more[i] == rooms[i]);
        }
        if named(more, name) {
            let i = place_of(more, name);
            if i < rooms.len() {
                assert(more[i] == rooms[i]);
            }
        }
        assert(more[rooms.len() as int] == room);
    }
    assert forall|name: Seq<char>| #[trigger]
        rooms_by_name(more).contains_key(name) implies rooms_by_name(more)[name]
        == rooms_by_name(rooms).insert(room.name@, room@)[name] by {
        let i = place_of(more, name);
        lemma_room_at(more, i);
        if i < rooms.len() {
            assert(more[i] == rooms[i]);
            lemma_room_at(rooms, i);
        }
    }
    assert(rooms_by_name(more) =~= rooms_by_name(rooms).insert(room.name@, room@));
}

proof fn lemma_rooms_remove(rooms: Seq<Room>, i: int)
    requires
        distinct_names(rooms),
        0 <= i < rooms.len(),
    ensures
        distinct_names(rooms.remove(i)),
        rooms_by_name(rooms.remove(i)) == rooms_by_name(rooms).remove(rooms[i].name@),
{
    let fewer = rooms.remove(i);
    assert forall|a: int, b: int| 0 <= a < b < fewer.len() implies (#[trigger] fewer[a]).name@ != (
    #[trigger] fewer[b]).name@ by {
        let a0 = if a < i {
            a
        } else {
            a + 1
        };
        let b0 = if b < i {
            b
        } else {
            b + 1
        };
        assert(fewer[a] == rooms[a0]);
        assert(fewer[b] == rooms[b0]);
        assert(rooms[a0].name@ != rooms[b0].name@);
    }
    assert forall|name: Seq<char>| #[trigger]
        rooms_by_name(fewer).contains_key(name) == rooms_by_name(rooms).remove(
            rooms[i].name@,
        ).contains_key(name) by {
        if named(fewer, name) {
            let a = place_of(fewer, name);
            let a0 = if a < i {
                a
            } else {
                a + 1
            };
            assert(fewer[a] == rooms[a0]);
            lemma_room_at(rooms, a0);
            lemma_room_at(rooms, i);
        }
        if named(rooms, name) && name != rooms[i].name@ {
            let b = place_of(rooms, name);
            let b1 = if b < i {
                b
            } else {
                b - 1
            };
            assert(fewer[b1] == rooms[b]);
        }
    }
    assert forall|name: Seq<char>| #[trigger]
        rooms_by_name(fewer).contains_key(name) implies rooms_by_name(fewer)[name]
        == rooms_by_name(rooms).remove(rooms[i].name@)[name] by {
        let a = place_of(fewer, name);
        let a0 = if a < i {
            a
        } else {
            a + 1
        };
        lemma_room_at(fewer, a);
        assert(fewer[a] == rooms[a0]);
        lemma_room_at(rooms, a0);
    }
    assert(rooms_by_name(fewer) =~= rooms_by_name(rooms).remove(rooms[i].name@));
}

proof fn lemma_rooms_update(rooms: Seq<Room>, i: int, room: Room)
    requires
        distinct_names(rooms),
        0 <= i < rooms.len(),
        room.name@ == rooms[i].name@,
    ensures
        distinct_names(rooms.update(i, room)),
        rooms_by_name(rooms.update(i, room)) == rooms_by_name(rooms).insert(room.name@, room@),
{
    let changed = rooms.update(i, room);
    assert forall|a: int, b: int| 0 <= a < b < changed.len() implies (#[trigger] changed[a]).name@
        != (#[trigger] changed[b]).name@ by {
        assert(rooms[a].name@ != rooms[b].name@);
    }
    assert forall|name: Seq<char>| #[trigger]
        rooms_by_name(changed).contains_key(name) == rooms_by_name(rooms).insert(
            room.name@,
            room@,
        ).contains_key(name) by {
        if named(rooms, name) {
            let a = place_of(rooms, name);
            assert(changed[a].name@ == name);
        }
        if named(changed, name) {
            let a = place_of(changed, name);
            assert(rooms[a].name@ == name);
        }
        assert(changed[i] == room);
    }
    assert forall|name: Seq<char>| #[trigger]
        rooms_by_name(changed).contains_key(name) implies rooms_by_name(changed)[name]
        == rooms_by_name(rooms).insert(room.name@, room@)[name] by {
        let a = place_of(changed, name);
        lemma_room_at(changed, a);
        if a != i {
            assert(changed[a] == rooms[a]);
            lemma_room_at(rooms, a);
        }
    }
    assert(rooms_by_name(changed) =~= rooms_by_name(rooms).insert(room.name@, room@));
}

proof fn lemma_listing(rooms: Seq<Room>, copies: Seq<Room>)
    requires
        distinct_names(rooms),
        copies.len() == rooms.len(),
        forall|j: int| 0 <= j < rooms.len() ==> (#[trigger] copies[j])@ == rooms[j]@,
    ensures
        lists_rooms(copies, rooms_by_name(rooms)),
{
    let by_name = rooms_by_name(rooms);
    assert forall|i: int| 0 <= i < copies.len() implies {
        let room = #[trigger] copies[i];
        by_name.contains_key(room.name@) && by_name[room.name@] == room@
    } by {
        assert(copies[i]@ == rooms[i]@);
        lemma_room_at(rooms, i);
    }
    assert forall|i: int, j: int| 0 <= i < j < copies.len() implies (#[trigger] copies[i]).name@
        != (#[trigger] copies[j]).name@ by {
        assert(copies[i]@ == rooms[i]@);
        assert(copies[j]@ == rooms[j]@);
        assert(rooms[i].name@ != rooms[j].name@);
    }
    assert forall|name: Seq<char>| #[trigger] by_name.contains_key(name) implies exists|i: int|
        0 <= i < copies.len() && (#[trigger] copies[i]).name@ == name by {
        let i = place_of(rooms, name);
        assert(copies[i]@ == rooms[i]@);
        assert(copies[i].name@ == name);
    }
}

/// The store in memory. It deals the boards of its games from its own list
/// of words and draws identifiers and layouts from its own source of
/// chance.
pub struct MemoryDatabase {
    database: MemoryDatabaseTables,
    words: Vec<String>,
    rng: RandomSource,
}

impl MemoryDatabase {
    /// An empty store that deals from `words` and draws from `rng`. Without
    /// any word there is no store.
    pub fn new(words: Vec<String>, rng: RandomSource) -> (made: Result<MemoryDatabase, ConfigError>)
        ensures
            match made {
                Ok(store) => {
                    &&& words.len() > 0
                    &&& store.inv()
                    &&& store@ == StoreView::empty()
                    &&& store.words() == word_values(words@)
                },
                Err(e) => words.len() == 0 && e == ConfigError::EmptyWordSource,
            },
    {
        if words.len() == 0 {
            return Err(ConfigError::EmptyWordSource);
        }
        Ok(MemoryDatabase { database: MemoryDatabaseTables::new(), words, rng })
    }
}

/// How often a fresh identifier is drawn at random before the search for
/// one stops relying on chance.
pub const IDENTIFIER_DRAWS: usize = 64;

/// The identifiers below `n`.
pub open spec fn below(n: nat) -> Set<u64> {
    Set::new(|id: u64| id < n)
}

proof fn lemma_below(n: nat)
    requires
        n <= u64::MAX + 1,
    ensures
        below(n).finite(),
        below(n).len() == n,
    decreases n,
{
    if n == 0 {
        assert(below(n) =~= Set::empty());
    } else {
        lemma_below((n - 1) as nat);
        assert(below(n) =~= below((n - 1) as nat).insert((n - 1) as u64));
    }
}

/// An identifier that `taken` does not hold. It is drawn at random, again
/// and again while the draw is taken; after `IDENTIFIER_DRAWS` such draws
/// the least identifier that is free is returned.
fn fresh_identifier<V>(taken: &HashMap<u64, V>, rng: &mut RandomSource) -> (id: u64)
    ensures
        !taken@.contains_key(id),
{
    let mut draws: usize = 0;
    while draws < IDENTIFIER_DRAWS
        decreases IDENTIFIER_DRAWS - draws,
    {
        let id = rng.identifier();
        if !taken.contains_key(&id) {
            return id;
        }
        draws = draws + 1;
    }
    let mut candidate: u64 = 0;
    while taken.contains_key(&candidate)
        invariant
            forall|id: u64| id < candidate ==> taken@.contains_key(id),
            candidate <= taken@.len(),
        decreases taken@.len() - candidate,
    {
        proof {
            lemma_below((candidate + 1) as nat);
            assert(below((candidate + 1) as nat).subset_of(taken@.dom()));
            vstd::set_lib::lemma_len_subset(below((candidate + 1) as nat), taken@.dom());
            assert(taken@.len() == taken.len());
        }
        candidate = candidate + 1;
    }
    candidate
}

/// The place of the first room of that name.
fn find_room(rooms: &Vec<Room>, name: &String) -> (place: Option<usize>)
    ensures
        match place {
            Some(i) => i < rooms.len() && rooms[i as int].name@ == name@,
            None => !named(rooms@, name@),
        },
{
    let mut i: usize = 0;
    while i < rooms.len()
        invariant
            i <= rooms.len(),
            forall|j: int| 0 <= j < i ==> (#[trigger] rooms[j]).name@ != name@,
        decreases rooms.len() - i,
    {
        if rooms[i].name == *name {
            return Some(i);
        }
        i = i + 1;
    }
    None
}

proof fn lemma_first_place(ids: Seq<u64>, id: u64, place: int)
    requires
        0 <= place <= ids.len(),
        forall|j: int| 0 <= j < place ==> ids[j] != id,
        place < ids.len() ==> ids[place] == id,
    ensures
        first_place(ids, id) == place,
    decreases ids.len(),
{
    if ids.len() == 0 || ids[0] == id {
    } else {
        let rest = ids.drop_first();
        assert forall|j: int| 0 <= j < place - 1 implies rest[j] != id by {
            assert(rest[j] == ids[j + 1]);
        }
        lemma_first_place(rest, id, place - 1);
    }
}

/// The place of the first `id` in `ids`, or the length of `ids`.
fn find_id(ids: &Vec<u64>, id: u64) -> (place: usize)
    ensures
        place == first_place(ids@, id),
        place <= ids.len(),
        place < ids.len() <==> ids@.contains(id),
{
    let mut i: usize = 0;
    while i < ids.len()
        invariant
            i <= ids.len(),
            forall|j: int| 0 <= j < i ==> ids[j] != id,
        decreases ids.len() - i,
    {
        if ids[i] == id {
            proof {
                lemma_first_place(ids@, id, i as int);
            }
            return i;
        }
        i = i + 1;
    }
    proof {
        lemma_first_place(ids@, id, i as int);
    }
    i
}

impl Database for MemoryDatabase {
    closed spec fn view(&self) -> StoreView {
        self.database@
    }

    closed spec fn words(&self) -> Seq<Seq<char>> {
        word_values(self.words@)
    }

    closed spec fn inv(&self) -> bool {
        self.database.inv() && self.words.len() > 0
    }

    fn create_room(&mut self, name: &String) -> (created: Result<String, DatabaseError>) {
        if find_room(&self.database.rooms, name).is_some() {
            return Err(DatabaseError::RoomExists { name: name.clone() });
        }
        let game_id = fresh_identifier(&self.database.games, &mut self.rng);
        let game = match Game::new(Team::BLUE, &self.words, &mut self.rng) {
            Ok(game) => game,
            Err(_) => vstd::pervasive::unreached(),
        };
        let room = Room::new(name.clone(), game_id);
        proof {
            lemma_rooms_push(self.database.rooms@, room);
        }
        self.database.games.insert(game_id, game);
        self.database.rooms.push(room);
        proof {
            assert(self@.games =~= old(self)@.games.insert(game_id, game@));
            assert(self@.sessions =~= old(self)@.sessions);
        }
        Ok(name.clone())
    }

    fn remove_room(&mut self, name: &String) -> (removed: Result<(), DatabaseError>) {
        match find_room(&self.database.rooms, name) {
            None => Err(DatabaseError::RoomNotFound { name: name.clone() }),
            Some(i) => {
                proof {
                    lemma_room_at(self.database.rooms@, i as int);
                    lemma_rooms_remove(self.database.rooms@, i as int);
                }
                let room = self.database.rooms.remove(i);
                self.database.games.remove(&room.game_id);
                proof {
                    assert(self@.games =~= old(self)@.games.remove(room.game_id));
                }
                Ok(())
            },
        }
    }

    fn get_room(&self, name: &String) -> (found: Result<Room, DatabaseError>) {
        match find_room(&self.database.rooms, name) {
            None => Err(DatabaseError::RoomNotFound { name: name.clone() }),
            Some(i) => {
                proof {
                    lemma_room_at(self.database.rooms@, i as int);
                }
                Ok(self.database.rooms[i].clone())
            },
        }
    }

    fn get_rooms(&self) -> (found: Result<Vec<Room>, DatabaseError>) {
        let mut rooms: Vec<Room> = Vec::new();
        let mut i: usize = 0;
        while i < self.database.rooms.len()
            invariant
                i <= self.database.rooms.len(),
                rooms.len() == i,
                forall|j: int| 0 <= j < i ==> (#[trigger] rooms[j])@ == self.database.rooms[j]@,
            decreases self.database.rooms.len() - i,
        {
            rooms.push(self.database.rooms[i].clone());
            i = i + 1;
        }
        proof {
            lemma_listing(self.database.rooms@, rooms@);
        }
        Ok(rooms)
    }

    fn get_sessions(&self) -> (found: Result<Vec<ClientSession>, DatabaseError>) {
        let mut sessions: Vec<ClientSession> = Vec::new();
        let ghost ids = self.database.sessions.keys().remaining().unref();
        for id in it: self.database.sessions.keys()
            invariant
                sessions.len() == it.index(),
                it.seq().unref() == ids,
                ids == self.database.sessions.keys().remaining().unref(),
                forall|i: int|
                    0 <= i < sessions.len() ==> self.database.sessions@.contains_key(ids[i]) && (
                    #[trigger] sessions[i]) == self.database.sessions@[ids[i]],
        {
            match self.database.sessions.get(id) {
                Some(session) => {
                    sessions.push(session.clone());
                },
                None => {},
            }
        }
        proof {
            assert(ids.no_duplicates());
            assert(ids.to_set() =~= self@.sessions.dom());
            assert forall|i: int| 0 <= i < ids.len() implies (#[trigger] sessions[i])@
                == self@.sessions[ids[i]] by {
                assert(self.database.sessions@.contains_key(ids[i]));
            }
            assert(lists_sessions_by(sessions@, self@.sessions, ids));
        }
        Ok(sessions)
    }

    fn get_session(&self, id: &u64) -> (found: Result<ClientSession, DatabaseError>) {
        match self.database.sessions.get(id) {
            Some(session) => Ok(session.clone()),
            None => Err(DatabaseError::SessionNotFound { id: *id }),
        }
    }

    fn update_session(&mut self, id: u64, session_update: &ClientSession) -> (updated: Result<
        (),
        DatabaseError,
    >) {
        if !self.database.sessions.contains_key(&id) {
            return Err(DatabaseError::SessionNotFound { id });
        }
        let session = ClientSession {
            id,
            username: session_update.username.clone(),
            room: session_update.room.clone(),
            is_spymaster: session_update.is_spymaster,
        };
        self.database.sessions.insert(id, session);
        proof {
            assert(self@.sessions =~= old(self)@.sessions.insert(
                id,
                SessionView { id, ..session_update@ },
            ));
        }
        Ok(())
    }

    fn create_session(&mut self, room: &String) -> (created: Result<u64, DatabaseError>) {
        match find_room(&self.database.rooms, room) {
            None => Err(DatabaseError::RoomNotFound { name: room.clone() }),
            Some(i) => {
                let id = fresh_identifier(&self.database.sessions, &mut self.rng);
                let session = ClientSession::new(id, room);
                self.database.sessions.insert(id, session);
                self.database.rooms[i].sessions.push(id);
                proof {
                    lemma_room_at(old(self).database.rooms@, i as int);
                    lemma_rooms_update(
                        old(self).database.rooms@,
                        i as int,
                        self.database.rooms[i as int],
                    );
                    assert(self.database.rooms@ =~= old(self).database.rooms@.update(
                        i as int,
                        self.database.rooms[i as int],
                    ));
                    assert(self@.sessions =~= old(self)@.sessions.insert(
                        id,
                        SessionView::joining(id, room@),
                    ));
                    assert(self@.games =~= old(self)@.games);
                }
                Ok(id)
            },
        }
    }

    fn remove_session(&mut self, session_id: u64) -> (removed: Result<(), DatabaseError>) {
        let session = match self.database.sessions.remove(&session_id) {
            Some(session) => session,
            None => {
                proof {
                    assert(self.database.sessions@ =~= old(self).database.sessions@);
                }
                return Err(DatabaseError::SessionNotFound { id: session_id });
            },
        };
        proof {
            assert(self@.sessions =~= old(self)@.sessions.remove(session_id));
            assert(self@.games =~= old(self)@.games);
        }
        match find_room(&self.database.rooms, &session.room) {
            None => Err(DatabaseError::RoomNotFound { name: session.room }),
            Some(i) => {
                let place = find_id(&self.database.rooms[i].sessions, session_id);
                if place < self.database.rooms[i].sessions.len() {
                    self.database.rooms[i].sessions.swap_remove(place);
                }
                proof {
                    lemma_room_at(old(self).database.rooms@, i as int);
                    lemma_rooms_update(
                        old(self).database.rooms@,
                        i as int,
                        self.database.rooms[i as int],
                    );
                    assert(self.database.rooms@ =~= old(self).database.rooms@.update(
                        i as int,
                        self.database.rooms[i as int],
                    ));
                }
                Ok(())
            },
        }
    }

    fn update_game(&mut self, game_id: u64, game_update: &Game) -> (updated: Result<
        (),
        DatabaseError,
    >) {
        if !self.database.games.contains_key(&game_id) {
            return Err(DatabaseError::GameNotFound { id: game_id });
        }
        self.database.games.insert(game_id, game_update.clone());
        proof {
            assert(self@.games =~= old(self)@.games.insert(game_id, game_update@));
        }
        Ok(())
    }

    fn flip_card(&mut self, game_id: u64, coord: (usize, usize)) -> (flipped: Result<
        Game,
        DatabaseError,
    >) {
        let updated_game = match self.database.games.get(&game_id) {
            Some(game) => game.flip_card(coord),
            None => {
                return Err(DatabaseError::GameNotFound { id: game_id });
            },
        };
        self.database.games.insert(game_id, updated_game.clone());
        proof {
            assert(self@.games =~= old(self)@.games.insert(game_id, updated_game@));
        }
        Ok(updated_game)
    }

    fn get_game(&self, game_id: u64) -> (found: Result<Game, DatabaseError>) {
        match self.database.games.get(&game_id) {
            Some(game) => Ok(game.clone()),
            None => Err(DatabaseError::GameNotFound { id: game_id }),
        }
    }

    fn next_turn(&mut self, game_id: u64) -> (passed: Result<Game, DatabaseError>) {
        let updated_game = match self.database.games.get(&game_id) {
            Some(game) => game.next_turn(),
            None => {
                return Err(DatabaseError::GameNotFound { id: game_id });
            },
        };
        self.database.games.insert(game_id, updated_game.clone());
        proof {
            assert(self@.games =~= old(self)@.games.insert(game_id, updated_game@));
        }
        Ok(updated_game)
    }
}

} // verus!
