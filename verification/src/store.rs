//! The tables of the store as mathematical maps, and what each operation
//! of the store makes of them.

use crate::client::SessionView;
use crate::game::GameView;
use crate::server::RoomView;
use vstd::prelude::*;

verus! {

/// The tables of the store as mathematical maps: rooms by name, games and
/// sessions by identifier.
pub struct StoreView {
    pub rooms: Map<Seq<char>, RoomView>,
    pub games: Map<u64, GameView>,
    pub sessions: Map<u64, SessionView>,
}

impl StoreView {
    /// The store without any room, game or session.
    pub open spec fn empty() -> StoreView {
        StoreView { rooms: Map::empty(), games: Map::empty(), sessions: Map::empty() }
    }

    /// The store with a new, vacant room `name` in which `game` is played
    /// under `game_id`.
    pub open spec fn create_room(self, name: Seq<char>, game_id: u64, game: GameView) -> StoreView {
        StoreView {
            rooms: self.rooms.insert(name, RoomView::vacant(name, game_id)),
            games: self.games.insert(game_id, game),
            sessions: self.sessions,
        }
    }

    /// The store without the room `name` and without its game.
    pub open spec fn remove_room(self, name: Seq<char>) -> StoreView {
        StoreView {
            rooms: self.rooms.remove(name),
            games: self.games.remove(self.rooms[name].game_id),
            sessions: self.sessions,
        }
    }

    /// The store with a new session `id` that has joined `room` as the last
    /// of its sessions.
    pub open spec fn create_session(self, id: u64, room: Seq<char>) -> StoreView {
        let joined = RoomView { sessions: self.rooms[room].sessions.push(id), ..self.rooms[room] };
        StoreView {
            rooms: self.rooms.insert(room, joined),
            games: self.games,
            sessions: self.sessions.insert(id, SessionView::joining(id, room)),
        }
    }

    /// The store with the record of session `id` overwritten by `session`,
    /// but for the identifier, which stays `id`.
    pub open spec fn update_session(self, id: u64, session: SessionView) -> StoreView {
        StoreView { sessions: self.sessions.insert(id, SessionView { id, ..session }), ..self }
    }

    /// The store without the record of session `id`.
    pub open spec fn forget_session(self, id: u64) -> StoreView {
        StoreView { sessions: self.sessions.remove(id), ..self }
    }

    /// The store without session `id`: its record is gone, and so is its
    /// identifier from the list of its room.
    pub open spec fn remove_session(self, id: u64) -> StoreView {
        let name = self.sessions[id].room;
        let left = RoomView { sessions: without(self.rooms[name].sessions, id), ..self.rooms[name] };
        StoreView {
            rooms: self.rooms.insert(name, left),
            games: self.games,
            sessions: self.sessions.remove(id),
        }
    }

    /// The store with `game` under `game_id`.
    pub open spec fn update_game(self, game_id: u64, game: GameView) -> StoreView {
        StoreView { games: self.games.insert(game_id, game), ..self }
    }
}

/// The place of the first `id` in `ids`; the length of `ids` where there is
/// none.
pub open spec fn first_place(ids: Seq<u64>, id: u64) -> int
    decreases ids.len(),
{
    if ids.len() == 0 || ids[0] == id {
        0
    } else {
        1 + first_place(ids.drop_first(), id)
    }
}

/// `ids` with its first `id` taken out and the last identifier moved into
/// the gap; `ids` itself where `id` does not occur.
pub open spec fn without(ids: Seq<u64>, id: u64) -> Seq<u64> {
    if ids.contains(id) {
        ids.update(first_place(ids, id), ids.last()).drop_last()
    } else {
        ids
    }
}

} // verus!
