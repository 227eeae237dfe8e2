//! Referential integrity of the store: what ties rooms, games and sessions
//! together, and which operations keep it.

use crate::client::SessionView;
use crate::game::GameView;
use crate::store::first_place;
use crate::store::StoreView;
use crate::store::without;
use vstd::prelude::*;

verus! {

impl StoreView {
    /// What holds of a room of a consistent store: it is filed under its own
    /// name, its game exists, no session is listed twice, and every session
    /// listed exists and names this room as its own.
    pub open spec fn room_sound(self, name: Seq<char>) -> bool {
        let room = self.rooms[name];
        &&& room.name == name
        &&& self.games.contains_key(room.game_id)
        &&& room.sessions.no_duplicates()
        &&& forall|i: int|
            0 <= i < room.sessions.len() ==> {
                let id = #[trigger] room.sessions[i];
                self.sessions.contains_key(id) && self.sessions[id].room == name
            }
    }

    /// What holds of a session of a consistent store: it is filed under its
    /// own identifier, its room exists, and its room lists it.
    pub open spec fn session_sound(self, id: u64) -> bool {
        let session = self.sessions[id];
        &&& session.id == id
        &&& self.rooms.contains_key(session.room)
        &&& self.rooms[session.room].sessions.contains(id)
    }

    /// Referential integrity: every room and every session is sound, every
    /// game is valid, no two rooms share a game, and the sessions are
    /// finitely many.
    pub open spec fn consistent(self) -> bool {
        &&& self.sessions.dom().finite()
        &&& forall|name: Seq<char>| #[trigger] self.rooms.contains_key(name) ==> self.room_sound(name)
        &&& forall|id: u64| #[trigger] self.sessions.contains_key(id) ==> self.session_sound(id)
        &&& forall|id: u64| #[trigger] self.games.contains_key(id) ==> self.games[id].wf()
        &&& forall|a: Seq<char>, b: Seq<char>|
            #![trigger self.rooms[a], self.rooms[b]]
            self.rooms.contains_key(a) && self.rooms.contains_key(b) && a != b
                ==> self.rooms[a].game_id != self.rooms[b].game_id
    }

    /// The sessions that name `room` as their own.
    pub open spec fn members(self, room: Seq<char>) -> Set<u64> {
        Set::new(|id: u64| self.sessions.contains_key(id) && self.sessions[id].room == room)
    }
}

/// In a consistent store a room lists as many sessions as name it as their
/// own: the list of the room and the set of its members hold the same
/// sessions, each once.
pub proof fn lemma_room_lists_its_members(store: StoreView, name: Seq<char>)
    requires
        store.consistent(),
        store.rooms.contains_key(name),
    ensures
        store.rooms[name].sessions.to_set() == store.members(name),
        store.members(name).finite(),
        store.rooms[name].sessions.len() == store.members(name).len(),
{
    let listed = store.rooms[name].sessions;
    assert(store.room_sound(name));
    assert forall|id: u64| listed.to_set().contains(id) == store.members(name).contains(id) by {
        if listed.to_set().contains(id) {
            let i = choose|i: int| 0 <= i < listed.len() && listed[i] == id;
            assert(store.sessions.contains_key(listed[i]));
        }
        if store.members(name).contains(id) {
            assert(store.session_sound(id));
        }
    }
    assert(listed.to_set() =~= store.members(name));
    listed.unique_seq_to_set();
}

/// What taking an identifier out of a list without duplicates leaves: the
/// other identifiers, each still once.
pub proof fn lemma_without(ids: Seq<u64>, id: u64)
    requires
        ids.no_duplicates(),
    ensures
        without(ids, id).no_duplicates(),
        forall|other: u64| #[trigger]
            without(ids, id).contains(other) <==> ids.contains(other) && other != id,
        ids.contains(id) ==> without(ids, id).len() + 1 == ids.len(),
{
    if ids.contains(id) {
        let place = first_place(ids, id);
        lemma_first_place_found(ids, id);
        let moved = ids.update(place, ids.last());
        let left = moved.drop_last();
        let n = ids.len() - 1;
        assert forall|i: int, j: int| 0 <= i < left.len() && 0 <= j < left.len() && i != j implies left[i]
            != left[j] by {
            let i0 = if i == place {
                n
            } else {
                i
            };
            let j0 = if j == place {
                n
            } else {
                j
            };
            assert(left[i] == ids[i0]);
            assert(left[j] == ids[j0]);
        }
        assert forall|other: u64| #[trigger]
            left.contains(other) <==> ids.contains(other) && other != id by {
            if left.contains(other) {
                let i = choose|i: int| 0 <= i < left.len() && left[i] == other;
                let i0 = if i == place {
                    n
                } else {
                    i
                };
                assert(left[i] == ids[i0]);
                assert(ids[i0] == other);
                assert(i0 != place);
            }
            if ids.contains(other) && other != id {
                let i = choose|i: int| 0 <= i < ids.len() && ids[i] == other;
                if i == n {
                    assert(left[place] == other);
                } else {
                    assert(left[i] == other);
                }
            }
        }
    } else {
    }
}

/// The first place of an identifier that occurs is a place where it stands.
pub proof fn lemma_first_place_found(ids: Seq<u64>, id: u64)
    requires
        ids.contains(id),
    ensures
        0 <= first_place(ids, id) < ids.len(),
        ids[first_place(ids, id)] == id,
    decreases ids.len(),
{
    if ids[0] == id {
    } else {
        let rest = ids.drop_first();
        let i = choose|i: int| 0 <= i < ids.len() && ids[i] == id;
        assert(rest[i - 1] == id);
        lemma_first_place_found(rest, id);
    }
}

/// A new room with a valid game under a fresh identifier keeps the store
/// consistent.
pub proof fn lemma_create_room_consistent(
    store: StoreView,
    name: Seq<char>,
    game_id: u64,
    game: GameView,
)
    requires
        store.consistent(),
        !store.rooms.contains_key(name),
        !store.games.contains_key(game_id),
        game.wf(),
    ensures
        store.create_room(name, game_id, game).consistent(),
{
    let next = store.create_room(name, game_id, game);
    assert forall|other: Seq<char>| #[trigger] next.rooms.contains_key(other) implies next.room_sound(
        other,
    ) by {
        if other != name {
            assert(store.room_sound(other));
        }
    }
    assert forall|id: u64| #[trigger] next.sessions.contains_key(id) implies next.session_sound(
        id,
    ) by {
        assert(store.session_sound(id));
    }
    assert forall|a: Seq<char>, b: Seq<char>|
        #![trigger next.rooms[a], next.rooms[b]]
        next.rooms.contains_key(a) && next.rooms.contains_key(b) && a != b implies next.rooms[a].game_id
        != next.rooms[b].game_id by {
        if a != name {
            assert(store.room_sound(a));
        }
        if b != name {
            assert(store.room_sound(b));
        }
    }
}

/// A new session under a fresh identifier, in a room that exists, keeps the
/// store consistent.
pub proof fn lemma_create_session_consistent(store: StoreView, id: u64, room: Seq<char>)
    requires
        store.consistent(),
        store.rooms.contains_key(room),
        !store.sessions.contains_key(id),
    ensures
        store.create_session(id, room).consistent(),
{
    let next = store.create_session(id, room);
    let before = store.rooms[room].sessions;
    let after = before.push(id);
    assert(store.room_sound(room));
    assert(!before.contains(id)) by {
        if before.contains(id) {
            let i = choose|i: int| 0 <= i < before.len() && before[i] == id;
            assert(store.sessions.contains_key(before[i]));
        }
    }
    assert(after.no_duplicates()) by {
        assert forall|i: int, j: int| 0 <= i < after.len() && 0 <= j < after.len() && i != j implies after[i]
            != after[j] by {
            if i < before.len() && j < before.len() {
            } else if i < before.len() {
                assert(before.contains(before[i]));
            } else {
                assert(before.contains(before[j]));
            }
        }
    }
    assert forall|other: Seq<char>| #[trigger] next.rooms.contains_key(other) implies next.room_sound(
        other,
    ) by {
        assert(store.room_sound(other));
        let listed = next.rooms[other].sessions;
        assert forall|i: int| 0 <= i < listed.len() implies {
            let x = #[trigger] listed[i];
            next.sessions.contains_key(x) && next.sessions[x].room == other
        } by {
            if other == room && i == before.len() {
            } else {
                let x = store.rooms[other].sessions[i];
                assert(store.sessions.contains_key(x) && store.sessions[x].room == other);
            }
        }
    }
    assert forall|other: u64| #[trigger] next.sessions.contains_key(other) implies next.session_sound(
        other,
    ) by {
        if other == id {
            assert(after[before.len() as int] == id);
        } else {
            assert(store.session_sound(other));
            if store.sessions[other].room == room {
                let i = choose|i: int| 0 <= i < before.len() && before[i] == other;
                assert(after[i] == other);
            }
        }
    }
    assert forall|a: Seq<char>, b: Seq<char>|
        #![trigger next.rooms[a], next.rooms[b]]
        next.rooms.contains_key(a) && next.rooms.contains_key(b) && a != b implies next.rooms[a].game_id
        != next.rooms[b].game_id by {
        assert(store.rooms[a].game_id != store.rooms[b].game_id);
    }
}

/// Overwriting the record of a session keeps the store consistent as long
/// as the session stays in its room.
pub proof fn lemma_update_session_consistent(store: StoreView, id: u64, session: SessionView)
    requires
        store.consistent(),
        store.sessions.contains_key(id),
        session.room == store.sessions[id].room,
    ensures
        store.update_session(id, session).consistent(),
{
    let next = store.update_session(id, session);
    assert forall|other: Seq<char>| #[trigger] next.rooms.contains_key(other) implies next.room_sound(
        other,
    ) by {
        assert(store.room_sound(other));
        let listed = next.rooms[other].sessions;
        assert forall|i: int| 0 <= i < listed.len() implies {
            let x = #[trigger] listed[i];
            next.sessions.contains_key(x) && next.sessions[x].room == other
        } by {
            let x = store.rooms[other].sessions[i];
            assert(store.sessions.contains_key(x) && store.sessions[x].room == other);
        }
    }
    assert forall|other: u64| #[trigger] next.sessions.contains_key(other) implies next.session_sound(
        other,
    ) by {
        assert(store.session_sound(other));
        assert(store.session_sound(id));
    }
}

/// Removing a session keeps the store consistent.
pub proof fn lemma_remove_session_consistent(store: StoreView, id: u64)
    requires
        store.consistent(),
        store.sessions.contains_key(id),
    ensures
        store.remove_session(id).consistent(),
{
    let next = store.remove_session(id);
    let name = store.sessions[id].room;
    assert(store.session_sound(id));
    assert(store.room_sound(name));
    let before = store.rooms[name].sessions;
    lemma_without(before, id);
    assert forall|other: Seq<char>| #[trigger] next.rooms.contains_key(other) implies next.room_sound(
        other,
    ) by {
        assert(store.room_sound(other));
        let listed = next.rooms[other].sessions;
        assert forall|i: int| 0 <= i < listed.len() implies {
            let x = #[trigger] listed[i];
            next.sessions.contains_key(x) && next.sessions[x].room == other
        } by {
            let x = listed[i];
            if other == name {
                assert(without(before, id).contains(x));
                assert(before.contains(x) && x != id);
                let j = choose|j: int| 0 <= j < before.len() && before[j] == x;
                assert(store.sessions.contains_key(before[j]));
            } else {
                let y = store.rooms[other].sessions[i];
                assert(store.sessions.contains_key(y) && store.sessions[y].room == other);
            }
        }
    }
    assert forall|other: u64| #[trigger] next.sessions.contains_key(other) implies next.session_sound(
        other,
    ) by {
        assert(store.session_sound(other));
        if store.sessions[other].room == name {
            assert(before.contains(other));
            assert(without(before, id).contains(other));
        }
    }
    assert forall|a: Seq<char>, b: Seq<char>|
        #![trigger next.rooms[a], next.rooms[b]]
        next.rooms.contains_key(a) && next.rooms.contains_key(b) && a != b implies next.rooms[a].game_id
        != next.rooms[b].game_id by {
        assert(store.rooms[a].game_id != store.rooms[b].game_id);
    }
}

/// Removing a room that lists no session keeps the store consistent.
pub proof fn lemma_remove_room_consistent(store: StoreView, name: Seq<char>)
    requires
        store.consistent(),
        store.rooms.contains_key(name),
        store.rooms[name].sessions.len() == 0,
    ensures
        store.remove_room(name).consistent(),
{
    let next = store.remove_room(name);
    assert forall|other: Seq<char>| #[trigger] next.rooms.contains_key(other) implies next.room_sound(
        other,
    ) by {
        assert(store.room_sound(other));
        assert(store.rooms[other].game_id != store.rooms[name].game_id);
    }
    assert forall|id: u64| #[trigger] next.sessions.contains_key(id) implies next.session_sound(
        id,
    ) by {
        assert(store.session_sound(id));
        if store.sessions[id].room == name {
            let i = choose|i: int|
                0 <= i < store.rooms[name].sessions.len() && store.rooms[name].sessions[i] == id;
        }
    }
    assert forall|a: Seq<char>, b: Seq<char>|
        #![trigger next.rooms[a], next.rooms[b]]
        next.rooms.contains_key(a) && next.rooms.contains_key(b) && a != b implies next.rooms[a].game_id
        != next.rooms[b].game_id by {
        assert(store.rooms[a].game_id != store.rooms[b].game_id);
    }
}

/// Overwriting a game with a valid game keeps the store consistent.
pub proof fn lemma_update_game_consistent(store: StoreView, game_id: u64, game: GameView)
    requires
        store.consistent(),
        store.games.contains_key(game_id),
        game.wf(),
    ensures
        store.update_game(game_id, game).consistent(),
{
    let next = store.update_game(game_id, game);
    assert forall|other: Seq<char>| #[trigger] next.rooms.contains_key(other) implies next.room_sound(
        other,
    ) by {
        assert(store.room_sound(other));
    }
    assert forall|id: u64| #[trigger] next.sessions.contains_key(id) implies next.session_sound(
        id,
    ) by {
        assert(store.session_sound(id));
    }
}

} // verus!
