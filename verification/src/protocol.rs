//! What the hub owes its clients, as mathematics: for each kind of request,
//! the store that the hub leaves and the events that it hands out, to whom
//! and in which order.

use crate::client::SessionView;
use crate::database::DatabaseErrorView;
use crate::event::ClientRequestView;
use crate::event::EventMessageView;
use crate::event::EventView;
use crate::event::RequestView;
use crate::game::GameView;
use crate::integrity::lemma_without;
use crate::store::StoreView;
use vstd::prelude::*;

verus! {

/// The mathematical value of a `Delivery`.
pub struct DeliveryView {
    pub recipient: u64,
    pub message: EventMessageView,
}

/// One event, addressed to one session.
pub open spec fn to_one(
    recipient: u64,
    room: Seq<char>,
    sender: SessionView,
    event: EventView,
) -> Seq<DeliveryView> {
    seq![DeliveryView { recipient, message: EventMessageView { sender, room, event } }]
}

/// One event, addressed to each of `recipients` in turn.
pub open spec fn to_all(
    recipients: Seq<u64>,
    room: Seq<char>,
    sender: SessionView,
    event: EventView,
) -> Seq<DeliveryView> {
    Seq::new(
        recipients.len(),
        |i: int|
            DeliveryView { recipient: recipients[i], message: EventMessageView { sender, room, event } },
    )
}

/// To each of `recipients` in turn, its own record as `store` holds it.
pub open spec fn to_each_its_session(
    recipients: Seq<u64>,
    room: Seq<char>,
    sender: SessionView,
    store: StoreView,
) -> Seq<DeliveryView> {
    Seq::new(
        recipients.len(),
        |i: int|
            DeliveryView {
                recipient: recipients[i],
                message: EventMessageView {
                    sender,
                    room,
                    event: EventView::UpdateClientSession { session: store.sessions[recipients[i]] },
                },
            },
    )
}

/// What the hub makes of a request: the store that it leaves and the
/// deliveries that it hands out, in order.
pub struct Answer {
    pub store: StoreView,
    pub deliveries: Seq<DeliveryView>,
}

impl RequestView {
    /// The session that leaves, where the request is a `Disconnect` or a
    /// `TimedOut`.
    pub open spec fn leaver(self) -> Option<u64> {
        match self {
            RequestView::Disconnect { id } => Some(id),
            RequestView::TimedOut { id } => Some(id),
            _ => None,
        }
    }
}

impl StoreView {
    /// Whether the room of a request and its sender exist.
    pub open spec fn greets(self, request: ClientRequestView) -> bool {
        self.rooms.contains_key(request.room_name) && self.sessions.contains_key(request.sender_id)
    }

    /// The reference for the want of which a request is dropped, if there is
    /// one: the room of the request, then its sender, then the session that
    /// a `Connect`, `Disconnect` or `TimedOut` names.
    pub open spec fn stale(self, request: ClientRequestView) -> Option<DatabaseErrorView> {
        if !self.rooms.contains_key(request.room_name) {
            Some(DatabaseErrorView::RoomNotFound { name: request.room_name })
        } else if !self.sessions.contains_key(request.sender_id) {
            Some(DatabaseErrorView::SessionNotFound { id: request.sender_id })
        } else {
            match request.request {
                RequestView::Connect { id } | RequestView::Disconnect { id }
                | RequestView::TimedOut { id } => if self.sessions.contains_key(id) {
                    None
                } else {
                    Some(DatabaseErrorView::SessionNotFound { id })
                },
                _ => None,
            }
        }
    }

    /// The store in which none of the sessions `ids` is a spymaster and
    /// everything else is as in this store.
    pub open spec fn demote(self, ids: Seq<u64>) -> StoreView {
        StoreView {
            sessions: Map::new(
                |id: u64| self.sessions.contains_key(id),
                |id: u64|
                    if ids.contains(id) {
                        SessionView { is_spymaster: false, ..self.sessions[id] }
                    } else {
                        self.sessions[id]
                    },
            ),
            ..self
        }
    }

    /// Whether the session `id` is the only session of the room `name`.
    pub open spec fn last_one(self, name: Seq<char>, id: u64) -> bool {
        &&& self.rooms.contains_key(name)
        &&& self.sessions.contains_key(id)
        &&& self.sessions[id].room == name
        &&& self.rooms[name].sessions.len() == 1
    }

    /// `Connect`: the session that joins is sent its own record, then the
    /// room is sent the state of the game.
    pub open spec fn on_connect(self, request: ClientRequestView, id: u64) -> Answer {
        let room = self.rooms[request.room_name];
        let sender = self.sessions[request.sender_id];
        Answer {
            store: self,
            deliveries: to_one(
                id,
                room.name,
                sender,
                EventView::UpdateClientSession { session: self.sessions[id] },
            ) + to_all(
                room.sessions,
                room.name,
                sender,
                EventView::GameStateUpdate { game: self.games[room.game_id] },
            ),
        }
    }

    /// `SetName`: the sender's record takes the name; the sender is sent the
    /// new record, then the room is told of the name.
    pub open spec fn on_set_name(self, request: ClientRequestView, name: Seq<char>) -> Answer {
        let room = self.rooms[request.room_name];
        let sender = self.sessions[request.sender_id];
        let renamed = SessionView { username: name, ..sender };
        Answer {
            store: self.update_session(request.sender_id, renamed),
            deliveries: to_one(
                request.sender_id,
                room.name,
                sender,
                EventView::UpdateClientSession { session: renamed },
            ) + to_all(
                room.sessions,
                room.name,
                sender,
                EventView::SetName { id: request.sender_id, name },
            ),
        }
    }

    /// `Disconnect` and `TimedOut`: the session is removed. Where that
    /// leaves the room of the request without a session, the room goes with
    /// its game and nobody is told; otherwise those who remain in the room
    /// are told who left, and then the state of the game.
    pub open spec fn on_leave(self, request: ClientRequestView, id: u64) -> Answer {
        let sender = self.sessions[request.sender_id];
        let left = self.remove_session(id);
        let room = left.rooms[request.room_name];
        if room.sessions.len() == 0 {
            Answer { store: left.remove_room(request.room_name), deliveries: Seq::empty() }
        } else {
            Answer {
                store: left,
                deliveries: to_all(
                    room.sessions,
                    room.name,
                    sender,
                    EventView::Disconnect { id },
                ) + to_all(
                    room.sessions,
                    room.name,
                    sender,
                    EventView::GameStateUpdate { game: self.games[room.game_id] },
                ),
            }
        }
    }

    /// `Message`: the room, the sender included, is sent the text.
    pub open spec fn on_message(self, request: ClientRequestView, text: Seq<char>) -> Answer {
        let room = self.rooms[request.room_name];
        let sender = self.sessions[request.sender_id];
        Answer {
            store: self,
            deliveries: to_all(
                room.sessions,
                room.name,
                sender,
                EventView::Message { sender, text },
            ),
        }
    }

    /// `FlipCard`: where the game of the room allows the flip, the card is
    /// flipped and the room is sent the card, then the state of the game.
    /// Where it does not (the game is over, the place is off the board, the
    /// card lies face up already), nothing happens.
    pub open spec fn on_flip_card(self, request: ClientRequestView, coord: (usize, usize)) -> Answer {
        let room = self.rooms[request.room_name];
        let sender = self.sessions[request.sender_id];
        let game = self.games[room.game_id];
        if game.can_flip(coord.0, coord.1) {
            let flipped = game.flip(coord.0, coord.1);
            Answer {
                store: self.update_game(room.game_id, flipped),
                deliveries: to_all(
                    room.sessions,
                    room.name,
                    sender,
                    EventView::FlipCard {
                        flipped_card: flipped.board[coord.0 as int][coord.1 as int],
                    },
                ) + to_all(
                    room.sessions,
                    room.name,
                    sender,
                    EventView::GameStateUpdate { game: flipped },
                ),
            }
        } else {
            Answer { store: self, deliveries: Seq::empty() }
        }
    }

    /// `NewGame`: the game of the room is replaced by `dealt`, no session of
    /// the room is a spymaster any more, each session of the room is sent
    /// its own record, and the room is told of the new game, then sent its
    /// state.
    pub open spec fn on_new_game(self, request: ClientRequestView, dealt: GameView) -> Answer {
        let room = self.rooms[request.room_name];
        let sender = self.sessions[request.sender_id];
        let store = self.update_game(room.game_id, dealt).demote(room.sessions);
        Answer {
            store,
            deliveries: to_each_its_session(room.sessions, room.name, sender, store) + to_all(
                room.sessions,
                room.name,
                sender,
                EventView::NewGame,
            ) + to_all(room.sessions, room.name, sender, EventView::GameStateUpdate { game: dealt }),
        }
    }

    /// `SetSpyMaster`: the sender's record takes the flag; the sender is
    /// sent the new record, then the room is told that a flag has changed.
    pub open spec fn on_set_spymaster(self, request: ClientRequestView, spymaster: bool) -> Answer {
        let room = self.rooms[request.room_name];
        let sender = self.sessions[request.sender_id];
        let updated = SessionView { is_spymaster: spymaster, ..sender };
        Answer {
            store: self.update_session(request.sender_id, updated),
            deliveries: to_one(
                request.sender_id,
                room.name,
                sender,
                EventView::UpdateClientSession { session: updated },
            ) + to_all(room.sessions, room.name, sender, EventView::SetSpyMaster),
        }
    }

    /// `NextTurn`: the turn of the game of the room is passed on, and the
    /// room is told so, then sent the state of the game.
    pub open spec fn on_next_turn(self, request: ClientRequestView) -> Answer {
        let room = self.rooms[request.room_name];
        let sender = self.sessions[request.sender_id];
        let passed = self.games[room.game_id].pass_turn();
        Answer {
            store: self.update_game(room.game_id, passed),
            deliveries: to_all(room.sessions, room.name, sender, EventView::NextTurn) + to_all(
                room.sessions,
                room.name,
                sender,
                EventView::GameStateUpdate { game: passed },
            ),
        }
    }

    /// What the hub makes of a request that is not stale. `dealt` is the
    /// game that a `NewGame` deals; no other request looks at it.
    pub open spec fn answer(self, request: ClientRequestView, dealt: GameView) -> Answer {
        match request.request {
            RequestView::Connect { id } => self.on_connect(request, id),
            RequestView::SetName { name } => self.on_set_name(request, name),
            RequestView::Disconnect { id } => self.on_leave(request, id),
            RequestView::TimedOut { id } => self.on_leave(request, id),
            RequestView::Message { text } => self.on_message(request, text),
            RequestView::FlipCard { coord } => self.on_flip_card(request, coord),
            RequestView::NewGame => self.on_new_game(request, dealt),
            RequestView::SetSpyMaster { spymaster } => self.on_set_spymaster(request, spymaster),
            RequestView::NextTurn => self.on_next_turn(request),
        }
    }
}

/// When the only session of a room leaves, the room and its game leave the
/// store with it.
pub proof fn lemma_last_one_leaves(store: StoreView, request: ClientRequestView, id: u64)
    requires
        store.consistent(),
        store.last_one(request.room_name, id),
    ensures
        !store.on_leave(request, id).store.rooms.contains_key(request.room_name),
        !store.on_leave(request, id).store.games.contains_key(
            store.rooms[request.room_name].game_id,
        ),
        store.on_leave(request, id).deliveries == Seq::<DeliveryView>::empty(),
{
    assert(store.session_sound(id));
    assert(store.room_sound(request.room_name));
    lemma_without(store.rooms[request.room_name].sessions, id);
}

/// Taking the spymaster's flag from one more session of a list.
pub proof fn lemma_demote_step(store: StoreView, ids: Seq<u64>, i: int)
    requires
        0 <= i < ids.len(),
        store.sessions.contains_key(ids[i]),
        store.sessions[ids[i]].id == ids[i],
    ensures
        store.demote(ids.take(i)).update_session(
            ids[i],
            SessionView { is_spymaster: false, ..store.demote(ids.take(i)).sessions[ids[i]] },
        ) == store.demote(ids.take(i + 1)),
{
    let shorter = ids.take(i);
    let longer = ids.take(i + 1);
    let stepped = store.demote(shorter).update_session(
        ids[i],
        SessionView { is_spymaster: false, ..store.demote(shorter).sessions[ids[i]] },
    );
    assert forall|id: u64| store.sessions.contains_key(id) implies #[trigger] stepped.sessions[id]
        == store.demote(longer).sessions[id] by {
        if shorter.contains(id) {
            let j = choose|j: int| 0 <= j < shorter.len() && shorter[j] == id;
            assert(longer[j] == id);
        }
        if longer.contains(id) && id != ids[i] {
            let j = choose|j: int| 0 <= j < longer.len() && longer[j] == id;
            assert(shorter[j] == id);
        }
        assert(longer[i] == ids[i]);
    }
    assert(stepped.sessions =~= store.demote(longer).sessions);
}

/// Taking the spymaster's flag from sessions keeps the store consistent.
pub proof fn lemma_demote_consistent(store: StoreView, ids: Seq<u64>)
    requires
        store.consistent(),
    ensures
        store.demote(ids).consistent(),
{
    let next = store.demote(ids);
    assert(next.sessions.dom() =~= store.sessions.dom());
    assert forall|name: Seq<char>| #[trigger] next.rooms.contains_key(name) implies next.room_sound(
        name,
    ) by {
        assert(store.room_sound(name));
        let listed = next.rooms[name].sessions;
        assert forall|i: int| 0 <= i < listed.len() implies {
            let x = #[trigger] listed[i];
            next.sessions.contains_key(x) && next.sessions[x].room == name
        } by {
            let x = store.rooms[name].sessions[i];
            assert(store.sessions.contains_key(x) && store.sessions[x].room == name);
        }
    }
    assert forall|id: u64| #[trigger] next.sessions.contains_key(id) implies next.session_sound(
        id,
    ) by {
        assert(store.session_sound(id));
    }
}

} // verus!
