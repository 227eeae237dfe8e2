//! Rooms, and the hub: the single place where every request is applied to
//! the store and where the events that answer it are addressed.

use crate::client::ClientSession;
use crate::client::SessionView;
use crate::database::Database;
use crate::database::DatabaseError;
use crate::event::ClientRequest;
use crate::event::ClientRequestType;
use crate::event::ClientRequestView;
use crate::event::Event;
use crate::event::EventMessage;
use crate::event::EventMessageView;
use crate::event::EventView;
use crate::event::NewClientConnection;
use crate::event::RequestView;
use crate::game::ConfigError;
use crate::game::Game;
use crate::game::GameStatus;
use crate::game::lemma_flip_keeps_wf;
use crate::game::Team;
use crate::game::word_values;
use crate::integrity::lemma_create_room_consistent;
use crate::integrity::lemma_create_session_consistent;
use crate::integrity::lemma_remove_room_consistent;
use crate::integrity::lemma_remove_session_consistent;
use crate::integrity::lemma_room_lists_its_members;
use crate::integrity::lemma_update_game_consistent;
use crate::integrity::lemma_update_session_consistent;
use crate::protocol::DeliveryView;
use crate::protocol::lemma_demote_consistent;
use crate::protocol::lemma_demote_step;
use crate::protocol::lemma_last_one_leaves;
use crate::protocol::to_all;
use crate::protocol::to_each_its_session;
use crate::protocol::to_one;
use crate::random::RandomSource;
use crate::store::StoreView;
use std::collections::HashMap;
use vstd::prelude::*;

verus! {

broadcast use vstd::std_specs::hash::group_hash_axioms;

/// A named lobby: the game that is played in it and the sessions that have
/// joined it, in the order in which the store keeps them.
#[derive(Debug, PartialEq)]
pub struct Room {
    pub name: String,
    pub game_id: u64,
    pub sessions: Vec<u64>,
}

/// The mathematical value of a `Room`.
pub struct RoomView {
    pub name: Seq<char>,
    pub game_id: u64,
    pub sessions: Seq<u64>,
}

impl View for Room {
    type V = RoomView;

    open spec fn view(&self) -> RoomView {
        RoomView { name: self.name@, game_id: self.game_id, sessions: self.sessions@ }
    }
}

impl Clone for Room {
    fn clone(&self) -> (copy: Self)
        ensures
            copy@ == self@,
    {
        Room { name: self.name.clone(), game_id: self.game_id, sessions: self.sessions.clone() }
    }
}

impl RoomView {
    /// A room that nobody has joined yet.
    pub open spec fn vacant(name: Seq<char>, game_id: u64) -> RoomView {
        RoomView { name, game_id, sessions: Seq::<u64>::empty() }
    }
}

impl Room {
    /// A room that nobody has joined yet.
    pub fn new(name: String, game_id: u64) -> (room: Room)
        ensures
            room@ == RoomView::vacant(name@, game_id),
    {
        Room { name, game_id, sessions: Vec::new() }
    }
}

/// An event addressed to the endpoint of one session.
#[derive(Debug)]
pub struct Delivery {
    pub recipient: u64,
    pub message: EventMessage,
}

impl View for Delivery {
    type V = DeliveryView;

    open spec fn view(&self) -> DeliveryView {
        DeliveryView { recipient: self.recipient, message: self.message@ }
    }
}

/// A list of deliveries as values.
pub open spec fn delivery_values(deliveries: Seq<Delivery>) -> Seq<DeliveryView> {
    Seq::new(deliveries.len(), |i: int| deliveries[i]@)
}

/// Appends one delivery: `event` for the session `recipient`.
fn send_message_to_client(
    deliveries: &mut Vec<Delivery>,
    recipient: u64,
    room: &Room,
    sender: &ClientSession,
    event: Event,
)
    ensures
        delivery_values(final(deliveries)@) == delivery_values(old(deliveries)@) + to_one(
            recipient,
            room@.name,
            sender@,
            event@,
        ),
{
    deliveries.push(
        Delivery {
            recipient,
            message: EventMessage { sender: sender.clone(), room: room.name.clone(), event },
        },
    );
    assert(delivery_values(deliveries@) =~= delivery_values(old(deliveries)@) + to_one(
        recipient,
        room@.name,
        sender@,
        event@,
    ));
}

/// Appends one delivery of `event` for each session of `room`, in the order
/// of the room's list.
fn send_message_to_clients(
    deliveries: &mut Vec<Delivery>,
    room: &Room,
    sender: &ClientSession,
    event: &Event,
)
    ensures
        delivery_values(final(deliveries)@) == delivery_values(old(deliveries)@) + to_all(
            room@.sessions,
            room@.name,
            sender@,
            event@,
        ),
{
    let mut i: usize = 0;
    while i < room.sessions.len()
        invariant
            i <= room.sessions.len(),
            delivery_values(deliveries@) == delivery_values(old(deliveries)@) + to_all(
                room@.sessions.take(i as int),
                room@.name,
                sender@,
                event@,
            ),
        decreases room.sessions.len() - i,
    {
        let ghost so_far = delivery_values(deliveries@);
        deliveries.push(
            Delivery {
                recipient: room.sessions[i],
                message: EventMessage {
                    sender: sender.clone(),
                    room: room.name.clone(),
                    event: event.clone(),
                },
            },
        );
        proof {
            let last = DeliveryView {
                recipient: room@.sessions[i as int],
                message: EventMessageView { sender: sender@, room: room@.name, event: event@ },
            };
            let shorter = to_all(room@.sessions.take(i as int), room@.name, sender@, event@);
            let longer = to_all(room@.sessions.take(i + 1), room@.name, sender@, event@);
            assert(delivery_values(deliveries@) =~= so_far.push(last));
            assert(longer =~= shorter.push(last));
            assert(so_far.push(last) =~= delivery_values(old(deliveries)@) + longer);
        }
        i = i + 1;
    }
    assert(room@.sessions.take(i as int) =~= room@.sessions);
}

/// Appends one delivery of the state of `game` for each session of `room`.
fn send_game_state_update_to_clients(
    deliveries: &mut Vec<Delivery>,
    room: &Room,
    sender: &ClientSession,
    game: &Game,
)
    ensures
        delivery_values(final(deliveries)@) == delivery_values(old(deliveries)@) + to_all(
            room@.sessions,
            room@.name,
            sender@,
            EventView::GameStateUpdate { game: game@ },
        ),
{
    let event = Event::GameStateUpdate { game: game.clone() };
    send_message_to_clients(deliveries, room, sender, &event);
}

/// The hub: the store, and for each session the handle of its endpoint.
/// Every request passes through `handle` or `send_event`, one at a time; what
/// comes back is the list of events to send, each with the session whose
/// endpoint is to get it.
pub struct WsServer<T: Database, H> {
    database: T,
    clients: HashMap<u64, H>,
    words: Vec<String>,
    rng: RandomSource,
}

impl<T: Database, H> WsServer<T, H> {
    /// The tables of the store.
    pub closed spec fn store(&self) -> StoreView {
        self.database@
    }

    /// The invariant of the store's implementation.
    pub closed spec fn store_inv(&self) -> bool {
        self.database.inv()
    }

    /// The words from which the store deals the board of a new room.
    pub closed spec fn store_words(&self) -> Seq<Seq<char>> {
        self.database.words()
    }

    /// The words from which the hub deals the board of a new game in a room
    /// that exists.
    pub closed spec fn words(&self) -> Seq<Seq<char>> {
        word_values(self.words@)
    }

    /// The handles of the endpoints, by session.
    pub closed spec fn endpoints(&self) -> Map<u64, H> {
        self.clients@
    }

    /// The invariant of the hub: the store is consistent, the sessions that
    /// have a handle are the sessions of the store, and there are words to
    /// deal from.
    pub open spec fn wf(&self) -> bool {
        &&& self.store_inv()
        &&& self.store().consistent()
        &&& self.endpoints().dom() == self.store().sessions.dom()
        &&& self.words().len() > 0
    }

    /// A hub over an empty store. Without any word there is no hub.
    pub fn new(database: T, words: Vec<String>, rng: RandomSource) -> (made: Result<
        WsServer<T, H>,
        ConfigError,
    >)
        requires
            database.inv(),
            database@ == StoreView::empty(),
        ensures
            match made {
                Ok(hub) => {
                    &&& words.len() > 0
                    &&& hub.wf()
                    &&& hub.store() == StoreView::empty()
                    &&& hub.endpoints() == Map::<u64, H>::empty()
                    &&& hub.words() == word_values(words@)
                    &&& hub.store_words() == database.words()
                },
                Err(e) => words.len() == 0 && e == ConfigError::EmptyWordSource,
            },
    {
        if words.len() == 0 {
            return Err(ConfigError::EmptyWordSource);
        }
        let hub = WsServer { database, clients: HashMap::new(), words, rng };
        proof {
            assert(hub.clients@.dom() =~= hub.database@.sessions.dom());
        }
        Ok(hub)
    }

    /// The store, to read from.
    pub fn database(&self) -> (database: &T)
        ensures
            database@ == self.store(),
            database.inv() == self.store_inv(),
            database.words() == self.store_words(),
    {
        &self.database
    }

    /// The handle of the endpoint of a session.
    pub fn client(&self, id: u64) -> (handle: Option<&H>)
        ensures
            match handle {
                Some(h) => self.endpoints().contains_key(id) && *h == self.endpoints()[id],
                None => !self.endpoints().contains_key(id),
            },
    {
        self.clients.get(&id)
    }

    /// Admits a connection to a room: the room is created, with a new game,
    /// where it does not exist; a session is created in it under a fresh
    /// identifier and the handle of the connection is kept under that
    /// identifier; then a `Connect` of the new session is handled. Returns
    /// the identifier and the deliveries of that `Connect`.
    pub fn handle(&mut self, msg: NewClientConnection<H>) -> (joined: (u64, Vec<Delivery>))
        requires
            old(self).wf(),
        ensures
            final(self).wf(),
            final(self).words() == old(self).words(),
            final(self).store_words() == old(self).store_words(),
            ({
                let id = joined.0;
                let name = msg.room@;
                let before = old(self).store();
                let game_id = final(self).store().rooms[name].game_id;
                let game = final(self).store().games[game_id];
                let opened = if before.rooms.contains_key(name) {
                    before
                } else {
                    before.create_room(name, game_id, game)
                };
                let connect = ClientRequestView {
                    sender_id: id,
                    room_name: name,
                    request: RequestView::Connect { id },
                };
                &&& !before.sessions.contains_key(id)
                &&& !before.rooms.contains_key(name) ==> {
                    &&& !before.games.contains_key(game_id)
                    &&& game.fresh(Team::BLUE, old(self).store_words())
                }
                &&& final(self).store() == opened.create_session(id, name)
                &&& final(self).endpoints() == old(self).endpoints().insert(id, msg.addr)
                &&& delivery_values(joined.1@) == final(self).store().on_connect(
                    connect,
                    id,
                ).deliveries
            }),
    {
        let ghost before = self.store();
        let NewClientConnection { room, addr } = msg;
        if self.database.get_room(&room).is_err() {
            match self.database.create_room(&room) {
                Ok(_) => {},
                Err(_) => vstd::pervasive::unreached(),
            }
            proof {
                let game_id = self.store().rooms[room@].game_id;
                lemma_create_room_consistent(before, room@, game_id, self.store().games[game_id]);
            }
        }
        let ghost opened = self.store();
        let session_id = match self.database.create_session(&room) {
            Ok(id) => id,
            Err(_) => vstd::pervasive::unreached(),
        };
        proof {
            lemma_create_session_consistent(opened, session_id, room@);
        }
        self.clients.insert(session_id, addr);
        proof {
            assert(self.endpoints() =~= old(self).endpoints().insert(session_id, addr));
            assert(self.endpoints().dom() =~= self.store().sessions.dom());
        }
        let connect = ClientRequest {
            sender_id: session_id,
            room_name: room,
            request: ClientRequestType::Connect { id: session_id },
        };
        let deliveries = match self.send_event(connect) {
            Ok(deliveries) => deliveries,
            Err(_) => vstd::pervasive::unreached(),
        };
        (session_id, deliveries)
    }

    /// Handles one request.
    ///
    /// The room of the request, the game of that room and the record of the
    /// sender are looked up once, on entry; a request whose room or sender
    /// is gone, or that names a session that is gone, is dropped: the error
    /// says which reference was stale, and nothing has changed. Otherwise
    /// the store is left as `StoreView::answer` says and the deliveries that
    /// it lists are returned, in that order. A session that leaves loses its
    /// handle; a room whose only session leaves goes with its game.
    pub fn send_event(&mut self, client_request: ClientRequest) -> (sent: Result<
        Vec<Delivery>,
        DatabaseError,
    >)
        requires
            old(self).wf(),
        ensures
            final(self).wf(),
            final(self).words() == old(self).words(),
            final(self).store_words() == old(self).store_words(),
            match sent {
                Ok(deliveries) => {
                    let before = old(self).store();
                    let game_id = before.rooms[client_request@.room_name].game_id;
                    let dealt = final(self).store().games[game_id];
                    &&& before.stale(client_request@) is None
                    &&& final(self).store() == before.answer(client_request@, dealt).store
                    &&& delivery_values(deliveries@) == before.answer(
                        client_request@,
                        dealt,
                    ).deliveries
                    &&& client_request@.request is NewGame ==> dealt.fresh(
                        before.games[game_id].starting_team.other(),
                        old(self).words(),
                    )
                    &&& final(self).endpoints() == match client_request@.request.leaver() {
                        Some(id) => old(self).endpoints().remove(id),
                        None => old(self).endpoints(),
                    }
                },
                Err(e) => {
                    &&& old(self).store().stale(client_request@) == Some(e@)
                    &&& final(self).store() == old(self).store()
                    &&& final(self).endpoints() == old(self).endpoints()
                },
            },
            sent is Ok && client_request@.request.leaver() is Some && old(self).store().last_one(
                client_request@.room_name,
                client_request@.request.leaver()->0,
            ) ==> {
                &&& !final(self).store().rooms.contains_key(client_request@.room_name)
                &&& !final(self).store().games.contains_key(
                    old(self).store().rooms[client_request@.room_name].game_id,
                )
            },
    {
        let ghost request = client_request@;
        let ghost before = self.store();
        let ClientRequest { sender_id, room_name, request: kind } = client_request;
        let room = match self.database.get_room(&room_name) {
            Ok(room) => room,
            Err(e) => {
                return Err(e);
            },
        };
        proof {
            assert(before.room_sound(request.room_name));
        }
        let game = match self.database.get_game(room.game_id) {
            Ok(game) => game,
            Err(_) => vstd::pervasive::unreached(),
        };
        let sender = match self.database.get_session(&sender_id) {
            Ok(sender) => sender,
            Err(e) => {
                return Err(e);
            },
        };
        match kind {
            ClientRequestType::Connect { id } => self.on_connect(
                &room,
                &game,
                &sender,
                id,
                Ghost(request),
            ),
            ClientRequestType::SetName { name } => Ok(
                self.on_set_name(&room, &sender, name, Ghost(request)),
            ),
            ClientRequestType::Disconnect { id } => {
                proof {
                    if before.last_one(request.room_name, id) {
                        lemma_last_one_leaves(before, request, id);
                    }
                }
                self.on_leave(&room_name, &game, &sender, id, Ghost(request))
            },
            ClientRequestType::TimedOut { id } => {
                proof {
                    if before.last_one(request.room_name, id) {
                        lemma_last_one_leaves(before, request, id);
                    }
                }
                self.on_leave(&room_name, &game, &sender, id, Ghost(request))
            },
            ClientRequestType::Message { text } => Ok(
                self.on_message(&room, &sender, text, Ghost(request)),
            ),
            ClientRequestType::FlipCard { coord } => Ok(
                self.on_flip_card(&room, &game, &sender, coord, Ghost(request)),
            ),
            ClientRequestType::NewGame {  } => Ok(
                self.on_new_game(&room, &game, &sender, Ghost(request)),
            ),
            ClientRequestType::SetSpyMaster { spymaster } => Ok(
                self.on_set_spymaster(&room, &sender, spymaster, Ghost(request)),
            ),
            ClientRequestType::NextTurn {  } => Ok(
                self.on_next_turn(&room, &game, &sender, Ghost(request)),
            ),
        }
    }

    fn on_connect(
        &self,
        room: &Room,
        game: &Game,
        sender: &ClientSession,
        id: u64,
        Ghost(request): Ghost<ClientRequestView>,
    ) -> (sent: Result<Vec<Delivery>, DatabaseError>)
        requires
            self.wf(),
            self.store().greets(request),
            request.request == (RequestView::Connect { id }),
            room@ == self.store().rooms[request.room_name],
            game@ == self.store().games[room@.game_id],
            sender@ == self.store().sessions[request.sender_id],
        ensures
            match sent {
                Ok(deliveries) => {
                    &&& self.store().stale(request) is None
                    &&& delivery_values(deliveries@) == self.store().on_connect(
                        request,
                        id,
                    ).deliveries
                },
                Err(e) => self.store().stale(request) == Some(e@),
            },
    {
        let session = match self.database.get_session(&id) {
            Ok(session) => session,
            Err(e) => {
                return Err(e);
            },
        };
        let mut deliveries: Vec<Delivery> = Vec::new();
        send_message_to_client(
            &mut deliveries,
            id,
            room,
            sender,
            Event::UpdateClientSession { session },
        );
        send_game_state_update_to_clients(&mut deliveries, room, sender, game);
        assert(delivery_values(deliveries@) =~= self.store().on_connect(request, id).deliveries);
        Ok(deliveries)
    }

    fn on_set_name(
        &mut self,
        room: &Room,
        sender: &ClientSession,
        name: String,
        Ghost(request): Ghost<ClientRequestView>,
    ) -> (deliveries: Vec<Delivery>)
        requires
            old(self).wf(),
            old(self).store().greets(request),
            room@ == old(self).store().rooms[request.room_name],
            sender@ == old(self).store().sessions[request.sender_id],
        ensures
            final(self).wf(),
            final(self).words() == old(self).words(),
            final(self).store_words() == old(self).store_words(),
            final(self).endpoints() == old(self).endpoints(),
            final(self).store() == old(self).store().on_set_name(request, name@).store,
            delivery_values(deliveries@) == old(self).store().on_set_name(request, name@).deliveries,
    {
        proof {
            assert(old(self).store().session_sound(request.sender_id));
            lemma_update_session_consistent(
                old(self).store(),
                request.sender_id,
                SessionView { username: name@, ..sender@ },
            );
        }
        let renamed = ClientSession {
            id: sender.id,
            username: name.clone(),
            room: sender.room.clone(),
            is_spymaster: sender.is_spymaster,
        };
        match self.database.update_session(sender.id, &renamed) {
            Ok(_) => {},
            Err(_) => vstd::pervasive::unreached(),
        }
        proof {
            assert(self.store().sessions.dom() =~= old(self).store().sessions.dom());
        }
        let mut deliveries: Vec<Delivery> = Vec::new();
        send_message_to_client(
            &mut deliveries,
            sender.id,
            room,
            sender,
            Event::UpdateClientSession { session: renamed },
        );
        let event = Event::SetName { id: sender.id, name };
        send_message_to_clients(&mut deliveries, room, sender, &event);
        assert(delivery_values(deliveries@) =~= old(self).store().on_set_name(
            request,
            name@,
        ).deliveries);
        deliveries
    }

    fn on_leave(
        &mut self,
        room_name: &String,
        game: &Game,
        sender: &ClientSession,
        id: u64,
        Ghost(request): Ghost<ClientRequestView>,
    ) -> (sent: Result<Vec<Delivery>, DatabaseError>)
        requires
            old(self).wf(),
            old(self).store().greets(request),
            request.request.leaver() == Some(id),
            room_name@ == request.room_name,
            game@ == old(self).store().games[old(self).store().rooms[request.room_name].game_id],
            sender@ == old(self).store().sessions[request.sender_id],
        ensures
            final(self).wf(),
            final(self).words() == old(self).words(),
            final(self).store_words() == old(self).store_words(),
            match sent {
                Ok(deliveries) => {
                    &&& old(self).store().stale(request) is None
                    &&& final(self).endpoints() == old(self).endpoints().remove(id)
                    &&& final(self).store() == old(self).store().on_leave(request, id).store
                    &&& delivery_values(deliveries@) == old(self).store().on_leave(
                        request,
                        id,
                    ).deliveries
                },
                Err(e) => {
                    &&& old(self).store().stale(request) == Some(e@)
                    &&& final(self).endpoints() == old(self).endpoints()
                    &&& final(self).store() == old(self).store()
                },
            },
    {
        let ghost before = self.store();
        proof {
            if before.sessions.contains_key(id) {
                assert(before.session_sound(id));
                lemma_remove_session_consistent(before, id);
            }
        }
        match self.database.remove_session(id) {
            Ok(_) => {},
            Err(e) => {
                return Err(e);
            },
        }
        self.clients.remove(&id);
        let ghost left = self.store();
        proof {
            assert(left == before.remove_session(id));
            assert(self.endpoints() =~= old(self).endpoints().remove(id));
            assert(self.endpoints().dom() =~= left.sessions.dom());
        }
        let room = match self.database.get_room(room_name) {
            Ok(room) => room,
            Err(_) => vstd::pervasive::unreached(),
        };
        let mut deliveries: Vec<Delivery> = Vec::new();
        if room.sessions.len() == 0 {
            proof {
                lemma_remove_room_consistent(left, request.room_name);
            }
            match self.database.remove_room(room_name) {
                Ok(_) => {},
                Err(_) => vstd::pervasive::unreached(),
            }
            assert(delivery_values(deliveries@) =~= before.on_leave(request, id).deliveries);
            return Ok(deliveries);
        }
        let event = Event::Disconnect { id };
        send_message_to_clients(&mut deliveries, &room, sender, &event);
        send_game_state_update_to_clients(&mut deliveries, &room, sender, game);
        proof {
            assert(left.room_sound(request.room_name));
            assert(before.room_sound(request.room_name));
            assert(delivery_values(deliveries@) =~= before.on_leave(request, id).deliveries);
        }
        Ok(deliveries)
    }

    fn on_message(
        &self,
        room: &Room,
        sender: &ClientSession,
        text: String,
        Ghost(request): Ghost<ClientRequestView>,
    ) -> (deliveries: Vec<Delivery>)
        requires
            self.wf(),
            self.store().greets(request),
            room@ == self.store().rooms[request.room_name],
            sender@ == self.store().sessions[request.sender_id],
        ensures
            delivery_values(deliveries@) == self.store().on_message(request, text@).deliveries,
    {
        let mut deliveries: Vec<Delivery> = Vec::new();
        let event = Event::Message { sender: sender.clone(), text };
        send_message_to_clients(&mut deliveries, room, sender, &event);
        assert(delivery_values(deliveries@) =~= self.store().on_message(request, text@).deliveries);
        deliveries
    }

    fn on_flip_card(
        &mut self,
        room: &Room,
        game: &Game,
        sender: &ClientSession,
        coord: (usize, usize),
        Ghost(request): Ghost<ClientRequestView>,
    ) -> (deliveries: Vec<Delivery>)
        requires
            old(self).wf(),
            old(self).store().greets(request),
            room@ == old(self).store().rooms[request.room_name],
            game@ == old(self).store().games[room@.game_id],
            sender@ == old(self).store().sessions[request.sender_id],
        ensures
            final(self).wf(),
            final(self).words() == old(self).words(),
            final(self).store_words() == old(self).store_words(),
            final(self).endpoints() == old(self).endpoints(),
            final(self).store() == old(self).store().on_flip_card(request, coord).store,
            delivery_values(deliveries@) == old(self).store().on_flip_card(request, coord).deliveries,
    {
        let mut deliveries: Vec<Delivery> = Vec::new();
        proof {
            assert(old(self).store().room_sound(request.room_name));
        }
        if game.game_status != GameStatus::IN_PROGRESS || coord.0 >= 5 || coord.1 >= 5 {
            assert(delivery_values(deliveries@) =~= old(self).store().on_flip_card(
                request,
                coord,
            ).deliveries);
            return deliveries;
        }
        if game.board[coord.0][coord.1].flipped {
            assert(delivery_values(deliveries@) =~= old(self).store().on_flip_card(
                request,
                coord,
            ).deliveries);
            return deliveries;
        }
        proof {
            lemma_flip_keeps_wf(game@, coord.0, coord.1);
            lemma_update_game_consistent(
                old(self).store(),
                room@.game_id,
                game@.flip(coord.0, coord.1),
            );
        }
        let new_game = match self.database.flip_card(room.game_id, coord) {
            Ok(new_game) => new_game,
            Err(_) => vstd::pervasive::unreached(),
        };
        let event = Event::FlipCard { flipped_card: new_game.board[coord.0][coord.1].clone() };
        send_message_to_clients(&mut deliveries, room, sender, &event);
        send_game_state_update_to_clients(&mut deliveries, room, sender, &new_game);
        assert(delivery_values(deliveries@) =~= old(self).store().on_flip_card(
            request,
            coord,
        ).deliveries);
        deliveries
    }

    fn on_new_game(
        &mut self,
        room: &Room,
        game: &Game,
        sender: &ClientSession,
        Ghost(request): Ghost<ClientRequestView>,
    ) -> (deliveries: Vec<Delivery>)
        requires
            old(self).wf(),
            old(self).store().greets(request),
            room@ == old(self).store().rooms[request.room_name],
            game@ == old(self).store().games[room@.game_id],
            sender@ == old(self).store().sessions[request.sender_id],
        ensures
            final(self).wf(),
            final(self).words() == old(self).words(),
            final(self).store_words() == old(self).store_words(),
            final(self).endpoints() == old(self).endpoints(),
            ({
                let dealt = final(self).store().games[room@.game_id];
                &&& dealt.fresh(game@.starting_team.other(), old(self).words())
                &&& final(self).store() == old(self).store().on_new_game(request, dealt).store
                &&& delivery_values(deliveries@) == old(self).store().on_new_game(
                    request,
                    dealt,
                ).deliveries
            }),
    {
        let ghost before = self.store();
        proof {
            assert(before.room_sound(request.room_name));
        }
        let new_game = match game.new_from_current_game(&self.words, &mut self.rng) {
            Ok(new_game) => new_game,
            Err(_) => vstd::pervasive::unreached(),
        };
        proof {
            lemma_update_game_consistent(before, room@.game_id, new_game@);
        }
        match self.database.update_game(room.game_id, &new_game) {
            Ok(_) => {},
            Err(_) => vstd::pervasive::unreached(),
        }
        let ghost base = self.store();
        let ghost ids = room@.sessions;
        let ghost done = base.demote(ids);
        let mut deliveries: Vec<Delivery> = Vec::new();
        let mut i: usize = 0;
        proof {
            assert(base.demote(ids.take(0)) =~= base) by {
                assert(base.demote(ids.take(0)).sessions =~= base.sessions);
            }
            assert(delivery_values(deliveries@) =~= to_each_its_session(
                ids.take(0),
                room@.name,
                sender@,
                done,
            ));
        }
        while i < room.sessions.len()
            invariant
                i <= room.sessions.len(),
                ids == room@.sessions,
                done == base.demote(ids),
                base.consistent(),
                base.rooms.contains_key(request.room_name),
                base.rooms[request.room_name] == room@,
                self.store_inv(),
                self.words() == old(self).words(),
                self.store_words() == old(self).store_words(),
                self.endpoints() == old(self).endpoints(),
                self.store() == base.demote(ids.take(i as int)),
                delivery_values(deliveries@) == to_each_its_session(
                    ids.take(i as int),
                    room@.name,
                    sender@,
                    done,
                ),
            decreases room.sessions.len() - i,
        {
            let id = room.sessions[i];
            let ghost so_far = delivery_values(deliveries@);
            proof {
                assert(base.room_sound(request.room_name));
                assert(base.sessions.contains_key(ids[i as int]));
                assert(base.session_sound(id));
            }
            let session = match self.database.get_session(&id) {
                Ok(session) => session,
                Err(_) => vstd::pervasive::unreached(),
            };
            let demoted = ClientSession {
                id: session.id,
                username: session.username,
                room: session.room,
                is_spymaster: false,
            };
            match self.database.update_session(id, &demoted) {
                Ok(_) => {},
                Err(_) => vstd::pervasive::unreached(),
            }
            send_message_to_client(
                &mut deliveries,
                id,
                room,
                sender,
                Event::UpdateClientSession { session: demoted },
            );
            proof {
                lemma_demote_step(base, ids, i as int);
                assert(ids.contains(id));
                let last = DeliveryView {
                    recipient: id,
                    message: EventMessageView {
                        sender: sender@,
                        room: room@.name,
                        event: EventView::UpdateClientSession { session: done.sessions[id] },
                    },
                };
                let shorter = to_each_its_session(ids.take(i as int), room@.name, sender@, done);
                let longer = to_each_its_session(ids.take(i + 1), room@.name, sender@, done);
                assert(longer =~= shorter.push(last));
                assert(delivery_values(deliveries@) =~= longer);
            }
            i = i + 1;
        }
        proof {
            assert(ids.take(i as int) =~= ids);
            lemma_demote_consistent(base, ids);
            assert(self.store().sessions.dom() =~= before.sessions.dom());
        }
        let event = Event::NewGame {  };
        send_message_to_clients(&mut deliveries, room, sender, &event);
        send_game_state_update_to_clients(&mut deliveries, room, sender, &new_game);
        proof {
            let dealt = self.store().games[room@.game_id];
            assert(dealt == new_game@);
            assert(self.store() == before.on_new_game(request, dealt).store);
            assert(delivery_values(deliveries@) =~= before.on_new_game(request, dealt).deliveries);
        }
        deliveries
    }

    fn on_set_spymaster(
        &mut self,
        room: &Room,
        sender: &ClientSession,
        spymaster: bool,
        Ghost(request): Ghost<ClientRequestView>,
    ) -> (deliveries: Vec<Delivery>)
        requires
            old(self).wf(),
            old(self).store().greets(request),
            room@ == old(self).store().rooms[request.room_name],
            sender@ == old(self).store().sessions[request.sender_id],
        ensures
            final(self).wf(),
            final(self).words() == old(self).words(),
            final(self).store_words() == old(self).store_words(),
            final(self).endpoints() == old(self).endpoints(),
            final(self).store() == old(self).store().on_set_spymaster(request, spymaster).store,
            delivery_values(deliveries@) == old(self).store().on_set_spymaster(
                request,
                spymaster,
            ).deliveries,
    {
        proof {
            assert(old(self).store().session_sound(request.sender_id));
            lemma_update_session_consistent(
                old(self).store(),
                request.sender_id,
                SessionView { is_spymaster: spymaster, ..sender@ },
            );
        }
        let updated = ClientSession {
            id: sender.id,
            username: sender.username.clone(),
            room: sender.room.clone(),
            is_spymaster: spymaster,
        };
        match self.database.update_session(sender.id, &updated) {
            Ok(_) => {},
            Err(_) => vstd::pervasive::unreached(),
        }
        proof {
            assert(self.store().sessions.dom() =~= old(self).store().sessions.dom());
        }
        let mut deliveries: Vec<Delivery> = Vec::new();
        send_message_to_client(
            &mut deliveries,
            sender.id,
            room,
            sender,
            Event::UpdateClientSession { session: updated },
        );
        let event = Event::SetSpyMaster {  };
        send_message_to_clients(&mut deliveries, room, sender, &event);
        assert(delivery_values(deliveries@) =~= old(self).store().on_set_spymaster(
            request,
            spymaster,
        ).deliveries);
        deliveries
    }

    fn on_next_turn(
        &mut self,
        room: &Room,
        game: &Game,
        sender: &ClientSession,
        Ghost(request): Ghost<ClientRequestView>,
    ) -> (deliveries: Vec<Delivery>)
        requires
            old(self).wf(),
            old(self).store().greets(request),
            room@ == old(self).store().rooms[request.room_name],
            game@ == old(self).store().games[room@.game_id],
            sender@ == old(self).store().sessions[request.sender_id],
        ensures
            final(self).wf(),
            final(self).words() == old(self).words(),
            final(self).store_words() == old(self).store_words(),
            final(self).endpoints() == old(self).endpoints(),
            final(self).store() == old(self).store().on_next_turn(request).store,
            delivery_values(deliveries@) == old(self).store().on_next_turn(request).deliveries,
    {
        let mut deliveries: Vec<Delivery> = Vec::new();
        proof {
            assert(old(self).store().room_sound(request.room_name));
            assert(game@.wf());
            assert(game@.pass_turn().wf());
            lemma_update_game_consistent(old(self).store(), room@.game_id, game@.pass_turn());
        }
        let new_game = match self.database.next_turn(room.game_id) {
            Ok(new_game) => new_game,
            Err(_) => vstd::pervasive::unreached(),
        };
        let event = Event::NextTurn {  };
        send_message_to_clients(&mut deliveries, room, sender, &event);
        send_game_state_update_to_clients(&mut deliveries, room, sender, &new_game);
        assert(delivery_values(deliveries@) =~= old(self).store().on_next_turn(request).deliveries);
        deliveries
    }

    /// Under the hub's invariant, and so after every request, a room lists
    /// as many sessions as name it as their own, and the sessions that have
    /// a handle are the sessions of the store.
    pub proof fn lemma_rooms_list_their_members(&self, name: Seq<char>)
        requires
            self.wf(),
            self.store().rooms.contains_key(name),
        ensures
            self.store().members(name).finite(),
            self.store().rooms[name].sessions.len() == self.store().members(name).len(),
            self.store().rooms[name].sessions.to_set() == self.store().members(name),
            self.store().members(name).subset_of(self.endpoints().dom()),
    {
        lemma_room_lists_its_members(self.store(), name);
    }
}

} // verus!
