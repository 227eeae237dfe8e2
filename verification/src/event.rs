//! What travels between the connections and the hub: the requests of the
//! clients, and the events with which the hub answers them.

use crate::client::ClientSession;
use crate::client::SessionView;
use crate::game::Card;
use crate::game::CardView;
use crate::game::Game;
use crate::game::GameView;
use vstd::prelude::*;

verus! {

/// What the hub tells a client.
#[derive(Debug)]
pub enum Event {
    Connect { id: u64 },
    SetName { id: u64, name: String },
    Disconnect { id: u64 },
    TimedOut { id: u64 },
    Message { sender: ClientSession, text: String },
    FlipCard { flipped_card: Card },
    NewGame {  },
    GameStateUpdate { game: Game },
    UpdateClientSession { session: ClientSession },
    SetSpyMaster {  },
    NextTurn {  },
}

/// The mathematical value of an `Event`.
pub enum EventView {
    Connect { id: u64 },
    SetName { id: u64, name: Seq<char> },
    Disconnect { id: u64 },
    TimedOut { id: u64 },
    Message { sender: SessionView, text: Seq<char> },
    FlipCard { flipped_card: CardView },
    NewGame,
    GameStateUpdate { game: GameView },
    UpdateClientSession { session: SessionView },
    SetSpyMaster,
    NextTurn,
}

impl View for Event {
    type V = EventView;

    open spec fn view(&self) -> EventView {
        match *self {
            Event::Connect { id } => EventView::Connect { id },
            Event::SetName { id, name } => EventView::SetName { id, name: name@ },
            Event::Disconnect { id } => EventView::Disconnect { id },
            Event::TimedOut { id } => EventView::TimedOut { id },
            Event::Message { sender, text } => EventView::Message { sender: sender@, text: text@ },
            Event::FlipCard { flipped_card } => EventView::FlipCard { flipped_card: flipped_card@ },
            Event::NewGame {  } => EventView::NewGame,
            Event::GameStateUpdate { game } => EventView::GameStateUpdate { game: game@ },
            Event::UpdateClientSession { session } => EventView::UpdateClientSession {
                session: session@,
            },
            Event::SetSpyMaster {  } => EventView::SetSpyMaster,
            Event::NextTurn {  } => EventView::NextTurn,
        }
    }
}

impl Clone for Event {
    fn clone(&self) -> (copy: Self)
        ensures
            copy == *self,
    {
        match self {
            Event::Connect { id } => Event::Connect { id: *id },
            Event::SetName { id, name } => Event::SetName { id: *id, name: name.clone() },
            Event::Disconnect { id } => Event::Disconnect { id: *id },
            Event::TimedOut { id } => Event::TimedOut { id: *id },
            Event::Message { sender, text } => Event::Message {
                sender: sender.clone(),
                text: text.clone(),
            },
            Event::FlipCard { flipped_card } => Event::FlipCard { flipped_card: flipped_card.clone() },
            Event::NewGame {  } => Event::NewGame {  },
            Event::GameStateUpdate { game } => Event::GameStateUpdate { game: game.clone() },
            Event::UpdateClientSession { session } => Event::UpdateClientSession {
                session: session.clone(),
            },
            Event::SetSpyMaster {  } => Event::SetSpyMaster {  },
            Event::NextTurn {  } => Event::NextTurn {  },
        }
    }
}

/// An event on its way to one client: who caused it, in which room, and
/// what happened.
#[derive(Debug)]
pub struct EventMessage {
    pub sender: ClientSession,
    pub room: String,
    pub event: Event,
}

/// The mathematical value of an `EventMessage`.
pub struct EventMessageView {
    pub sender: SessionView,
    pub room: Seq<char>,
    pub event: EventView,
}

impl View for EventMessage {
    type V = EventMessageView;

    open spec fn view(&self) -> EventMessageView {
        EventMessageView { sender: self.sender@, room: self.room@, event: self.event@ }
    }
}

impl Clone for EventMessage {
    fn clone(&self) -> (copy: Self)
        ensures
            copy == *self,
    {
        EventMessage {
            sender: self.sender.clone(),
            room: self.room.clone(),
            event: self.event.clone(),
        }
    }
}

/// What a client may ask for.
#[derive(Debug)]
pub enum ClientRequestType {
    Connect { id: u64 },
    SetName { name: String },
    Disconnect { id: u64 },
    TimedOut { id: u64 },
    Message { text: String },
    FlipCard { coord: (usize, usize) },
    NewGame {  },
    SetSpyMaster { spymaster: bool },
    NextTurn {  },
}

/// The mathematical value of a `ClientRequestType`.
pub enum RequestView {
    Connect { id: u64 },
    SetName { name: Seq<char> },
    Disconnect { id: u64 },
    TimedOut { id: u64 },
    Message { text: Seq<char> },
    FlipCard { coord: (usize, usize) },
    NewGame,
    SetSpyMaster { spymaster: bool },
    NextTurn,
}

impl View for ClientRequestType {
    type V = RequestView;

    open spec fn view(&self) -> RequestView {
        match *self {
            ClientRequestType::Connect { id } => RequestView::Connect { id },
            ClientRequestType::SetName { name } => RequestView::SetName { name: name@ },
            ClientRequestType::Disconnect { id } => RequestView::Disconnect { id },
            ClientRequestType::TimedOut { id } => RequestView::TimedOut { id },
            ClientRequestType::Message { text } => RequestView::Message { text: text@ },
            ClientRequestType::FlipCard { coord } => RequestView::FlipCard { coord },
            ClientRequestType::NewGame {  } => RequestView::NewGame,
            ClientRequestType::SetSpyMaster { spymaster } => RequestView::SetSpyMaster {
                spymaster,
            },
            ClientRequestType::NextTurn {  } => RequestView::NextTurn,
        }
    }
}

impl Clone for ClientRequestType {
    fn clone(&self) -> (copy: Self)
        ensures
            copy == *self,
    {
        match self {
            ClientRequestType::Connect { id } => ClientRequestType::Connect { id: *id },
            ClientRequestType::SetName { name } => ClientRequestType::SetName {
                name: name.clone(),
            },
            ClientRequestType::Disconnect { id } => ClientRequestType::Disconnect { id: *id },
            ClientRequestType::TimedOut { id } => ClientRequestType::TimedOut { id: *id },
            ClientRequestType::Message { text } => ClientRequestType::Message {
                text: text.clone(),
            },
            ClientRequestType::FlipCard { coord } => ClientRequestType::FlipCard { coord: *coord },
            ClientRequestType::NewGame {  } => ClientRequestType::NewGame {  },
            ClientRequestType::SetSpyMaster { spymaster } => ClientRequestType::SetSpyMaster {
                spymaster: *spymaster,
            },
            ClientRequestType::NextTurn {  } => ClientRequestType::NextTurn {  },
        }
    }
}

/// A request as the hub receives it: what is asked, by which session, for
/// which room.
#[derive(Debug)]
pub struct ClientRequest {
    pub sender_id: u64,
    pub room_name: String,
    pub request: ClientRequestType,
}

/// The mathematical value of a `ClientRequest`.
pub struct ClientRequestView {
    pub sender_id: u64,
    pub room_name: Seq<char>,
    pub request: RequestView,
}

impl View for ClientRequest {
    type V = ClientRequestView;

    open spec fn view(&self) -> ClientRequestView {
        ClientRequestView {
            sender_id: self.sender_id,
            room_name: self.room_name@,
            request: self.request@,
        }
    }
}

impl Clone for ClientRequest {
    fn clone(&self) -> (copy: Self)
        ensures
            copy == *self,
    {
        ClientRequest {
            sender_id: self.sender_id,
            room_name: self.room_name.clone(),
            request: self.request.clone(),
        }
    }
}

/// A connection that asks to join a room. `addr` is the handle through
/// which the connection can be reached; the hub keeps it and never looks
/// inside.
pub struct NewClientConnection<H> {
    pub room: String,
    pub addr: H,
}

} // verus!
