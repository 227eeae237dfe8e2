//! The record that the server keeps of one connected client, and the state
//! machine that runs one connection from the accepted socket to its close.

use crate::event::ClientRequest;
use crate::event::ClientRequestType;
use crate::event::ClientRequestView;
use crate::event::RequestView;
use vstd::prelude::*;

verus! {

/// How often an endpoint checks on its client, in milliseconds.
pub const HEARTBEAT_INTERVAL: u64 = 5000;

/// How long a client may stay silent before its endpoint gives it up, in
/// milliseconds.
pub const CLIENT_TIMEOUT: u64 = 10000;

/// The server's record of one connected client.
#[derive(Debug, PartialEq)]
pub struct ClientSession {
    pub id: u64,
    pub username: String,
    pub room: String,
    pub is_spymaster: bool,
}

/// The mathematical value of a `ClientSession`.
pub struct SessionView {
    pub id: u64,
    pub username: Seq<char>,
    pub room: Seq<char>,
    pub is_spymaster: bool,
}

impl View for ClientSession {
    type V = SessionView;

    open spec fn view(&self) -> SessionView {
        SessionView {
            id: self.id,
            username: self.username@,
            room: self.room@,
            is_spymaster: self.is_spymaster,
        }
    }
}

impl Clone for ClientSession {
    fn clone(&self) -> (copy: Self)
        ensures
            copy == *self,
    {
        ClientSession {
            id: self.id,
            username: self.username.clone(),
            room: self.room.clone(),
            is_spymaster: self.is_spymaster,
        }
    }
}

impl SessionView {
    /// The record of a client that has just joined `room`: no name yet, and
    /// no spymaster.
    pub open spec fn joining(id: u64, room: Seq<char>) -> SessionView {
        SessionView { id, username: Seq::<char>::empty(), room, is_spymaster: false }
    }
}

impl ClientSession {
    /// The record of a client that has just joined `room` under `id`.
    pub fn new(id: u64, room: &String) -> (session: ClientSession)
        ensures
            session@ == SessionView::joining(id, room@),
    {
        ClientSession { id, username: String::new(), room: room.clone(), is_spymaster: false }
    }
}

/// Where a connection stands between the accepted socket and its close.
#[derive(Clone, Copy, Debug, PartialEq, Eq, Structural)]
pub enum Phase {
    /// The socket has been accepted and nothing has been done yet.
    Opening,
    /// The hub has been asked for a session.
    Joining,
    /// The session exists and frames are served.
    Active,
    /// The connection is being closed and the hub has yet to be told.
    Closing,
    /// The hub has been told, or there was no session to tell it of.
    Closed,
}

/// What arrives from the client. A text frame arrives as the request that
/// it holds, or as `Malformed` where it holds none.
#[derive(Debug)]
pub enum Frame {
    Ping { payload: Vec<u8> },
    Pong,
    Request { request: ClientRequestType },
    Malformed,
    Close,
    Unrecognized,
}

/// The mathematical value of a `Frame`.
pub enum FrameView {
    Ping { payload: Seq<u8> },
    Pong,
    Request { request: RequestView },
    Malformed,
    Close,
    Unrecognized,
}

impl View for Frame {
    type V = FrameView;

    open spec fn view(&self) -> FrameView {
        match *self {
            Frame::Ping { payload } => FrameView::Ping { payload: payload@ },
            Frame::Pong => FrameView::Pong,
            Frame::Request { request } => FrameView::Request { request: request@ },
            Frame::Malformed => FrameView::Malformed,
            Frame::Close => FrameView::Close,
            Frame::Unrecognized => FrameView::Unrecognized,
        }
    }
}

/// What an endpoint asks of the code that runs it.
#[derive(Debug)]
pub enum Command {
    /// Ask the hub to admit this connection to the room.
    Join { room: String },
    /// Send a ping with an empty payload.
    Ping,
    /// Send a pong with this payload.
    Pong { payload: Vec<u8> },
    /// Hand this request to the hub.
    Post { request: ClientRequest },
    /// Close the socket and stop.
    Stop,
}

/// The mathematical value of a `Command`.
pub enum CommandView {
    Join { room: Seq<char> },
    Ping,
    Pong { payload: Seq<u8> },
    Post { request: ClientRequestView },
    Stop,
}

impl View for Command {
    type V = CommandView;

    open spec fn view(&self) -> CommandView {
        match *self {
            Command::Join { room } => CommandView::Join { room: room@ },
            Command::Ping => CommandView::Ping,
            Command::Pong { payload } => CommandView::Pong { payload: payload@ },
            Command::Post { request } => CommandView::Post { request: request@ },
            Command::Stop => CommandView::Stop,
        }
    }
}

/// A list of commands as values.
pub open spec fn command_values(commands: Seq<Command>) -> Seq<CommandView> {
    Seq::new(commands.len(), |i: int| commands[i]@)
}

/// The endpoint of one connection. `session_id` is zero until the hub has
/// assigned one; `hb` is the time at which the client was last heard of.
/// Times are in milliseconds on a clock that never runs backwards.
#[derive(Debug)]
pub struct WsClient {
    pub session_id: u64,
    pub room_name: String,
    pub hb: u64,
    pub phase: Phase,
}

/// The mathematical value of a `WsClient`.
pub struct EndpointView {
    pub session_id: u64,
    pub room_name: Seq<char>,
    pub hb: u64,
    pub phase: Phase,
}

impl View for WsClient {
    type V = EndpointView;

    open spec fn view(&self) -> EndpointView {
        EndpointView {
            session_id: self.session_id,
            room_name: self.room_name@,
            hb: self.hb,
            phase: self.phase,
        }
    }
}

/// One step of an endpoint: the state that it reaches and what it asks for,
/// in order.
pub struct Step {
    pub next: EndpointView,
    pub commands: Seq<CommandView>,
}

impl EndpointView {
    /// An endpoint for `room`, as it is when the socket has been accepted
    /// at time `now`.
    pub open spec fn opening(room: Seq<char>, now: u64) -> EndpointView {
        EndpointView { session_id: 0, room_name: room, hb: now, phase: Phase::Opening }
    }

    /// The request of this endpoint's session for its room.
    pub open spec fn request(self, request: RequestView) -> ClientRequestView {
        ClientRequestView { sender_id: self.session_id, room_name: self.room_name, request }
    }

    /// Whether the client has been silent for longer than `CLIENT_TIMEOUT`
    /// at time `now`.
    pub open spec fn expired(self, now: u64) -> bool {
        now - self.hb > CLIENT_TIMEOUT
    }

    /// The start: an opening endpoint asks the hub to be admitted and waits
    /// for the answer. Any other endpoint stays as it is.
    pub open spec fn on_start(self) -> Step {
        if self.phase == Phase::Opening {
            Step {
                next: EndpointView { phase: Phase::Joining, ..self },
                commands: seq![CommandView::Join { room: self.room_name }],
            }
        } else {
            Step { next: self, commands: Seq::empty() }
        }
    }

    /// The hub's answer: a joining endpoint that is assigned a session
    /// becomes active under it; one that is refused stops, and there is
    /// nothing to tell the hub. Any other endpoint stays as it is.
    pub open spec fn on_joined(self, assigned: Option<u64>) -> Step {
        if self.phase == Phase::Joining {
            match assigned {
                Some(id) => Step {
                    next: EndpointView { session_id: id, phase: Phase::Active, ..self },
                    commands: Seq::empty(),
                },
                None => Step {
                    next: EndpointView { phase: Phase::Closed, ..self },
                    commands: seq![CommandView::Stop],
                },
            }
        } else {
            Step { next: self, commands: Seq::empty() }
        }
    }

    /// A tick of the heartbeat timer at time `now`: an active endpoint whose
    /// client has been silent for too long tells the hub that the session
    /// has timed out and stops; otherwise it pings the client. Any other
    /// endpoint stays as it is.
    pub open spec fn on_tick(self, now: u64) -> Step {
        if self.phase != Phase::Active {
            Step { next: self, commands: Seq::empty() }
        } else if self.expired(now) {
            Step {
                next: EndpointView { phase: Phase::Closed, ..self },
                commands: seq![
                    CommandView::Post {
                        request: self.request(RequestView::TimedOut { id: self.session_id }),
                    },
                    CommandView::Stop,
                ],
            }
        } else {
            Step { next: self, commands: seq![CommandView::Ping] }
        }
    }

    /// A frame that arrives at time `now`. An active endpoint answers a ping
    /// with a pong of the same payload, takes a ping or a pong for a sign of
    /// life, hands a request to the hub under its own session and room,
    /// drops what it cannot read, and begins to close on a close frame. Any
    /// other endpoint stays as it is.
    pub open spec fn on_frame(self, frame: FrameView, now: u64) -> Step {
        if self.phase != Phase::Active {
            Step { next: self, commands: Seq::empty() }
        } else {
            match frame {
                FrameView::Ping { payload } => Step {
                    next: EndpointView { hb: now, ..self },
                    commands: seq![CommandView::Pong { payload }],
                },
                FrameView::Pong => Step {
                    next: EndpointView { hb: now, ..self },
                    commands: Seq::empty(),
                },
                FrameView::Request { request } => Step {
                    next: self,
                    commands: seq![CommandView::Post { request: self.request(request) }],
                },
                FrameView::Close => Step {
                    next: EndpointView { phase: Phase::Closing, ..self },
                    commands: seq![CommandView::Stop],
                },
                _ => Step { next: self, commands: Seq::empty() },
            }
        }
    }

    /// The stop: an endpoint that has a session of which the hub has not
    /// been told yet tells it that the session disconnects. Every endpoint
    /// is closed afterwards.
    pub open spec fn on_stop(self) -> Step {
        let next = EndpointView { phase: Phase::Closed, ..self };
        if self.phase == Phase::Active || self.phase == Phase::Closing {
            Step {
                next,
                commands: seq![
                    CommandView::Post {
                        request: self.request(RequestView::Disconnect { id: self.session_id }),
                    },
                ],
            }
        } else {
            Step { next, commands: Seq::empty() }
        }
    }
}

/// A closed endpoint stays closed and asks for nothing, whatever happens:
/// the request with which it told the hub of its end was its last.
pub proof fn lemma_closed_is_silent(
    endpoint: EndpointView,
    assigned: Option<u64>,
    frame: FrameView,
    now: u64,
)
    requires
        endpoint.phase == Phase::Closed,
    ensures
        endpoint.on_start() == (Step { next: endpoint, commands: Seq::empty() }),
        endpoint.on_joined(assigned) == (Step { next: endpoint, commands: Seq::empty() }),
        endpoint.on_tick(now) == (Step { next: endpoint, commands: Seq::empty() }),
        endpoint.on_frame(frame, now) == (Step { next: endpoint, commands: Seq::empty() }),
        endpoint.on_stop() == (Step { next: endpoint, commands: Seq::empty() }),
{
}

impl WsClient {
    /// An endpoint for `room`, for a socket accepted at time `now`.
    pub fn new(room: &String, now: u64) -> (endpoint: WsClient)
        ensures
            endpoint@ == EndpointView::opening(room@, now),
    {
        WsClient { session_id: 0, room_name: room.clone(), hb: now, phase: Phase::Opening }
    }

    /// The start of the endpoint.
    pub fn started(&mut self) -> (commands: Vec<Command>)
        ensures
            final(self)@ == old(self)@.on_start().next,
            command_values(commands@) == old(self)@.on_start().commands,
    {
        let mut commands: Vec<Command> = Vec::new();
        if self.phase == Phase::Opening {
            self.phase = Phase::Joining;
            commands.push(Command::Join { room: self.room_name.clone() });
        }
        assert(command_values(commands@) =~= old(self)@.on_start().commands);
        commands
    }

    /// The hub's answer to the request to be admitted: the session that it
    /// has assigned, or nothing where it could not be reached.
    pub fn joined(&mut self, assigned: Option<u64>) -> (commands: Vec<Command>)
        ensures
            final(self)@ == old(self)@.on_joined(assigned).next,
            command_values(commands@) == old(self)@.on_joined(assigned).commands,
    {
        let mut commands: Vec<Command> = Vec::new();
        if self.phase == Phase::Joining {
            match assigned {
                Some(id) => {
                    self.session_id = id;
                    self.phase = Phase::Active;
                },
                None => {
                    self.phase = Phase::Closed;
                    commands.push(Command::Stop);
                },
            }
        }
        assert(command_values(commands@) =~= old(self)@.on_joined(assigned).commands);
        commands
    }

    /// A tick of the heartbeat timer at time `now`.
    pub fn hb(&mut self, now: u64) -> (commands: Vec<Command>)
        ensures
            final(self)@ == old(self)@.on_tick(now).next,
            command_values(commands@) == old(self)@.on_tick(now).commands,
    {
        let mut commands: Vec<Command> = Vec::new();
        if self.phase == Phase::Active {
            if now > self.hb && now - self.hb > CLIENT_TIMEOUT {
                self.phase = Phase::Closed;
                commands.push(
                    Command::Post {
                        request: ClientRequest {
                            sender_id: self.session_id,
                            room_name: self.room_name.clone(),
                            request: ClientRequestType::TimedOut { id: self.session_id },
                        },
                    },
                );
                commands.push(Command::Stop);
            } else {
                commands.push(Command::Ping);
            }
        }
        assert(command_values(commands@) =~= old(self)@.on_tick(now).commands);
        commands
    }

    /// A frame that arrives from the client at time `now`.
    pub fn handle(&mut self, frame: Frame, now: u64) -> (commands: Vec<Command>)
        ensures
            final(self)@ == old(self)@.on_frame(frame@, now).next,
            command_values(commands@) == old(self)@.on_frame(frame@, now).commands,
    {
        let mut commands: Vec<Command> = Vec::new();
        if self.phase == Phase::Active {
            match frame {
                Frame::Ping { payload } => {
                    self.hb = now;
                    commands.push(Command::Pong { payload });
                },
                Frame::Pong => {
                    self.hb = now;
                },
                Frame::Request { request } => {
                    commands.push(
                        Command::Post {
                            request: ClientRequest {
                                sender_id: self.session_id,
                                room_name: self.room_name.clone(),
                                request,
                            },
                        },
                    );
                },
                Frame::Close => {
                    self.phase = Phase::Closing;
                    commands.push(Command::Stop);
                },
                Frame::Malformed => {},
                Frame::Unrecognized => {},
            }
        }
        assert(command_values(commands@) =~= old(self)@.on_frame(frame@, now).commands);
        commands
    }

    /// The stop of the endpoint, for whatever reason.
    pub fn stopping(&mut self) -> (commands: Vec<Command>)
        ensures
            final(self)@ == old(self)@.on_stop().next,
            command_values(commands@) == old(self)@.on_stop().commands,
    {
        let mut commands: Vec<Command> = Vec::new();
        if self.phase == Phase::Active || self.phase == Phase::Closing {
            commands.push(
                Command::Post {
                    request: ClientRequest {
                        sender_id: self.session_id,
                        room_name: self.room_name.clone(),
                        request: ClientRequestType::Disconnect { id: self.session_id },
                    },
                },
            );
        }
        self.phase = Phase::Closed;
        assert(command_values(commands@) =~= old(self)@.on_stop().commands);
        commands
    }
}

} // verus!
