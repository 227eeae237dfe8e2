use codenames::client::ClientSession;
use codenames::database::{Database, DatabaseError, MemoryDatabase};
use codenames::event::{ClientRequest, ClientRequestType, Event, NewClientConnection};
use codenames::game::{CardType, ConfigError, Game, GameStatus, Team};
use codenames::random::RandomSource;
use codenames::server::{Delivery, Room, WsServer};

type Hub = WsServer<MemoryDatabase, &'static str>;

fn some_words() -> Vec<String> {
    vec![
        String::from("apple"),
        String::from("bridge"),
        String::from("castle"),
        String::from("dragon"),
    ]
}

fn new_hub(seed: u64) -> Hub {
    let database = MemoryDatabase::new(some_words(), RandomSource::from_seed(seed)).unwrap();
    WsServer::new(database, some_words(), RandomSource::from_seed(seed + 1000)).unwrap()
}

fn join(hub: &mut Hub, room: &str, addr: &'static str) -> (u64, Vec<Delivery>) {
    hub.handle(NewClientConnection { room: String::from(room), addr })
}

fn request(sender_id: u64, room: &str, request: ClientRequestType) -> ClientRequest {
    ClientRequest { sender_id, room_name: String::from(room), request }
}

fn recipients(deliveries: &[Delivery]) -> Vec<u64> {
    deliveries.iter().map(|d| d.recipient).collect()
}

fn state_of(delivery: &Delivery) -> &Game {
    match &delivery.message.event {
        Event::GameStateUpdate { game } => game,
        other => panic!("unexpected event {:?}", other),
    }
}

fn session_of(delivery: &Delivery) -> &ClientSession {
    match &delivery.message.event {
        Event::UpdateClientSession { session } => session,
        other => panic!("unexpected event {:?}", other),
    }
}

fn place_of(game: &Game, card_type: CardType) -> (usize, usize) {
    for row in 0..5 {
        for col in 0..5 {
            if game.board[row][col].card_type == card_type {
                return (row, col);
            }
        }
    }
    panic!("no such card");
}

/// A hub with one session in room `alpha` whose game has a card of
/// `card_type` at `coord`: the first seed that deals such a board.
fn hub_with_card_at(coord: (usize, usize), card_type: CardType) -> (Hub, u64, Game) {
    for seed in 0..100000 {
        let mut hub = new_hub(seed);
        let (id, deliveries) = join(&mut hub, "alpha", "one");
        let game = state_of(&deliveries[1]).clone();
        if game.board[coord.0][coord.1].card_type == card_type {
            return (hub, id, game);
        }
    }
    panic!("no seed deals such a board");
}

#[test]
fn a_hub_needs_words() {
    let database = MemoryDatabase::new(some_words(), RandomSource::from_seed(1)).unwrap();
    let made: Result<Hub, ConfigError> = WsServer::new(database, Vec::new(), RandomSource::from_seed(2));
    assert_eq!(made.err(), Some(ConfigError::EmptyWordSource));
}

#[test]
fn a_room_starts_without_sessions() {
    let room = Room::new(String::from("alpha"), 4);
    assert_eq!(
        room,
        Room { name: String::from("alpha"), game_id: 4, sessions: Vec::new() }
    );
}

#[test]
fn join_and_leave() {
    let mut hub = new_hub(1);

    let (first, deliveries) = join(&mut hub, "alpha", "one");
    assert_eq!(recipients(&deliveries), vec![first, first]);
    assert_eq!(session_of(&deliveries[0]), &ClientSession::new(first, &String::from("alpha")));
    assert_eq!(deliveries[0].message.room, "alpha");
    assert_eq!(deliveries[0].message.sender.id, first);
    let game = state_of(&deliveries[1]).clone();
    assert_eq!(game.starting_team, Team::BLUE);
    assert_eq!(game.game_status, GameStatus::IN_PROGRESS);
    assert_eq!(hub.client(first), Some(&"one"));

    let (second, deliveries) = join(&mut hub, "alpha", "two");
    assert_ne!(first, second);
    assert_eq!(recipients(&deliveries), vec![second, first, second]);
    assert_eq!(session_of(&deliveries[0]), &ClientSession::new(second, &String::from("alpha")));
    assert_eq!(state_of(&deliveries[1]).board[0][0].word, game.board[0][0].word);
    assert_eq!(state_of(&deliveries[2]).board[4][4].word, game.board[4][4].word);
    assert_eq!(hub.client(second), Some(&"two"));

    let deliveries = hub
        .send_event(request(first, "alpha", ClientRequestType::Disconnect { id: first }))
        .unwrap();
    assert_eq!(recipients(&deliveries), vec![second, second]);
    assert!(matches!(deliveries[0].message.event, Event::Disconnect { id } if id == first));
    assert_eq!(deliveries[0].message.sender.id, first);
    assert_eq!(state_of(&deliveries[1]).remaining_cards, (9, 8));
    assert_eq!(hub.client(first), None);
    assert_eq!(hub.client(second), Some(&"two"));
}

#[test]
fn chat_echo() {
    let mut hub = new_hub(2);
    let (first, _) = join(&mut hub, "alpha", "one");
    let (second, _) = join(&mut hub, "alpha", "two");
    let (_third, _) = join(&mut hub, "beta", "three");

    let deliveries = hub
        .send_event(request(first, "alpha", ClientRequestType::Message { text: String::from("hi") }))
        .unwrap();
    assert_eq!(recipients(&deliveries), vec![first, second]);
    for delivery in &deliveries {
        assert_eq!(delivery.message.room, "alpha");
        assert_eq!(delivery.message.sender.id, first);
        match &delivery.message.event {
            Event::Message { sender, text } => {
                assert_eq!(text, "hi");
                assert_eq!(sender.id, first);
            }
            other => panic!("unexpected event {:?}", other),
        }
    }
}

#[test]
fn flip_and_turn_change() {
    let (mut hub, id, game) = hub_with_card_at((0, 0), CardType::BLUE);
    assert_eq!(game.starting_team, Team::BLUE);

    let deliveries = hub
        .send_event(request(id, "alpha", ClientRequestType::FlipCard { coord: (0, 0) }))
        .unwrap();
    assert_eq!(recipients(&deliveries), vec![id, id]);
    match &deliveries[0].message.event {
        Event::FlipCard { flipped_card } => {
            assert!(flipped_card.flipped);
            assert_eq!(flipped_card.card_type, CardType::BLUE);
            assert_eq!(flipped_card.coord, (0, 0));
            assert_eq!(flipped_card.word, game.board[0][0].word);
        }
        other => panic!("unexpected event {:?}", other),
    }
    let state = state_of(&deliveries[1]);
    assert_eq!(state.turn_team, Team::BLUE);
    assert_eq!(state.remaining_cards, (8, 8));
    assert!(state.board[0][0].flipped);
}

#[test]
fn assassin_loss() {
    let (mut hub, id, _game) = hub_with_card_at((2, 2), CardType::ASSASSIN);

    let deliveries = hub
        .send_event(request(id, "alpha", ClientRequestType::FlipCard { coord: (2, 2) }))
        .unwrap();
    let state = state_of(&deliveries[1]).clone();
    assert_eq!(state.game_status, GameStatus::OVER { winner: Team::RED });

    let deliveries = hub
        .send_event(request(id, "alpha", ClientRequestType::FlipCard { coord: (0, 0) }))
        .unwrap();
    assert!(deliveries.is_empty());
    let deliveries = hub
        .send_event(request(id, "alpha", ClientRequestType::Connect { id }))
        .unwrap();
    let after = state_of(&deliveries[1]);
    assert_eq!(after.game_status, GameStatus::OVER { winner: Team::RED });
    assert!(!after.board[0][0].flipped);
    assert_eq!(after.remaining_cards, state.remaining_cards);
    assert_eq!(after.turn_team, state.turn_team);
}

#[test]
fn flips_that_cannot_be_made_are_ignored() {
    let (mut hub, id, _) = hub_with_card_at((1, 1), CardType::RED);
    let deliveries = hub
        .send_event(request(id, "alpha", ClientRequestType::FlipCard { coord: (1, 1) }))
        .unwrap();
    assert_eq!(state_of(&deliveries[1]).remaining_cards, (9, 7));

    for coord in [(1, 1), (5, 0), (0, 5), (7, 9)] {
        let deliveries = hub
            .send_event(request(id, "alpha", ClientRequestType::FlipCard { coord }))
            .unwrap();
        assert!(deliveries.is_empty());
    }
    let deliveries = hub
        .send_event(request(id, "alpha", ClientRequestType::Connect { id }))
        .unwrap();
    assert_eq!(state_of(&deliveries[1]).remaining_cards, (9, 7));
    assert_eq!(state_of(&deliveries[1]).turn_team, Team::RED);
}

#[test]
fn timed_out_peers_are_reported_as_disconnected() {
    let mut hub = new_hub(3);
    let (first, _) = join(&mut hub, "alpha", "one");
    let (second, _) = join(&mut hub, "alpha", "two");
    let (third, _) = join(&mut hub, "alpha", "three");

    let deliveries = hub
        .send_event(request(first, "alpha", ClientRequestType::TimedOut { id: first }))
        .unwrap();
    assert_eq!(recipients(&deliveries), vec![third, second, third, second]);
    assert!(matches!(deliveries[0].message.event, Event::Disconnect { id } if id == first));
    assert!(matches!(deliveries[1].message.event, Event::Disconnect { id } if id == first));
    assert!(matches!(deliveries[2].message.event, Event::GameStateUpdate { .. }));
    assert!(matches!(deliveries[3].message.event, Event::GameStateUpdate { .. }));
    assert_eq!(hub.client(first), None);
}

#[test]
fn new_game_reseed() {
    let (mut hub, first, game) = hub_with_card_at((2, 2), CardType::ASSASSIN);
    let (second, _) = join(&mut hub, "alpha", "two");
    hub.send_event(request(second, "alpha", ClientRequestType::SetSpyMaster { spymaster: true }))
        .unwrap();
    hub.send_event(request(first, "alpha", ClientRequestType::FlipCard { coord: (2, 2) }))
        .unwrap();

    let deliveries = hub
        .send_event(request(first, "alpha", ClientRequestType::NewGame {}))
        .unwrap();
    assert_eq!(
        recipients(&deliveries),
        vec![first, second, first, second, first, second]
    );
    assert_eq!(session_of(&deliveries[0]).id, first);
    assert!(!session_of(&deliveries[0]).is_spymaster);
    assert_eq!(session_of(&deliveries[1]).id, second);
    assert!(!session_of(&deliveries[1]).is_spymaster);
    assert!(matches!(deliveries[2].message.event, Event::NewGame {}));
    assert!(matches!(deliveries[3].message.event, Event::NewGame {}));
    for delivery in &deliveries[4..] {
        let state = state_of(delivery);
        assert_eq!(state.starting_team, Team::opposite(&game.starting_team));
        assert_eq!(state.starting_team, Team::RED);
        assert_eq!(state.turn_team, Team::RED);
        assert_eq!(state.remaining_cards, (8, 9));
        assert_eq!(state.game_status, GameStatus::IN_PROGRESS);
    }
}

#[test]
fn names_and_flags_are_set_on_the_senders_record() {
    let mut hub = new_hub(4);
    let (first, _) = join(&mut hub, "alpha", "one");
    let (second, _) = join(&mut hub, "alpha", "two");

    let deliveries = hub
        .send_event(request(second, "alpha", ClientRequestType::SetName { name: String::from("bob") }))
        .unwrap();
    assert_eq!(recipients(&deliveries), vec![second, first, second]);
    assert_eq!(session_of(&deliveries[0]).username, "bob");
    assert_eq!(session_of(&deliveries[0]).id, second);
    for delivery in &deliveries[1..] {
        assert!(matches!(
            &delivery.message.event,
            Event::SetName { id, name } if *id == second && name == "bob"
        ));
    }

    let deliveries = hub
        .send_event(request(second, "alpha", ClientRequestType::SetSpyMaster { spymaster: true }))
        .unwrap();
    assert_eq!(recipients(&deliveries), vec![second, first, second]);
    assert_eq!(session_of(&deliveries[0]).username, "bob");
    assert!(session_of(&deliveries[0]).is_spymaster);
    assert!(matches!(deliveries[1].message.event, Event::SetSpyMaster {}));
    assert!(matches!(deliveries[2].message.event, Event::SetSpyMaster {}));

    let deliveries = hub
        .send_event(request(second, "alpha", ClientRequestType::Connect { id: second }))
        .unwrap();
    assert_eq!(
        session_of(&deliveries[0]),
        &ClientSession {
            id: second,
            username: String::from("bob"),
            room: String::from("alpha"),
            is_spymaster: true
        }
    );
}

#[test]
fn next_turn_is_passed_and_told() {
    let mut hub = new_hub(5);
    let (first, _) = join(&mut hub, "alpha", "one");
    let deliveries = hub
        .send_event(request(first, "alpha", ClientRequestType::NextTurn {}))
        .unwrap();
    assert_eq!(recipients(&deliveries), vec![first, first]);
    assert!(matches!(deliveries[0].message.event, Event::NextTurn {}));
    assert_eq!(state_of(&deliveries[1]).turn_team, Team::RED);
}

#[test]
fn the_last_to_leave_takes_the_room_along() {
    let mut hub = new_hub(6);
    let (first, deliveries) = join(&mut hub, "alpha", "one");
    let old_word = state_of(&deliveries[1]).board[0][0].word.clone();
    let (second, _) = join(&mut hub, "alpha", "two");
    let (other, _) = join(&mut hub, "beta", "three");

    hub.send_event(request(first, "alpha", ClientRequestType::Disconnect { id: first }))
        .unwrap();
    let deliveries = hub
        .send_event(request(second, "alpha", ClientRequestType::Disconnect { id: second }))
        .unwrap();
    assert!(deliveries.is_empty());
    assert_eq!(hub.client(second), None);

    let gone = hub
        .send_event(request(second, "alpha", ClientRequestType::Message { text: String::from("?") }))
        .unwrap_err();
    assert!(matches!(&gone, DatabaseError::RoomNotFound { name } if name == "alpha"));

    let deliveries = hub
        .send_event(request(other, "beta", ClientRequestType::Message { text: String::from("!") }))
        .unwrap();
    assert_eq!(recipients(&deliveries), vec![other]);

    let (again, deliveries) = join(&mut hub, "alpha", "four");
    assert_eq!(recipients(&deliveries), vec![again, again]);
    let _ = old_word;
}

#[test]
fn stale_requests_are_dropped() {
    let mut hub = new_hub(7);
    let (first, _) = join(&mut hub, "alpha", "one");
    let (second, _) = join(&mut hub, "alpha", "two");
    hub.send_event(request(second, "alpha", ClientRequestType::Disconnect { id: second }))
        .unwrap();

    let error = hub
        .send_event(request(second, "alpha", ClientRequestType::Message { text: String::from("late") }))
        .unwrap_err();
    assert!(matches!(error, DatabaseError::SessionNotFound { id } if id == second));

    let error = hub
        .send_event(request(first, "alpha", ClientRequestType::Disconnect { id: second }))
        .unwrap_err();
    assert!(matches!(error, DatabaseError::SessionNotFound { id } if id == second));

    let error = hub
        .send_event(request(first, "gamma", ClientRequestType::NextTurn {}))
        .unwrap_err();
    assert!(matches!(&error, DatabaseError::RoomNotFound { name } if name == "gamma"));

    let error = hub
        .send_event(request(0, "alpha", ClientRequestType::TimedOut { id: 0 }))
        .unwrap_err();
    assert!(matches!(error, DatabaseError::SessionNotFound { id: 0 }));

    let deliveries = hub
        .send_event(request(first, "alpha", ClientRequestType::Message { text: String::from("still here") }))
        .unwrap();
    assert_eq!(recipients(&deliveries), vec![first]);
    assert_eq!(hub.client(first), Some(&"one"));
}

fn assert_rooms_list_their_members(hub: &Hub) {
    let sessions = hub.database().get_sessions().unwrap();
    for room in hub.database().get_rooms().unwrap() {
        let members: Vec<u64> =
            sessions.iter().filter(|s| s.room == room.name).map(|s| s.id).collect();
        assert_eq!(room.sessions.len(), members.len());
        for id in &room.sessions {
            assert!(members.contains(id));
            assert!(hub.client(*id).is_some());
        }
        assert!(hub.database().get_game(room.game_id).is_ok());
    }
    for session in &sessions {
        assert!(hub.database().get_room(&session.room).unwrap().sessions.contains(&session.id));
    }
}

#[test]
fn rooms_list_their_members_after_every_request() {
    let mut hub = new_hub(9);
    assert_rooms_list_their_members(&hub);
    let (a, _) = join(&mut hub, "alpha", "a");
    assert_rooms_list_their_members(&hub);
    let (b, _) = join(&mut hub, "alpha", "b");
    let (c, _) = join(&mut hub, "beta", "c");
    let (d, _) = join(&mut hub, "alpha", "d");
    assert_rooms_list_their_members(&hub);
    assert_eq!(hub.database().get_room(&String::from("alpha")).unwrap().sessions, vec![a, b, d]);

    let requests = vec![
        request(a, "alpha", ClientRequestType::SetName { name: String::from("ann") }),
        request(b, "alpha", ClientRequestType::SetSpyMaster { spymaster: true }),
        request(c, "beta", ClientRequestType::NewGame {}),
        request(b, "alpha", ClientRequestType::Disconnect { id: b }),
        request(b, "alpha", ClientRequestType::Message { text: String::from("late") }),
        request(d, "alpha", ClientRequestType::FlipCard { coord: (3, 3) }),
        request(a, "alpha", ClientRequestType::NextTurn {}),
        request(a, "alpha", ClientRequestType::TimedOut { id: a }),
        request(d, "gamma", ClientRequestType::NextTurn {}),
        request(d, "alpha", ClientRequestType::NewGame {}),
    ];
    for next in requests {
        let _ = hub.send_event(next);
        assert_rooms_list_their_members(&hub);
    }
    assert_eq!(hub.database().get_room(&String::from("alpha")).unwrap().sessions, vec![d]);
    assert_eq!(hub.database().get_room(&String::from("beta")).unwrap().sessions, vec![c]);
    assert_eq!(hub.database().get_sessions().unwrap().len(), 2);
}

#[test]
fn an_empty_room_is_absent_with_its_game() {
    let mut hub = new_hub(10);
    let (a, _) = join(&mut hub, "alpha", "a");
    let (b, _) = join(&mut hub, "alpha", "b");
    let (c, _) = join(&mut hub, "beta", "c");
    let alpha = hub.database().get_room(&String::from("alpha")).unwrap();
    let beta = hub.database().get_room(&String::from("beta")).unwrap();

    hub.send_event(request(a, "alpha", ClientRequestType::Disconnect { id: a })).unwrap();
    assert!(hub.database().get_room(&String::from("alpha")).is_ok());
    assert!(hub.database().get_game(alpha.game_id).is_ok());

    hub.send_event(request(b, "alpha", ClientRequestType::TimedOut { id: b })).unwrap();
    assert!(hub.database().get_room(&String::from("alpha")).is_err());
    assert!(hub.database().get_game(alpha.game_id).is_err());
    assert!(hub.database().get_session(&a).is_err());
    assert!(hub.database().get_session(&b).is_err());

    assert!(hub.database().get_room(&String::from("beta")).is_ok());
    assert!(hub.database().get_game(beta.game_id).is_ok());
    assert!(hub.database().get_session(&c).is_ok());
    assert_eq!(hub.database().get_rooms().unwrap().len(), 1);
}

#[test]
fn a_leave_sent_for_another_room_leaves_that_room_standing() {
    let mut hub = new_hub(11);
    let (a, _) = join(&mut hub, "alpha", "a");
    let (b, _) = join(&mut hub, "beta", "b");
    let deliveries = hub
        .send_event(request(a, "alpha", ClientRequestType::Disconnect { id: b }))
        .unwrap();
    assert_eq!(recipients(&deliveries), vec![a, a]);
    assert!(matches!(deliveries[0].message.event, Event::Disconnect { id } if id == b));
    assert!(hub.database().get_session(&b).is_err());
    assert_eq!(hub.client(b), None);
    assert!(hub.database().get_room(&String::from("beta")).unwrap().sessions.is_empty());
    assert_rooms_list_their_members(&hub);
}

#[test]
fn a_store_behind_a_hub_keeps_rooms_and_members_in_step() {
    let mut database = MemoryDatabase::new(some_words(), RandomSource::from_seed(8)).unwrap();
    let name = String::from("alpha");
    database.create_room(&name).unwrap();
    let mut ids = Vec::new();
    for _ in 0..5 {
        ids.push(database.create_session(&name).unwrap());
    }
    database.remove_session(ids[1]).unwrap();
    database.remove_session(ids[4]).unwrap();
    let room = database.get_room(&name).unwrap();
    let members: Vec<ClientSession> = database
        .get_sessions()
        .unwrap()
        .into_iter()
        .filter(|s| s.room == name)
        .collect();
    assert_eq!(room.sessions.len(), members.len());
    assert_eq!(room.sessions.len(), 3);
    for member in &members {
        assert!(room.sessions.contains(&member.id));
    }
}
