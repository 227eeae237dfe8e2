use codenames::client::ClientSession;
use codenames::database::{Database, DatabaseError, MemoryDatabase, MemoryDatabaseTables};
use codenames::game::{CardType, ConfigError, Game, GameStatus, Team};
use codenames::random::RandomSource;
use codenames::server::Room;

fn some_words() -> Vec<String> {
    vec![
        String::from("apple"),
        String::from("bridge"),
        String::from("castle"),
        String::from("dragon"),
    ]
}

fn new_database(seed: u64) -> MemoryDatabase {
    MemoryDatabase::new(some_words(), RandomSource::from_seed(seed)).unwrap()
}

#[test]
fn creates_gets_removes_room() {
    let mut db = new_database(1);
    let room_name = String::from("foo");
    db.create_room(&String::from("foo")).unwrap();
    let room = db.get_room(&room_name).unwrap();

    assert_eq!(room_name, room.name);
    assert_eq!(0, room.sessions.len());

    let game = db.get_game(room.game_id).unwrap();
    assert_eq!(5, game.board.len());

    // updates game
    let new_game = game.flip_card((0, 0));
    db.update_game(room.game_id, &new_game).unwrap();
    let new_game = db.get_game(room.game_id).unwrap();
    assert!(new_game.board[0][0].flipped);

    db.remove_room(&room_name).unwrap();
    assert!(!db.get_rooms().unwrap().contains(&&room));
    assert!(db.get_game(room.game_id).is_err());

    let bad_get = db.get_room(&room_name);
    assert!(bad_get.is_err());
    let error_msg = bad_get.expect_err("Did not get an error").to_string();
    assert_eq!("Could not find room with name 'foo'.", error_msg);
}

#[test]
fn creates_deletes_session() {
    let mut db = new_database(2);
    let room_name = String::from("foo");
    let username = String::from("foo_user");

    // Try to create a session in a room that doesn't exist
    let bad_result = db.create_session(&room_name);
    assert!(bad_result.is_err());
    let error_msg = bad_result.expect_err("Did not get an error").to_string();
    assert_eq!("Could not find room with name 'foo'.", error_msg);

    // Create room
    db.create_room(&room_name).unwrap();

    // Create session
    let new_session_id = db.create_session(&room_name).unwrap();
    let session_id_exists_in_sessions = db
        .get_sessions()
        .unwrap()
        .into_iter()
        .map(|s| s.id)
        .collect::<Vec<u64>>()
        .contains(&new_session_id);
    assert!(session_id_exists_in_sessions);

    // Add username
    let new_session = db.get_session(&new_session_id).unwrap();
    db.update_session(
        new_session_id,
        &ClientSession {
            username: username.clone(),
            ..new_session.clone()
        },
    )
    .unwrap();

    let username_exists_in_sessions = db
        .get_sessions()
        .unwrap()
        .into_iter()
        .map(|s| s.username)
        .collect::<Vec<String>>()
        .contains(&username);
    assert!(username_exists_in_sessions);

    let username_exists_in_room = db
        .get_room(&room_name)
        .unwrap()
        .sessions
        .contains(&new_session_id);
    assert!(username_exists_in_room);

    db.remove_session(new_session_id).unwrap();
    let username_exists = db
        .get_sessions()
        .unwrap()
        .into_iter()
        .map(|s| s.username)
        .collect::<Vec<String>>()
        .contains(&username);
    assert!(!username_exists);

    let username_exists_in_room = db
        .get_room(&room_name)
        .unwrap()
        .sessions
        .contains(&new_session_id);
    assert!(!username_exists_in_room);
}

fn place_of(game: &Game, card_type: CardType) -> (usize, usize) {
    for row in 0..5 {
        for col in 0..5 {
            if game.board[row][col].card_type == card_type {
                return (row, col);
            }
        }
    }
    panic!("no such card");
}

#[test]
fn a_store_needs_words() {
    let made = MemoryDatabase::new(Vec::new(), RandomSource::from_seed(1));
    assert_eq!(made.err(), Some(ConfigError::EmptyWordSource));
    let _tables = MemoryDatabaseTables::new();
}

#[test]
fn a_new_store_is_empty() {
    let db = new_database(3);
    assert!(db.get_rooms().unwrap().is_empty());
    assert!(db.get_sessions().unwrap().is_empty());
}

#[test]
fn rooms_are_created_once() {
    let mut db = new_database(4);
    let name = String::from("alpha");
    assert_eq!(db.create_room(&name).unwrap(), "alpha");
    let error = db.create_room(&name).unwrap_err();
    assert!(matches!(&error, DatabaseError::RoomExists { name } if name == "alpha"));
    assert_eq!(error.to_string(), "Room alpha already exists!");
    assert_eq!(db.get_rooms().unwrap().len(), 1);
}

#[test]
fn a_new_room_comes_with_a_new_game_for_blue() {
    let mut db = new_database(5);
    db.create_room(&String::from("alpha")).unwrap();
    db.create_room(&String::from("beta")).unwrap();
    let alpha = db.get_room(&String::from("alpha")).unwrap();
    let beta = db.get_room(&String::from("beta")).unwrap();
    assert_eq!(alpha, Room::new(String::from("alpha"), alpha.game_id));
    assert_ne!(alpha.game_id, beta.game_id);
    let game = db.get_game(alpha.game_id).unwrap();
    assert_eq!(game.starting_team, Team::BLUE);
    assert_eq!(game.turn_team, Team::BLUE);
    assert_eq!(game.remaining_cards, (9, 8));
    assert_eq!(game.game_status, GameStatus::IN_PROGRESS);
    let mut names: Vec<String> = db.get_rooms().unwrap().into_iter().map(|r| r.name).collect();
    names.sort();
    assert_eq!(names, vec![String::from("alpha"), String::from("beta")]);
}

#[test]
fn removing_a_room_removes_its_game() {
    let mut db = new_database(6);
    let name = String::from("alpha");
    db.create_room(&name).unwrap();
    db.create_room(&String::from("beta")).unwrap();
    let room = db.get_room(&name).unwrap();
    let other = db.get_room(&String::from("beta")).unwrap();
    db.remove_room(&name).unwrap();
    assert!(db.get_room(&name).is_err());
    let error = db.get_game(room.game_id).unwrap_err();
    assert!(matches!(error, DatabaseError::GameNotFound { id } if id == room.game_id));
    assert_eq!(
        error.to_string(),
        format!("Could not find game with id '{}'.", room.game_id)
    );
    assert!(db.get_game(other.game_id).is_ok());
    let again = db.remove_room(&name).unwrap_err();
    assert!(matches!(&again, DatabaseError::RoomNotFound { name } if name == "alpha"));
    assert_eq!(again.to_string(), "Could not find room with name 'alpha'.");
}

#[test]
fn sessions_join_their_room_in_order() {
    let mut db = new_database(7);
    let name = String::from("alpha");
    db.create_room(&name).unwrap();
    let first = db.create_session(&name).unwrap();
    let second = db.create_session(&name).unwrap();
    let third = db.create_session(&name).unwrap();
    assert_ne!(first, second);
    assert_ne!(second, third);
    assert_ne!(first, third);
    assert_eq!(db.get_room(&name).unwrap().sessions, vec![first, second, third]);
    assert_eq!(db.get_session(&second).unwrap(), ClientSession::new(second, &name));
    let session = db.get_session(&first).unwrap();
    assert_eq!(session.id, first);
    assert_eq!(session.username, "");
    assert_eq!(session.room, "alpha");
    assert!(!session.is_spymaster);
    assert_eq!(db.get_sessions().unwrap().len(), 3);

    db.remove_session(first).unwrap();
    assert_eq!(db.get_room(&name).unwrap().sessions, vec![third, second]);
    db.remove_session(second).unwrap();
    assert_eq!(db.get_room(&name).unwrap().sessions, vec![third]);
    db.remove_session(third).unwrap();
    assert!(db.get_room(&name).unwrap().sessions.is_empty());
    assert!(db.get_sessions().unwrap().is_empty());
}

#[test]
fn missing_sessions_are_reported() {
    let mut db = new_database(8);
    let error = db.get_session(&17).unwrap_err();
    assert!(matches!(error, DatabaseError::SessionNotFound { id: 17 }));
    assert_eq!(error.to_string(), "Session with id 17 does not exist.");
    assert!(matches!(
        db.remove_session(17).unwrap_err(),
        DatabaseError::SessionNotFound { id: 17 }
    ));
    let update = ClientSession::new(17, &String::from("alpha"));
    assert!(matches!(
        db.update_session(17, &update).unwrap_err(),
        DatabaseError::SessionNotFound { id: 17 }
    ));
    assert!(db.get_sessions().unwrap().is_empty());
}

#[test]
fn updating_a_session_keeps_its_identifier() {
    let mut db = new_database(9);
    let name = String::from("alpha");
    db.create_room(&name).unwrap();
    let id = db.create_session(&name).unwrap();
    let update = ClientSession {
        id: id.wrapping_add(1),
        username: String::from("carol"),
        room: name.clone(),
        is_spymaster: true,
    };
    db.update_session(id, &update).unwrap();
    let stored = db.get_session(&id).unwrap();
    assert_eq!(stored.id, id);
    assert_eq!(stored.username, "carol");
    assert_eq!(stored.room, "alpha");
    assert!(stored.is_spymaster);
    assert!(db.get_session(&id.wrapping_add(1)).is_err());
}

#[test]
fn removing_a_session_whose_room_is_gone_reports_the_room() {
    let mut db = new_database(10);
    let name = String::from("alpha");
    db.create_room(&name).unwrap();
    let id = db.create_session(&name).unwrap();
    db.remove_room(&name).unwrap();
    let error = db.remove_session(id).unwrap_err();
    assert!(matches!(&error, DatabaseError::RoomNotFound { name } if name == "alpha"));
    assert!(db.get_session(&id).is_err());
}

#[test]
fn games_are_flipped_and_passed_in_place() {
    let mut db = new_database(11);
    let name = String::from("alpha");
    db.create_room(&name).unwrap();
    let game_id = db.get_room(&name).unwrap().game_id;
    let game = db.get_game(game_id).unwrap();

    let red = place_of(&game, CardType::RED);
    let flipped = db.flip_card(game_id, red).unwrap();
    assert!(flipped.board[red.0][red.1].flipped);
    assert_eq!(flipped.remaining_cards, (9, 7));
    assert_eq!(flipped.turn_team, Team::RED);
    let stored = db.get_game(game_id).unwrap();
    assert!(stored.board[red.0][red.1].flipped);
    assert_eq!(stored.remaining_cards, (9, 7));

    let passed = db.next_turn(game_id).unwrap();
    assert_eq!(passed.turn_team, Team::BLUE);
    assert_eq!(db.get_game(game_id).unwrap().turn_team, Team::BLUE);

    let other = game_id.wrapping_add(1);
    assert!(matches!(
        db.flip_card(other, (0, 0)).unwrap_err(),
        DatabaseError::GameNotFound { id } if id == other
    ));
    assert!(matches!(
        db.next_turn(other).unwrap_err(),
        DatabaseError::GameNotFound { id } if id == other
    ));
    assert!(matches!(
        db.update_game(other, &game).unwrap_err(),
        DatabaseError::GameNotFound { id } if id == other
    ));
    assert_eq!(db.get_game(game_id).unwrap().remaining_cards, (9, 7));
}
