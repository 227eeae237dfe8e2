use codenames::game::{Board, Card, CardType, ConfigError, Game, GameStatus, Team};
use codenames::random::RandomSource;

fn find_cards_in_board(board: &Board, card_type: &CardType) -> Vec<Card> {
    let mut cards: Vec<Card> = Vec::new();
    for row in 0..5 {
        for col in 0..5 {
            if *card_type == board[row][col].card_type {
                cards.push(board[row][col].clone());
            }
        }
    }
    cards
}

fn some_words() -> Vec<String> {
    vec![
        String::from("apple"),
        String::from("bridge"),
        String::from("castle"),
        String::from("dragon"),
    ]
}

fn new_game(seed: u64, starting_team: Team) -> Game {
    let mut rng = RandomSource::from_seed(seed);
    Game::new(starting_team, &some_words(), &mut rng).unwrap()
}

fn place_of(game: &Game, card_type: CardType) -> (usize, usize) {
    find_cards_in_board(&game.board, &card_type)[0].coord
}

fn flipped_team_cards(game: &Game) -> usize {
    let mut count = 0;
    for row in 0..5 {
        for col in 0..5 {
            let card = &game.board[row][col];
            if card.flipped && (card.card_type == CardType::RED || card.card_type == CardType::BLUE)
            {
                count += 1;
            }
        }
    }
    count
}

#[test]
fn fills_card() {
    let mut rng = RandomSource::from_seed(7);
    let mut board: Board = Default::default();
    for _ in 0..3 {
        Game::fill_card(&mut board, &CardType::BLUE, &mut rng);
    }

    for _ in 0..2 {
        Game::fill_card(&mut board, &CardType::RED, &mut rng);
    }

    Game::fill_card(&mut board, &CardType::ASSASSIN, &mut rng);

    assert_eq!(find_cards_in_board(&board, &CardType::BLUE).len(), 3);
    assert_eq!(find_cards_in_board(&board, &CardType::RED).len(), 2);
    assert_eq!(find_cards_in_board(&board, &CardType::ASSASSIN).len(), 1);
}

#[test]
fn creates_new_board() {
    let mut rng = RandomSource::from_seed(11);
    let words = some_words();
    let mut game = Game::new(Team::BLUE, &words, &mut rng).unwrap();
    assert_eq!(find_cards_in_board(&game.board, &CardType::BLUE).len(), 9);
    assert_eq!(find_cards_in_board(&game.board, &CardType::RED).len(), 8);
    assert_eq!(
        find_cards_in_board(&game.board, &CardType::ASSASSIN).len(),
        1
    );

    game = Game::new_from_game(&game, &words, &mut rng).unwrap();
    assert_eq!(find_cards_in_board(&game.board, &CardType::BLUE).len(), 8);
    assert_eq!(find_cards_in_board(&game.board, &CardType::RED).len(), 9);
    assert_eq!(
        find_cards_in_board(&game.board, &CardType::ASSASSIN).len(),
        1
    );
}

#[test]
fn fill_card_takes_the_last_bystander() {
    let mut rng = RandomSource::from_seed(3);
    let mut board: Board = Default::default();
    for _ in 0..24 {
        Game::fill_card(&mut board, &CardType::RED, &mut rng);
    }
    assert_eq!(find_cards_in_board(&board, &CardType::BYSTANDER).len(), 1);
    let last = find_cards_in_board(&board, &CardType::BYSTANDER)[0].clone();
    Game::fill_card(&mut board, &CardType::BLUE, &mut rng);
    assert_eq!(find_cards_in_board(&board, &CardType::BYSTANDER).len(), 0);
    assert_eq!(find_cards_in_board(&board, &CardType::RED).len(), 24);
    let blue = find_cards_in_board(&board, &CardType::BLUE);
    assert_eq!(blue.len(), 1);
    assert_eq!(blue[0].word, last.word);
    assert!(!blue[0].flipped);
}

#[test]
fn new_game_has_the_full_composition() {
    for seed in 0..20 {
        let game = new_game(seed, Team::RED);
        assert_eq!(find_cards_in_board(&game.board, &CardType::RED).len(), 9);
        assert_eq!(find_cards_in_board(&game.board, &CardType::BLUE).len(), 8);
        assert_eq!(find_cards_in_board(&game.board, &CardType::ASSASSIN).len(), 1);
        assert_eq!(find_cards_in_board(&game.board, &CardType::BYSTANDER).len(), 7);
        assert_eq!(game.starting_team, Team::RED);
        assert_eq!(game.turn_team, Team::RED);
        assert_eq!(game.remaining_cards, (8, 9));
        assert_eq!(game.game_status, GameStatus::IN_PROGRESS);
    }
}

#[test]
fn new_game_deals_face_down_cards_with_words_from_the_list() {
    let words = some_words();
    let game = new_game(5, Team::BLUE);
    for row in 0..5 {
        for col in 0..5 {
            let card = &game.board[row][col];
            assert!(!card.flipped);
            assert_eq!(card.coord, (row, col));
            assert!(words.contains(&card.word));
        }
    }
    assert_eq!(game.remaining_cards, (9, 8));
}

#[test]
fn new_game_needs_words() {
    let mut rng = RandomSource::from_seed(1);
    let made = Game::new(Team::BLUE, &Vec::new(), &mut rng);
    assert_eq!(made.err(), Some(ConfigError::EmptyWordSource));
    assert_eq!(
        ConfigError::EmptyWordSource.to_string(),
        "The word source is empty."
    );
}

#[test]
fn next_game_starts_with_the_other_team() {
    let mut rng = RandomSource::from_seed(2);
    let words = some_words();
    let first = Game::new(Team::RED, &words, &mut rng).unwrap();
    let second = first.new_from_current_game(&words, &mut rng).unwrap();
    assert_eq!(second.starting_team, Team::BLUE);
    assert_eq!(second.turn_team, Team::BLUE);
    assert_eq!(second.remaining_cards, (9, 8));
    assert_eq!(second.game_status, GameStatus::IN_PROGRESS);
    let third = Game::new_from_game(&second, &words, &mut rng).unwrap();
    assert_eq!(third.starting_team, Team::RED);
    assert_eq!(third.remaining_cards, (8, 9));
    assert!(Game::new_from_game(&second, &Vec::new(), &mut rng).is_err());
}

#[test]
fn flipping_own_colour_keeps_the_turn() {
    let game = new_game(21, Team::BLUE);
    let coord = place_of(&game, CardType::BLUE);
    let next = game.flip_card(coord);
    assert!(next.board[coord.0][coord.1].flipped);
    assert_eq!(next.turn_team, Team::BLUE);
    assert_eq!(next.remaining_cards, (8, 8));
    assert_eq!(next.game_status, GameStatus::IN_PROGRESS);
    assert!(!game.board[coord.0][coord.1].flipped);
}

#[test]
fn flipping_the_other_colour_passes_the_turn() {
    let game = new_game(22, Team::BLUE);
    let coord = place_of(&game, CardType::RED);
    let next = game.flip_card(coord);
    assert_eq!(next.turn_team, Team::RED);
    assert_eq!(next.remaining_cards, (9, 7));
    assert_eq!(next.game_status, GameStatus::IN_PROGRESS);
}

#[test]
fn flipping_a_bystander_passes_the_turn() {
    let game = new_game(23, Team::RED);
    let coord = place_of(&game, CardType::BYSTANDER);
    let next = game.flip_card(coord);
    assert_eq!(next.turn_team, Team::BLUE);
    assert_eq!(next.remaining_cards, (8, 9));
    assert_eq!(next.game_status, GameStatus::IN_PROGRESS);
}

#[test]
fn flipping_the_assassin_loses_the_game() {
    let game = new_game(24, Team::BLUE);
    let coord = place_of(&game, CardType::ASSASSIN);
    let next = game.flip_card(coord);
    assert_eq!(next.game_status, GameStatus::OVER { winner: Team::RED });
    assert_eq!(next.turn_team, Team::RED);
    assert_eq!(next.remaining_cards, (9, 8));

    let game = new_game(25, Team::RED);
    let coord = place_of(&game, CardType::ASSASSIN);
    let next = game.flip_card(coord);
    assert_eq!(next.game_status, GameStatus::OVER { winner: Team::BLUE });
}

#[test]
fn finding_the_last_card_wins_the_game() {
    let mut game = new_game(26, Team::RED);
    let blues = find_cards_in_board(&game.board, &CardType::BLUE);
    assert_eq!(blues.len(), 8);
    for (found, card) in blues.iter().enumerate() {
        assert_eq!(game.game_status, GameStatus::IN_PROGRESS);
        game = game.flip_card(card.coord);
        assert_eq!(game.remaining_cards, (7 - found as u8, 9));
    }
    assert_eq!(game.game_status, GameStatus::OVER { winner: Team::BLUE });
    assert_eq!(game.remaining_cards, (0, 9));
}

#[test]
fn counters_and_found_cards_add_up_to_seventeen() {
    let mut game = new_game(27, Team::BLUE);
    assert_eq!(
        game.remaining_cards.0 as usize + game.remaining_cards.1 as usize + flipped_team_cards(&game),
        17
    );
    for row in 0..5 {
        for col in 0..5 {
            if game.game_status != GameStatus::IN_PROGRESS {
                break;
            }
            game = game.flip_card((row, col));
            assert_eq!(
                game.remaining_cards.0 as usize
                    + game.remaining_cards.1 as usize
                    + flipped_team_cards(&game),
                17
            );
        }
    }
    assert_ne!(game.game_status, GameStatus::IN_PROGRESS);
}

#[test]
fn next_turn_passes_the_turn_while_the_game_is_on() {
    let game = new_game(28, Team::BLUE);
    let next = game.next_turn();
    assert_eq!(next.turn_team, Team::RED);
    assert_eq!(next.next_turn().turn_team, Team::BLUE);
    assert_eq!(next.remaining_cards, game.remaining_cards);

    let over = game.flip_card(place_of(&game, CardType::ASSASSIN));
    let still = over.next_turn();
    assert_eq!(still.turn_team, over.turn_team);
    assert_eq!(still.game_status, over.game_status);
}

#[test]
fn teams_colours_and_counters() {
    assert_eq!(Team::opposite(&Team::RED), Team::BLUE);
    assert_eq!(Team::opposite(&Team::BLUE), Team::RED);
    assert_eq!(CardType::from_team(&Team::RED), CardType::RED);
    assert_eq!(CardType::from_team(&Team::BLUE), CardType::BLUE);
    assert_eq!(Game::initalize_remaining_cards(&Team::BLUE), (9, 8));
    assert_eq!(Game::initalize_remaining_cards(&Team::RED), (8, 9));
}

#[test]
fn cards_start_face_down() {
    let card = Card::new(String::from("apple"), CardType::RED, (1, 2));
    assert_eq!(card.word, "apple");
    assert_eq!(card.card_type, CardType::RED);
    assert!(!card.flipped);
    assert_eq!(card.coord, (1, 2));
    let blank = Card::default();
    assert_eq!(blank.word, "");
    assert_eq!(blank.card_type, CardType::BYSTANDER);
    assert!(!blank.flipped);
    assert_eq!(blank.coord, (0, 0));
}

#[test]
fn create_board_places_every_card_where_it_says() {
    let mut rng = RandomSource::from_seed(29);
    let board = Game::create_board(&Team::RED, &some_words(), &mut rng);
    assert_eq!(find_cards_in_board(&board, &CardType::RED).len(), 9);
    assert_eq!(find_cards_in_board(&board, &CardType::BLUE).len(), 8);
    for row in 0..5 {
        for col in 0..5 {
            assert_eq!(board[row][col].coord, (row, col));
        }
    }
}
