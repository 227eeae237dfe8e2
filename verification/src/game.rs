//! The game rules engine: board construction, card flips, turn advance and
//! win/loss detection, all as transitions between `Game` values.

use crate::board::blank_at;
use crate::board::cells;
use crate::board::composition;
use crate::board::dealt;
use crate::board::filled_at;
use crate::board::has_vacancy;
use crate::board::is_grid;
use crate::board::lemma_cells_with_card;
use crate::board::lemma_count_bystanders;
use crate::board::lemma_counted_card;
use crate::board::lemma_found_and_hidden;
use crate::board::lemma_hidden_when_face_down;
use crate::board::lemma_recast_tallies;
use crate::board::lemma_tally_with_card;
use crate::board::recast;
use crate::board::Tally;
use crate::board::tally;
use crate::board::vacant_at;
use crate::board::with_card;
use crate::random::RandomSource;
use vstd::prelude::*;

verus! {

/// A configuration under which the server cannot work.
#[derive(Clone, Copy, Debug, PartialEq, Eq, Structural)]
pub enum ConfigError {
    /// The word source yields no word at all.
    EmptyWordSource,
}

impl ConfigError {
    /// The error in words.
    pub fn to_string(&self) -> (text: String)
        ensures
            text@ == "The word source is empty."@,
    {
        String::from_str("The word source is empty.")
    }
}

/// What a card turns out to be once it is flipped.
#[allow(non_camel_case_types)]
#[derive(Clone, Copy, Debug, PartialEq, Eq, Structural)]
pub enum CardType {
    RED,
    BLUE,
    BYSTANDER,
    ASSASSIN,
}

/// One of the two competing teams.
#[allow(non_camel_case_types)]
#[derive(Clone, Copy, Debug, PartialEq, Eq, Structural)]
pub enum Team {
    RED,
    BLUE,
}

/// Whether a game is still being played, and who won it if not.
#[allow(non_camel_case_types)]
#[derive(Clone, Copy, Debug, PartialEq, Eq, Structural)]
pub enum GameStatus {
    IN_PROGRESS,
    OVER { winner: Team },
}

impl Team {
    /// The other team.
    pub open spec fn other(self) -> Team {
        match self {
            Team::RED => Team::BLUE,
            Team::BLUE => Team::RED,
        }
    }

    /// The counters a game starts with, blue first: nine cards for the
    /// starting team and eight for the other.
    pub open spec fn initial_remaining(self) -> (u8, u8) {
        match self {
            Team::BLUE => (9u8, 8u8),
            Team::RED => (8u8, 9u8),
        }
    }

    pub fn opposite(team: &Team) -> (other: Team)
        ensures
            other == team.other(),
    {
        match team {
            Team::RED => Team::BLUE,
            Team::BLUE => Team::RED,
        }
    }
}

impl CardType {
    /// The card colour that belongs to a team.
    pub open spec fn of_team(team: Team) -> CardType {
        match team {
            Team::BLUE => CardType::BLUE,
            Team::RED => CardType::RED,
        }
    }

    pub fn from_team(team: &Team) -> (kind: CardType)
        ensures
            kind == CardType::of_team(*team),
    {
        match team {
            Team::BLUE => CardType::BLUE,
            Team::RED => CardType::RED,
        }
    }
}

/// One card of the board.
#[derive(Debug)]
pub struct Card {
    pub word: String,
    pub card_type: CardType,
    pub flipped: bool,
    pub coord: (usize, usize),
}

/// The mathematical value of a `Card`.
pub struct CardView {
    pub word: Seq<char>,
    pub card_type: CardType,
    pub flipped: bool,
    pub coord: (usize, usize),
}

impl View for Card {
    type V = CardView;

    open spec fn view(&self) -> CardView {
        CardView {
            word: self.word@,
            card_type: self.card_type,
            flipped: self.flipped,
            coord: self.coord,
        }
    }
}

impl Clone for Card {
    fn clone(&self) -> (copy: Self)
        ensures
            copy == *self,
    {
        Card {
            word: self.word.clone(),
            card_type: self.card_type,
            flipped: self.flipped,
            coord: self.coord,
        }
    }
}

impl Card {
    /// A face-down card.
    pub fn new(word: String, card_type: CardType, coord: (usize, usize)) -> (card: Card)
        ensures
            card@ == (CardView { word: word@, card_type, flipped: false, coord }),
    {
        Card { word, card_type, flipped: false, coord }
    }
}

impl Default for Card {
    /// A face-down bystander without a word, at the origin.
    fn default() -> (card: Card)
        ensures
            card@ == (CardView {
                word: Seq::<char>::empty(),
                card_type: CardType::BYSTANDER,
                flipped: false,
                coord: (0usize, 0usize),
            }),
    {
        Card::new(String::new(), CardType::BYSTANDER, (0, 0))
    }
}

/// The 5×5 grid of cards, indexed by row and then by column.
pub type Board = [[Card; 5]; 5];

/// The grid as a sequence of five rows of five card values.
pub open spec fn board_view(board: Board) -> Seq<Seq<CardView>> {
    Seq::new(5, |r: int| Seq::new(5, |c: int| board[r][c]@))
}

/// A game: the board, whose turn it is, and how many cards each team has
/// yet to find.
#[derive(Debug)]
pub struct Game {
    pub starting_team: Team,
    pub turn_team: Team,
    pub board: Board,
    /// Cards yet to be found, blue first.
    pub remaining_cards: (u8, u8),
    pub game_status: GameStatus,
}

/// The mathematical value of a `Game`.
pub struct GameView {
    pub starting_team: Team,
    pub turn_team: Team,
    pub board: Seq<Seq<CardView>>,
    pub remaining_cards: (u8, u8),
    pub game_status: GameStatus,
}

impl View for Game {
    type V = GameView;

    open spec fn view(&self) -> GameView {
        GameView {
            starting_team: self.starting_team,
            turn_team: self.turn_team,
            board: board_view(self.board),
            remaining_cards: self.remaining_cards,
            game_status: self.game_status,
        }
    }
}

impl Clone for Game {
    fn clone(&self) -> (copy: Self)
        ensures
            copy == *self,
    {
        let board = self.board.clone();
        proof {
            assert forall|r: int| 0 <= r < 5 implies board[r] == self.board[r] by {
                assert(cloned::<[Card; 5]>(self.board@[r], board@[r]));
                assert forall|c: int| 0 <= c < 5 implies board[r][c] == self.board[r][c] by {
                    assert(cloned::<Card>(self.board@[r]@[c], board@[r]@[c]));
                }
                assert(board[r] =~= self.board[r]);
            }
            assert(board =~= self.board);
        }
        Game {
            starting_team: self.starting_team,
            turn_team: self.turn_team,
            board,
            remaining_cards: self.remaining_cards,
            game_status: self.game_status,
        }
    }
}

/// The words of a list as values.
pub open spec fn word_values(words: Seq<String>) -> Seq<Seq<char>> {
    Seq::new(words.len(), |i: int| words[i]@)
}

impl GameView {
    /// The board has the composition that its starting team asks for.
    pub open spec fn composed(self) -> bool {
        composition(self.board, self.starting_team)
    }

    /// Every card records the place where it lies.
    pub open spec fn placed(self) -> bool {
        forall|r: int, c: int|
            0 <= r < 5 && 0 <= c < 5 ==> (#[trigger] self.board[r][c]).coord == (
                r as usize,
                c as usize,
            )
    }

    /// The invariant of a game: a full 5×5 board with the composition of
    /// `composed`, every card at its own coordinates, and each counter equal
    /// to the number of that team's cards that still lie face down.
    pub open spec fn wf(self) -> bool {
        &&& is_grid(self.board)
        &&& self.composed()
        &&& self.placed()
        &&& self.remaining_cards.0 == tally(self.board, Tally::Hidden(CardType::BLUE))
        &&& self.remaining_cards.1 == tally(self.board, Tally::Hidden(CardType::RED))
    }

    /// Whether the card at (`r`, `c`) may be flipped: the game is in
    /// progress, the place is on the board and the card lies face down.
    pub open spec fn can_flip(self, r: usize, c: usize) -> bool {
        &&& self.game_status == GameStatus::IN_PROGRESS
        &&& r < 5
        &&& c < 5
        &&& !self.board[r as int][c as int].flipped
    }

    /// The counters after a card of `kind` has been found.
    pub open spec fn remaining_after(self, kind: CardType) -> (u8, u8) {
        match kind {
            CardType::BLUE => ((self.remaining_cards.0 - 1) as u8, self.remaining_cards.1),
            CardType::RED => (self.remaining_cards.0, (self.remaining_cards.1 - 1) as u8),
            _ => self.remaining_cards,
        }
    }

    /// Whose turn it is after a card of `kind` has been flipped: the turn
    /// stays with a team that found its own colour and passes otherwise.
    pub open spec fn turn_after(self, kind: CardType) -> Team {
        if kind == CardType::of_team(self.turn_team) {
            self.turn_team
        } else {
            self.turn_team.other()
        }
    }

    /// The status after a card of `kind` has been flipped. The assassin ends
    /// the game for the team that flipped it; otherwise a team whose counter
    /// has reached zero wins.
    pub open spec fn status_after(self, kind: CardType) -> GameStatus {
        let remaining = self.remaining_after(kind);
        if kind == CardType::ASSASSIN {
            GameStatus::OVER { winner: self.turn_team.other() }
        } else if remaining.0 == 0 {
            GameStatus::OVER { winner: Team::BLUE }
        } else if remaining.1 == 0 {
            GameStatus::OVER { winner: Team::RED }
        } else {
            GameStatus::IN_PROGRESS
        }
    }

    /// The game after the card at (`r`, `c`) has been flipped.
    pub open spec fn flip(self, r: usize, c: usize) -> GameView {
        let card = self.board[r as int][c as int];
        GameView {
            starting_team: self.starting_team,
            turn_team: self.turn_after(card.card_type),
            board: with_card(self.board, r as int, c as int, CardView { flipped: true, ..card }),
            remaining_cards: self.remaining_after(card.card_type),
            game_status: self.status_after(card.card_type),
        }
    }

    /// The game after the turn has been passed on: the other team's turn
    /// while the game is in progress, the same game once it is over.
    pub open spec fn pass_turn(self) -> GameView {
        if self.game_status == GameStatus::IN_PROGRESS {
            GameView { turn_team: self.turn_team.other(), ..self }
        } else {
            self
        }
    }

    /// What holds of a game that has just been created for `starting_team`
    /// from `words`: it is valid, every card lies face down and bears one of
    /// the words, the starting team has the first turn and nine cards to
    /// find against the other team's eight, and the game is in progress.
    pub open spec fn fresh(self, starting_team: Team, words: Seq<Seq<char>>) -> bool {
        &&& self.wf()
        &&& dealt(self.board, words)
        &&& self.starting_team == starting_team
        &&& self.turn_team == starting_team
        &&& self.remaining_cards == starting_team.initial_remaining()
        &&& self.game_status == GameStatus::IN_PROGRESS
    }

    /// Whether `flips` can be made one after the other, each on the game
    /// that the flips before it have left.
    pub open spec fn flips_allowed(self, flips: Seq<(usize, usize)>) -> bool
        decreases flips.len(),
    {
        flips.len() == 0 || {
            &&& self.can_flip(flips[0].0, flips[0].1)
            &&& self.flip(flips[0].0, flips[0].1).flips_allowed(flips.drop_first())
        }
    }

    /// The game after `flips` have been made one after the other.
    pub open spec fn flip_all(self, flips: Seq<(usize, usize)>) -> GameView
        decreases flips.len(),
    {
        if flips.len() == 0 {
            self
        } else {
            self.flip(flips[0].0, flips[0].1).flip_all(flips.drop_first())
        }
    }

    /// The cards that the two counters still expect, together with the
    /// team-coloured cards that lie face up.
    pub open spec fn accounted(self) -> int {
        self.remaining_cards.0 + self.remaining_cards.1 + tally(self.board, Tally::Found)
    }
}

/// How often `Game::fill_card` draws a place at random before it stops
/// relying on chance.
pub const PLACEMENT_DRAWS: usize = 256;

fn blank_row() -> (row: [Card; 5])
    ensures
        forall|c: int| 0 <= c < 5 ==> (#[trigger] row[c]).card_type == CardType::BYSTANDER,
{
    [Card::default(), Card::default(), Card::default(), Card::default(), Card::default()]
}

fn blank_board() -> (board: Board)
    ensures
        forall|r: int, c: int|
            0 <= r < 5 && 0 <= c < 5 ==> (#[trigger] board[r][c]).card_type == CardType::BYSTANDER,
{
    [blank_row(), blank_row(), blank_row(), blank_row(), blank_row()]
}

impl Game {
    /// Creates a game that `starting_team` begins, with a board dealt from
    /// `words`. Without any word there is no game.
    pub fn new(starting_team: Team, words: &Vec<String>, rng: &mut RandomSource) -> (made: Result<
        Game,
        ConfigError,
    >)
        ensures
            match made {
                Ok(game) => {
                    &&& words.len() > 0
                    &&& game@.fresh(starting_team, word_values(words@))
                    &&& composition(game@.board, starting_team)
                },
                Err(e) => words.len() == 0 && e == ConfigError::EmptyWordSource,
            },
    {
        if words.len() == 0 {
            return Err(ConfigError::EmptyWordSource);
        }
        let game = Game {
            board: Game::create_board(&starting_team, words, rng),
            turn_team: starting_team,
            remaining_cards: Game::initalize_remaining_cards(&starting_team),
            starting_team,
            game_status: GameStatus::IN_PROGRESS,
        };
        proof {
            let cards = cells(game@.board);
            assert forall|i: int| 0 <= i < cards.len() implies !(#[trigger] cards[i]).flipped by {
                assert(!game@.board[i / 5][i % 5].flipped);
            }
            lemma_hidden_when_face_down(cards, CardType::BLUE);
            lemma_hidden_when_face_down(cards, CardType::RED);
        }
        Ok(game)
    }

    /// Creates the game that follows `game`: a new board, begun by the team
    /// that did not begin `game`.
    pub fn new_from_game(game: &Game, words: &Vec<String>, rng: &mut RandomSource) -> (made: Result<
        Game,
        ConfigError,
    >)
        ensures
            match made {
                Ok(next) => words.len() > 0 && next@.fresh(
                    game.starting_team.other(),
                    word_values(words@),
                ),
                Err(e) => words.len() == 0 && e == ConfigError::EmptyWordSource,
            },
    {
        let starting_team = Team::opposite(&game.starting_team);
        Game::new(starting_team, words, rng)
    }

    /// Creates the game that follows this one: a new board, begun by the
    /// team that did not begin this game.
    pub fn new_from_current_game(&self, words: &Vec<String>, rng: &mut RandomSource) -> (made:
        Result<Game, ConfigError>)
        ensures
            match made {
                Ok(next) => words.len() > 0 && next@.fresh(
                    self.starting_team.other(),
                    word_values(words@),
                ),
                Err(e) => words.len() == 0 && e == ConfigError::EmptyWordSource,
            },
    {
        Game::new_from_game(self, words, rng)
    }

    /// The counters a game starts with, blue first.
    pub fn initalize_remaining_cards(starting_team: &Team) -> (remaining: (u8, u8))
        ensures
            remaining == starting_team.initial_remaining(),
    {
        match starting_team {
            Team::BLUE => (9, 8),
            Team::RED => (8, 9),
        }
    }

    /// Recasts one bystander of the board as `card_type` and leaves every
    /// other card, and every other field of that card, as it was.
    ///
    /// The place is drawn at random, again and again while the draw lands on
    /// a card that is no bystander. After `PLACEMENT_DRAWS` such misses the
    /// first bystander in row-major order is taken, so that the call returns
    /// whatever the source hands out.
    pub fn fill_card(board: &mut Board, card_type: &CardType, rng: &mut RandomSource)
        requires
            has_vacancy(board_view(*old(board))),
        ensures
            exists|r: int, c: int| #[trigger]
                filled_at(board_view(*old(board)), board_view(*final(board)), r, c, *card_type),
    {
        let ghost before = board_view(*board);
        let mut draws: usize = 0;
        while draws < PLACEMENT_DRAWS
            invariant
                before == board_view(*old(board)),
                board_view(*board) == before,
            decreases PLACEMENT_DRAWS - draws,
        {
            let row: usize = rng.index_below(5);
            let col: usize = rng.index_below(5);
            if board[row][col].card_type == CardType::BYSTANDER {
                board[row][col].card_type = *card_type;
                proof {
                    assert(board_view(*board) =~~= recast(before, row as int, col as int, *card_type));
                    assert(filled_at(before, board_view(*board), row as int, col as int, *card_type));
                }
                return ;
            }
            draws = draws + 1;
        }
        let mut place: usize = 0;
        while place < 25
            invariant
                place <= 25,
                before == board_view(*old(board)),
                board_view(*board) == before,
                forall|i: int|
                    0 <= i < place ==> (#[trigger] cells(before)[i]).card_type
                        != CardType::BYSTANDER,
            decreases 25 - place,
        {
            let row: usize = place / 5;
            let col: usize = place % 5;
            if board[row][col].card_type == CardType::BYSTANDER {
                board[row][col].card_type = *card_type;
                proof {
                    assert(board_view(*board) =~~= recast(before, row as int, col as int, *card_type));
                    assert(filled_at(before, board_view(*board), row as int, col as int, *card_type));
                }
                return ;
            }
            place = place + 1;
        }
        proof {
            let (r, c) = choose|r: int, c: int| 0 <= r < 5 && 0 <= c < 5 && vacant_at(before, r, c);
            assert(cells(before)[5 * r + c] == before[r][c]);
            assert(false);
        }
    }

    /// Recasts `count` bystanders of the board as `card_type`, one
    /// `fill_card` at a time.
    fn fill_cards(board: &mut Board, card_type: &CardType, count: usize, rng: &mut RandomSource)
        requires
            *card_type != CardType::BYSTANDER,
            count <= tally(board_view(*old(board)), Tally::Kind(CardType::BYSTANDER)),
        ensures
            tally(board_view(*final(board)), Tally::Kind(*card_type)) == tally(
                board_view(*old(board)),
                Tally::Kind(*card_type),
            ) + count,
            tally(board_view(*final(board)), Tally::Kind(CardType::BYSTANDER)) + count == tally(
                board_view(*old(board)),
                Tally::Kind(CardType::BYSTANDER),
            ),
            forall|other: CardType|
                other != *card_type && other != CardType::BYSTANDER ==> #[trigger] tally(
                    board_view(*final(board)),
                    Tally::Kind(other),
                ) == tally(board_view(*old(board)), Tally::Kind(other)),
            forall|words: Seq<Seq<char>>| #[trigger]
                dealt(board_view(*old(board)), words) ==> dealt(board_view(*final(board)), words),
    {
        let ghost start = board_view(*board);
        let mut done: usize = 0;
        while done < count
            invariant
                done <= count,
                start == board_view(*old(board)),
                *card_type != CardType::BYSTANDER,
                count <= tally(start, Tally::Kind(CardType::BYSTANDER)),
                tally(board_view(*board), Tally::Kind(*card_type)) == tally(
                    start,
                    Tally::Kind(*card_type),
                ) + done,
                tally(board_view(*board), Tally::Kind(CardType::BYSTANDER)) + done == tally(
                    start,
                    Tally::Kind(CardType::BYSTANDER),
                ),
                forall|other: CardType|
                    other != *card_type && other != CardType::BYSTANDER ==> #[trigger] tally(
                        board_view(*board),
                        Tally::Kind(other),
                    ) == tally(start, Tally::Kind(other)),
                forall|words: Seq<Seq<char>>| #[trigger]
                    dealt(start, words) ==> dealt(board_view(*board), words),
            decreases count - done,
        {
            let ghost before = board_view(*board);
            proof {
                let i = lemma_counted_card(cells(before), Tally::Kind(CardType::BYSTANDER));
                assert(vacant_at(before, i / 5, i % 5));
            }
            Game::fill_card(board, card_type, rng);
            proof {
                let after = board_view(*board);
                let (r, c) = choose|r: int, c: int| #[trigger]
                    filled_at(before, after, r, c, *card_type);
                lemma_recast_tallies(before, r, c, *card_type);
            }
            done = done + 1;
        }
    }

    /// Deals a board for a game that `starting_team` begins: 25 face-down
    /// cards, each bearing a word picked at random from `words` (a word may
    /// come up more than once), of which nine, placed at random, are of the
    /// starting team's colour, eight of the other team's, and one is the
    /// assassin; the remaining seven are bystanders.
    pub fn create_board(starting_team: &Team, words: &Vec<String>, rng: &mut RandomSource) -> (board:
        Board)
        requires
            words.len() > 0,
        ensures
            composition(board_view(board), *starting_team),
            dealt(board_view(board), word_values(words@)),
    {
        let ghost pool = word_values(words@);
        let mut board: Board = blank_board();
        let mut row: usize = 0;
        while row < 5
            invariant
                row <= 5,
                words.len() > 0,
                pool == word_values(words@),
                forall|r: int, c: int|
                    0 <= r < 5 && 0 <= c < 5 ==> (#[trigger] board[r][c]).card_type
                        == CardType::BYSTANDER,
                forall|r: int, c: int|
                    0 <= r < row && 0 <= c < 5 ==> blank_at((#[trigger] board[r][c])@, r, c, pool),
            decreases 5 - row,
        {
            let mut col: usize = 0;
            while col < 5
                invariant
                    row < 5,
                    col <= 5,
                    words.len() > 0,
                    pool == word_values(words@),
                    forall|r: int, c: int|
                        0 <= r < 5 && 0 <= c < 5 ==> (#[trigger] board[r][c]).card_type
                            == CardType::BYSTANDER,
                    forall|r: int, c: int|
                        0 <= r < row && 0 <= c < 5 ==> blank_at(
                            (#[trigger] board[r][c])@,
                            r,
                            c,
                            pool,
                        ),
                    forall|c: int|
                        0 <= c < col ==> blank_at((#[trigger] board[row as int][c])@, row as int, c, pool),
                decreases 5 - col,
            {
                let random_word: String = match rng.pick(words) {
                    Some(word) => {
                        proof {
                            let i = choose|i: int| 0 <= i < words.len() && words[i] == *word;
                            assert(pool[i] == word@);
                        }
                        word.clone()
                    },
                    None => String::new(),
                };
                board[row][col] = Card::new(random_word, CardType::BYSTANDER, (row, col));
                col = col + 1;
            }
            row = row + 1;
        }
        proof {
            let dealt_board = board_view(board);
            assert forall|i: int| 0 <= i < 25 implies (#[trigger] cells(dealt_board)[i]).card_type
                == CardType::BYSTANDER by {
                assert(board[i / 5][i % 5].card_type == CardType::BYSTANDER);
            }
            lemma_count_bystanders(cells(dealt_board), CardType::BYSTANDER);
            lemma_count_bystanders(cells(dealt_board), CardType::RED);
            lemma_count_bystanders(cells(dealt_board), CardType::BLUE);
            lemma_count_bystanders(cells(dealt_board), CardType::ASSASSIN);
            assert(dealt(dealt_board, pool)) by {
                assert forall|r: int, c: int| 0 <= r < 5 && 0 <= c < 5 implies {
                    let card = #[trigger] dealt_board[r][c];
                    &&& !card.flipped
                    &&& card.coord == (r as usize, c as usize)
                    &&& pool.contains(card.word)
                } by {
                    assert(blank_at(board[r][c]@, r, c, pool));
                }
            }
        }
        let first = CardType::from_team(starting_team);
        let second = CardType::from_team(&Team::opposite(starting_team));
        Game::fill_cards(&mut board, &first, 9, rng);
        Game::fill_cards(&mut board, &second, 8, rng);
        Game::fill_cards(&mut board, &CardType::ASSASSIN, 1, rng);
        board
    }

    /// Flips the card at `coord` and returns the game that results: the card
    /// lies face up, its team's counter is one lower, the turn stays with a
    /// team that found its own colour and passes otherwise, and the game is
    /// over once the assassin is flipped or a counter reaches zero.
    pub fn flip_card(&self, coord: (usize, usize)) -> (next: Game)
        requires
            self@.wf(),
            self@.can_flip(coord.0, coord.1),
        ensures
            next@ == self@.flip(coord.0, coord.1),
            next@.wf(),
            next@.board[coord.0 as int][coord.1 as int].flipped,
            self.board[coord.0 as int][coord.1 as int].card_type == CardType::ASSASSIN
                ==> next.game_status == (GameStatus::OVER { winner: self.turn_team.other() }),
            self.board[coord.0 as int][coord.1 as int].card_type == CardType::of_team(
                self.turn_team,
            ) ==> next.turn_team == self.turn_team,
            self.board[coord.0 as int][coord.1 as int].card_type != CardType::of_team(
                self.turn_team,
            ) ==> next.turn_team == self.turn_team.other(),
    {
        let mut new_game = self.clone();
        let kind = new_game.board[coord.0][coord.1].card_type;
        proof {
            lemma_flip_keeps_wf(self@, coord.0, coord.1);
        }
        let turn = new_game.turn_team;
        match kind {
            CardType::BLUE => {
                new_game.remaining_cards.0 = new_game.remaining_cards.0 - 1;
                if turn == Team::RED {
                    new_game.turn_team = Team::opposite(&turn);
                }
            },
            CardType::RED => {
                new_game.remaining_cards.1 = new_game.remaining_cards.1 - 1;
                if turn == Team::BLUE {
                    new_game.turn_team = Team::opposite(&turn);
                }
            },
            _ => {
                new_game.turn_team = Team::opposite(&turn);
            },
        }
        if kind == CardType::ASSASSIN {
            new_game.game_status = GameStatus::OVER { winner: Team::opposite(&turn) };
        } else if new_game.remaining_cards.0 == 0 {
            new_game.game_status = GameStatus::OVER { winner: Team::BLUE };
        } else if new_game.remaining_cards.1 == 0 {
            new_game.game_status = GameStatus::OVER { winner: Team::RED };
        }
        new_game.board[coord.0][coord.1].flipped = true;
        proof {
            let r = coord.0 as int;
            let c = coord.1 as int;
            let card = self@.board[r][c];
            assert(board_view(new_game.board) =~~= with_card(
                self@.board,
                r,
                c,
                CardView { flipped: true, ..card },
            ));
        }
        new_game
    }

    /// Passes the turn to the other team while the game is in progress, and
    /// returns the game unchanged once it is over.
    pub fn next_turn(&self) -> (next: Game)
        ensures
            next@ == self@.pass_turn(),
            self@.wf() ==> next@.wf(),
    {
        let mut new_game = self.clone();
        if new_game.game_status == GameStatus::IN_PROGRESS {
            new_game.turn_team = Team::opposite(&new_game.turn_team);
        }
        new_game
    }
}

/// A valid flip leaves a valid game, and takes one from the counter of the
/// card's team only.
pub proof fn lemma_flip_keeps_wf(game: GameView, r: usize, c: usize)
    requires
        game.wf(),
        game.can_flip(r, c),
    ensures
        game.flip(r, c).wf(),
        game.board[r as int][c as int].card_type == CardType::BLUE ==> game.remaining_cards.0 > 0,
        game.board[r as int][c as int].card_type == CardType::RED ==> game.remaining_cards.1 > 0,
{
    let card = game.board[r as int][c as int];
    let up = CardView { flipped: true, ..card };
    let next = game.flip(r, c);
    lemma_cells_with_card(game.board, r as int, c as int, up);
    lemma_tally_with_card(game.board, r as int, c as int, up, Tally::Kind(CardType::RED));
    lemma_tally_with_card(game.board, r as int, c as int, up, Tally::Kind(CardType::BLUE));
    lemma_tally_with_card(game.board, r as int, c as int, up, Tally::Kind(CardType::ASSASSIN));
    lemma_tally_with_card(game.board, r as int, c as int, up, Tally::Kind(CardType::BYSTANDER));
    lemma_tally_with_card(game.board, r as int, c as int, up, Tally::Hidden(CardType::BLUE));
    lemma_tally_with_card(game.board, r as int, c as int, up, Tally::Hidden(CardType::RED));
    assert(next.placed()) by {
        assert forall|i: int, j: int| 0 <= i < 5 && 0 <= j < 5 implies (
        #[trigger] next.board[i][j]).coord == (i as usize, j as usize) by {
            assert(game.board[i][j].coord == (i as usize, j as usize));
        }
    }
}

/// In a valid game the two counters and the team-coloured cards that lie
/// face up add up to seventeen.
pub proof fn lemma_valid_game_accounts_for_seventeen(game: GameView)
    requires
        game.wf(),
    ensures
        game.accounted() == 17,
{
    lemma_found_and_hidden(cells(game.board));
}

/// After any sequence of valid flips on a valid game, the game is still
/// valid, and the two counters and the team-coloured cards that lie face up
/// add up to seventeen.
pub proof fn lemma_flips_account_for_seventeen(game: GameView, flips: Seq<(usize, usize)>)
    requires
        game.wf(),
        game.flips_allowed(flips),
    ensures
        game.flip_all(flips).wf(),
        game.flip_all(flips).accounted() == 17,
    decreases flips.len(),
{
    if flips.len() == 0 {
        lemma_valid_game_accounts_for_seventeen(game);
    } else {
        lemma_flip_keeps_wf(game, flips[0].0, flips[0].1);
        lemma_flips_account_for_seventeen(game.flip(flips[0].0, flips[0].1), flips.drop_first());
    }
}

} // verus!
