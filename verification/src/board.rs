//! The board as a grid of card values: how its cards are counted, and what
//! replacing or recasting one card does to the counts.

use crate::game::CardType;
use crate::game::CardView;
use crate::game::Team;
use vstd::prelude::*;

verus! {

/// What a tally counts.
pub enum Tally {
    /// Cards of one kind.
    Kind(CardType),
    /// Face-down cards of one kind.
    Hidden(CardType),
    /// Face-up cards of either team's colour.
    Found,
}

impl Tally {
    /// Whether a card is counted.
    pub open spec fn counts(self, card: CardView) -> bool {
        match self {
            Tally::Kind(kind) => card.card_type == kind,
            Tally::Hidden(kind) => card.card_type == kind && !card.flipped,
            Tally::Found => card.flipped && (card.card_type == CardType::RED || card.card_type
                == CardType::BLUE),
        }
    }
}

/// The number of cards in `cards` that `what` counts.
pub open spec fn count_cards(cards: Seq<CardView>, what: Tally) -> nat
    decreases cards.len(),
{
    if cards.len() == 0 {
        0
    } else {
        count_cards(cards.drop_last(), what) + if what.counts(cards.last()) {
            1nat
        } else {
            0nat
        }
    }
}

/// Whether a grid has five rows of five cards.
pub open spec fn is_grid(board: Seq<Seq<CardView>>) -> bool {
    &&& board.len() == 5
    &&& forall|r: int| 0 <= r < 5 ==> (#[trigger] board[r]).len() == 5
}

/// The 25 cards of a grid, row after row.
pub open spec fn cells(board: Seq<Seq<CardView>>) -> Seq<CardView> {
    Seq::new(25, |i: int| board[i / 5][i % 5])
}

/// The number of cards on a grid that `what` counts.
pub open spec fn tally(board: Seq<Seq<CardView>>, what: Tally) -> nat {
    count_cards(cells(board), what)
}

/// The grid with the card at (`r`, `c`) replaced.
pub open spec fn with_card(board: Seq<Seq<CardView>>, r: int, c: int, card: CardView) -> Seq<
    Seq<CardView>,
> {
    board.update(r, board[r].update(c, card))
}

/// Whether a grid holds nine cards of the starting team's colour, eight of
/// the other's, one assassin and seven bystanders.
pub open spec fn composition(board: Seq<Seq<CardView>>, starting_team: Team) -> bool {
    &&& tally(board, Tally::Kind(CardType::of_team(starting_team))) == 9
    &&& tally(board, Tally::Kind(CardType::of_team(starting_team.other()))) == 8
    &&& tally(board, Tally::Kind(CardType::ASSASSIN)) == 1
    &&& tally(board, Tally::Kind(CardType::BYSTANDER)) == 7
}

/// Whether some card of the grid is a bystander, and so free to be recast.
pub open spec fn has_vacancy(board: Seq<Seq<CardView>>) -> bool {
    exists|r: int, c: int| 0 <= r < 5 && 0 <= c < 5 && vacant_at(board, r, c)
}

/// Whether the card at (`r`, `c`) is a bystander.
pub open spec fn vacant_at(board: Seq<Seq<CardView>>, r: int, c: int) -> bool {
    board[r][c].card_type == CardType::BYSTANDER
}

/// The grid with the card at (`r`, `c`) given the kind `kind`.
pub open spec fn recast(board: Seq<Seq<CardView>>, r: int, c: int, kind: CardType) -> Seq<
    Seq<CardView>,
> {
    with_card(board, r, c, CardView { card_type: kind, ..board[r][c] })
}

/// Whether `after` is `before` with the bystander at (`r`, `c`) recast as
/// `kind`.
pub open spec fn filled_at(
    before: Seq<Seq<CardView>>,
    after: Seq<Seq<CardView>>,
    r: int,
    c: int,
    kind: CardType,
) -> bool {
    &&& 0 <= r < 5
    &&& 0 <= c < 5
    &&& vacant_at(before, r, c)
    &&& after == recast(before, r, c, kind)
}

/// Whether every card of the grid lies face down at its own coordinates and
/// bears one of `words`.
pub open spec fn dealt(board: Seq<Seq<CardView>>, words: Seq<Seq<char>>) -> bool {
    forall|r: int, c: int|
        0 <= r < 5 && 0 <= c < 5 ==> {
            let card = #[trigger] board[r][c];
            &&& !card.flipped
            &&& card.coord == (r as usize, c as usize)
            &&& words.contains(card.word)
        }
}

/// Whether the card is a face-down bystander at (`r`, `c`) that bears one of
/// `words`.
pub open spec fn blank_at(card: CardView, r: int, c: int, words: Seq<Seq<char>>) -> bool {
    &&& card.card_type == CardType::BYSTANDER
    &&& !card.flipped
    &&& card.coord == (r as usize, c as usize)
    &&& words.contains(card.word)
}

/// Replacing one card changes a count by what the new card adds and the old
/// one took.
pub proof fn lemma_count_update(cards: Seq<CardView>, i: int, card: CardView, what: Tally)
    requires
        0 <= i < cards.len(),
    ensures
        count_cards(cards.update(i, card), what) + (if what.counts(cards[i]) {
            1nat
        } else {
            0nat
        }) == count_cards(cards, what) + (if what.counts(card) {
            1nat
        } else {
            0nat
        }),
    decreases cards.len(),
{
    let updated = cards.update(i, card);
    if i == cards.len() - 1 {
        assert(updated.drop_last() =~= cards.drop_last());
    } else {
        assert(updated.drop_last() =~= cards.drop_last().update(i, card));
        lemma_count_update(cards.drop_last(), i, card, what);
    }
}

/// Replacing the card at (`r`, `c`) of a grid replaces cell `5 * r + c`.
pub proof fn lemma_cells_with_card(board: Seq<Seq<CardView>>, r: int, c: int, card: CardView)
    requires
        is_grid(board),
        0 <= r < 5,
        0 <= c < 5,
    ensures
        is_grid(with_card(board, r, c, card)),
        cells(board)[5 * r + c] == board[r][c],
        cells(with_card(board, r, c, card)) == cells(board).update(5 * r + c, card),
{
    let changed = with_card(board, r, c, card);
    assert forall|i: int| 0 <= i < 25 implies #[trigger] cells(changed)[i] == cells(board).update(
        5 * r + c,
        card,
    )[i] by {
        if i / 5 == r {
        }
    }
    assert(cells(changed) =~= cells(board).update(5 * r + c, card));
}

/// What replacing the card at (`r`, `c`) does to a tally of the grid.
pub proof fn lemma_tally_with_card(
    board: Seq<Seq<CardView>>,
    r: int,
    c: int,
    card: CardView,
    what: Tally,
)
    requires
        is_grid(board),
        0 <= r < 5,
        0 <= c < 5,
    ensures
        tally(with_card(board, r, c, card), what) + (if what.counts(board[r][c]) {
            1nat
        } else {
            0nat
        }) == tally(board, what) + (if what.counts(card) {
            1nat
        } else {
            0nat
        }),
{
    lemma_cells_with_card(board, r, c, card);
    lemma_count_update(cells(board), 5 * r + c, card, what);
}

/// Recasting a bystander moves one card from the bystanders' count to that
/// of the new kind and leaves every other count of kinds alone.
pub proof fn lemma_recast_tallies(board: Seq<Seq<CardView>>, r: int, c: int, kind: CardType)
    requires
        is_grid(board),
        0 <= r < 5,
        0 <= c < 5,
        vacant_at(board, r, c),
        kind != CardType::BYSTANDER,
    ensures
        is_grid(recast(board, r, c, kind)),
        tally(recast(board, r, c, kind), Tally::Kind(kind)) == tally(board, Tally::Kind(kind)) + 1,
        tally(recast(board, r, c, kind), Tally::Kind(CardType::BYSTANDER)) + 1 == tally(
            board,
            Tally::Kind(CardType::BYSTANDER),
        ),
        forall|other: CardType|
            other != kind && other != CardType::BYSTANDER ==> #[trigger] tally(
                recast(board, r, c, kind),
                Tally::Kind(other),
            ) == tally(board, Tally::Kind(other)),
        forall|words: Seq<Seq<char>>| #[trigger]
            dealt(board, words) ==> dealt(recast(board, r, c, kind), words),
{
    let card = CardView { card_type: kind, ..board[r][c] };
    lemma_cells_with_card(board, r, c, card);
    lemma_tally_with_card(board, r, c, card, Tally::Kind(kind));
    lemma_tally_with_card(board, r, c, card, Tally::Kind(CardType::BYSTANDER));
    assert forall|other: CardType| other != kind && other != CardType::BYSTANDER implies
        #[trigger] tally(recast(board, r, c, kind), Tally::Kind(other)) == tally(
        board,
        Tally::Kind(other),
    ) by {
        lemma_tally_with_card(board, r, c, card, Tally::Kind(other));
    }
    assert forall|words: Seq<Seq<char>>| #[trigger] dealt(board, words) implies dealt(
        recast(board, r, c, kind),
        words,
    ) by {
        let after = recast(board, r, c, kind);
        assert forall|i: int, j: int| 0 <= i < 5 && 0 <= j < 5 implies {
            let x = #[trigger] after[i][j];
            &&& !x.flipped
            &&& x.coord == (i as usize, j as usize)
            &&& words.contains(x.word)
        } by {
            let y = board[i][j];
            assert(!y.flipped && y.coord == (i as usize, j as usize) && words.contains(y.word));
        }
    }
}

/// Every team-coloured card is either face up or counted among the hidden
/// cards of its colour.
pub proof fn lemma_found_and_hidden(cards: Seq<CardView>)
    ensures
        count_cards(cards, Tally::Found) + count_cards(cards, Tally::Hidden(CardType::BLUE))
            + count_cards(cards, Tally::Hidden(CardType::RED)) == count_cards(
            cards,
            Tally::Kind(CardType::BLUE),
        ) + count_cards(cards, Tally::Kind(CardType::RED)),
    decreases cards.len(),
{
    if cards.len() > 0 {
        lemma_found_and_hidden(cards.drop_last());
    }
}

/// Among cards that all lie face down, the hidden cards of a kind are all
/// the cards of that kind.
pub proof fn lemma_hidden_when_face_down(cards: Seq<CardView>, kind: CardType)
    requires
        forall|i: int| 0 <= i < cards.len() ==> !(#[trigger] cards[i]).flipped,
    ensures
        count_cards(cards, Tally::Hidden(kind)) == count_cards(cards, Tally::Kind(kind)),
    decreases cards.len(),
{
    if cards.len() > 0 {
        let rest = cards.drop_last();
        assert forall|i: int| 0 <= i < rest.len() implies !(#[trigger] rest[i]).flipped by {
            assert(rest[i] == cards[i]);
        }
        lemma_hidden_when_face_down(rest, kind);
        assert(!cards[cards.len() - 1].flipped);
    }
}

/// Among cards that are all bystanders, every card counts as one and none
/// as anything else.
pub proof fn lemma_count_bystanders(cards: Seq<CardView>, kind: CardType)
    requires
        forall|i: int| 0 <= i < cards.len() ==> (#[trigger] cards[i]).card_type
            == CardType::BYSTANDER,
    ensures
        count_cards(cards, Tally::Kind(kind)) == if kind == CardType::BYSTANDER {
            cards.len()
        } else {
            0
        },
    decreases cards.len(),
{
    if cards.len() > 0 {
        let rest = cards.drop_last();
        assert forall|i: int| 0 <= i < rest.len() implies (#[trigger] rest[i]).card_type
            == CardType::BYSTANDER by {
            assert(rest[i] == cards[i]);
        }
        lemma_count_bystanders(rest, kind);
        assert(cards[cards.len() - 1].card_type == CardType::BYSTANDER);
    }
}

/// A positive count has a card to show for it.
pub proof fn lemma_counted_card(cards: Seq<CardView>, what: Tally) -> (i: int)
    requires
        count_cards(cards, what) > 0,
    ensures
        0 <= i < cards.len(),
        what.counts(cards[i]),
    decreases cards.len(),
{
    if what.counts(cards.last()) {
        cards.len() - 1
    } else {
        lemma_counted_card(cards.drop_last(), what)
    }
}

} // verus!
