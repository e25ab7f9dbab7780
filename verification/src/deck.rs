//! Cards and the two-pile deck.
//!
//! The deck keeps a draw pile and a discard pile.  Drawing from an empty
//! draw pile silently moves the discard pile under the draw pile first, so
//! the reshuffle is transparent to callers.

use vstd::prelude::*;

verus! {

use vstd::multiset::Multiset;

use crate::rng::shuffle_cards;

/// One of the 54 card identities: four suits with ranks 1 to 13, plus two
/// indistinguishable jokers.
#[derive(Clone, Copy, PartialEq, Eq, Structural, Debug)]
pub enum Card {
    Clubs(u8),
    Diamonds(u8),
    Hearts(u8),
    Spade(u8),
    Joker,
}

impl Card {
    /// A card identity that can occur in a game: suit ranks stay in 1..=13.
    pub open spec fn wf(self) -> bool {
        match self {
            Card::Clubs(n) | Card::Diamonds(n) | Card::Hearts(n) | Card::Spade(n) => 1 <= n <= 13,
            Card::Joker => true,
        }
    }

    /// The rank used for same-card matching; jokers have none.
    pub open spec fn spec_value(self) -> Option<u8> {
        match self {
            Card::Clubs(n) | Card::Diamonds(n) | Card::Hearts(n) | Card::Spade(n) => Some(n),
            Card::Joker => None,
        }
    }

    /// The score a card contributes to a hand: the rank, except that the
    /// rank-13 heart counts -1 and a joker counts 0.
    pub open spec fn spec_score(self) -> int {
        match self {
            Card::Hearts(13u8) => -1,
            Card::Joker => 0,
            Card::Clubs(n) | Card::Diamonds(n) | Card::Hearts(n) | Card::Spade(n) => n as int,
        }
    }

    pub fn get_value(&self) -> (r: Option<u8>)
        ensures
            r == self.spec_value(),
    {
        match self {
            Card::Clubs(n) | Card::Diamonds(n) | Card::Hearts(n) | Card::Spade(n) => Some(*n),
            Card::Joker => None,
        }
    }

    pub fn get_score(&self) -> (r: i8)
        requires
            self.wf(),
        ensures
            r as int == self.spec_score(),
    {
        match self {
            Card::Hearts(13u8) => -1,
            Card::Joker => 0,
            Card::Clubs(n) | Card::Diamonds(n) | Card::Hearts(n) | Card::Spade(n) => *n as i8,
        }
    }
}

/// The card at position `i` of an unshuffled deck: the thirteen ranks in
/// order, each in all four suits, then the two jokers.
pub open spec fn deck_card(i: int) -> Card {
    if i >= 52 {
        Card::Joker
    } else {
        let rank = (i / 4 + 1) as u8;
        if i % 4 == 0 {
            Card::Clubs(rank)
        } else if i % 4 == 1 {
            Card::Diamonds(rank)
        } else if i % 4 == 2 {
            Card::Hearts(rank)
        } else {
            Card::Spade(rank)
        }
    }
}

/// The full 54-card identity set, in unshuffled order.
pub open spec fn full_deck() -> Seq<Card> {
    Seq::new(54, |i: int| deck_card(i))
}

/// Draw pile and discard pile.  Cards enter play only by `draw` and come
/// back only by `discard`.
pub struct Deck {
    pub cards: Vec<Card>,
    pub discard_pile: Vec<Card>,
}

impl Deck {
    /// The multiset of cards the deck can still hand out (both piles).
    pub open spec fn avail(self) -> Multiset<Card> {
        self.cards@.to_multiset().add(self.discard_pile@.to_multiset())
    }

    /// How many cards the deck holds over both piles.
    pub open spec fn total(self) -> nat {
        self.cards@.len() + self.discard_pile@.len()
    }

    /// What `draw` does: take the top of the draw pile, or, when that pile
    /// is empty, move the discard pile under the draw pile first and take
    /// its top.
    pub open spec fn draw_spec(pre: Deck, post: Deck, c: Card) -> bool {
        if pre.cards@.len() > 0 {
            &&& c == pre.cards@.last()
            &&& post.cards@ == pre.cards@.drop_last()
            &&& post.discard_pile@ == pre.discard_pile@
        } else {
            &&& c == pre.discard_pile@.last()
            &&& post.cards@ == pre.discard_pile@.drop_last()
            &&& post.discard_pile@.len() == 0
        }
    }

    /// A freshly shuffled full deck: some order of the 54 card identities,
    /// with nothing discarded yet.
    pub fn new() -> (d: Deck)
        ensures
            d.cards@.to_multiset() == full_deck().to_multiset(),
            d.cards@.len() == 54,
            d.discard_pile@.len() == 0,
    {
        let mut cards: Vec<Card> = Vec::new();
        let mut rank: u8 = 1;
        while rank <= 13
            invariant
                1 <= rank <= 14,
                cards@ =~= full_deck().subrange(0, 4 * (rank - 1)),
            decreases 14 - rank,
        {
            cards.push(Card::Clubs(rank));
            cards.push(Card::Diamonds(rank));
            cards.push(Card::Hearts(rank));
            cards.push(Card::Spade(rank));
            rank += 1;
        }
        cards.push(Card::Joker);
        cards.push(Card::Joker);
        assert(cards@ =~= full_deck());
        shuffle_cards(&mut cards);
        Deck { cards, discard_pile: Vec::new() }
    }

    /// Draw one card.  Needs at least one card somewhere in the deck; the
    /// reshuffle of the discard pile is silent.
    pub fn draw(&mut self) -> (c: Card)
        requires
            old(self).total() >= 1,
        ensures
            Deck::draw_spec(*old(self), *final(self), c),
    {
        if self.cards.is_empty() {
            core::mem::swap(&mut self.cards, &mut self.discard_pile);
        }
        self.cards.pop().unwrap()
    }

    /// Put a card on top of the discard pile.
    pub fn discard(&mut self, card: Card)
        ensures
            final(self).cards@ == old(self).cards@,
            final(self).discard_pile@ == old(self).discard_pile@.push(card),
    {
        self.discard_pile.push(card);
    }

    /// The top of the discard pile, if any.
    pub fn get_last_discarded(&self) -> (r: Option<Card>)
        ensures
            r == if self.discard_pile@.len() == 0 {
                None::<Card>
            } else {
                Some(self.discard_pile@.last())
            },
    {
        if self.discard_pile.len() == 0 {
            None
        } else {
            Some(self.discard_pile[self.discard_pile.len() - 1])
        }
    }
}

impl Default for Deck {
    /// The same freshly shuffled full deck that `Deck::new` deals.
    fn default() -> (d: Deck)
        ensures
            d.cards@.to_multiset() == full_deck().to_multiset(),
            d.cards@.len() == 54,
            d.discard_pile@.len() == 0,
    {
        Deck::new()
    }
}

/// A deck with a chosen draw pile and an empty discard pile, for setting up
/// known game positions.
pub fn testing_deck(cards: Vec<Card>) -> (d: Deck)
    ensures
        d.cards@ == cards@,
        d.discard_pile@.len() == 0,
{
    Deck { cards, discard_pile: Vec::new() }
}

/// Law: the reshuffle on exhaustion is transparent.  However `draw` was
/// served, it removes exactly the returned card from the available pool and
/// shrinks the deck by one; an empty draw pile never makes it fail.
pub proof fn lemma_draw_transparent(pre: Deck, post: Deck, c: Card)
    requires
        pre.total() >= 1,
        Deck::draw_spec(pre, post, c),
    ensures
        post.avail().insert(c) == pre.avail(),
        post.total() + 1 == pre.total(),
{
    broadcast use vstd::seq_lib::group_to_multiset_ensures;
    if pre.cards@.len() > 0 {
        assert(pre.cards@ == pre.cards@.drop_last().push(pre.cards@.last()));
        assert(pre.cards@.to_multiset() == post.cards@.to_multiset().insert(c));
        assert(post.avail().insert(c) =~= pre.avail());
    } else {
        assert(pre.discard_pile@ == pre.discard_pile@.drop_last().push(pre.discard_pile@.last()));
        assert(pre.discard_pile@.to_multiset() == post.cards@.to_multiset().insert(c));
        assert(post.avail().insert(c) =~= pre.avail());
    }
}

/// Law: a discarded card stays available — it rejoins the pool that `draw`
/// serves from, so every card discarded is eventually drawable again.
pub proof fn lemma_discard_keeps_card_available(pre: Deck, post: Deck, c: Card)
    requires
        post.cards@ == pre.cards@,
        post.discard_pile@ == pre.discard_pile@.push(c),
    ensures
        post.avail() == pre.avail().insert(c),
        post.avail().contains(c),
{
    broadcast use vstd::seq_lib::group_to_multiset_ensures;
    assert(post.avail() =~= pre.avail().insert(c));
}

} // verus!
