//! Hands: the cards an entity holds, their hard, soft and effective totals,
//! and the hand's settlement state.
use vstd::prelude::*;

use crate::card::{Card, Face, face_value};

verus! {

/// The most cards a hand can hold. Its soft total is then at most 11 per card,
/// so it fits in a byte; a hand that has not busted holds at most 21 cards.
pub const MAX_HAND_CARDS: usize = 23;

/// Outcome attached to a hand by a completed turn or by settlement.
#[derive(Clone, Copy, Debug, PartialEq, Eq, Structural)]
pub enum HandState {
    Idle,
    Win,
    Lose,
    Push,
    Blackjack,
}

/// Sum of the base pip values (every Ace counts 1).
pub open spec fn hard_total(cards: Seq<Card>) -> nat
    decreases cards.len(),
{
    if cards.len() == 0 {
        0
    } else {
        hard_total(cards.drop_last()) + face_value(cards.last().face)
    }
}

/// Number of Aces.
pub open spec fn ace_count(cards: Seq<Card>) -> nat
    decreases cards.len(),
{
    if cards.len() == 0 {
        0
    } else {
        ace_count(cards.drop_last()) + (if cards.last().face == Face::Ace {
            1nat
        } else {
            0nat
        })
    }
}

/// Sum with every Ace counted 11.
pub open spec fn soft_total(cards: Seq<Card>) -> nat {
    hard_total(cards) + 10 * ace_count(cards)
}

/// The total used for every decision: the soft total when it is below 22 and
/// above the hard total, the hard total otherwise.
pub open spec fn effective_total(cards: Seq<Card>) -> nat {
    if soft_total(cards) < 22 && soft_total(cards) > hard_total(cards) {
        soft_total(cards)
    } else {
        hard_total(cards)
    }
}

pub open spec fn is_bust(cards: Seq<Card>) -> bool {
    effective_total(cards) > 21
}

/// 21 with exactly the two first cards.
pub open spec fn is_natural(cards: Seq<Card>) -> bool {
    cards.len() == 2 && effective_total(cards) == 21
}

/// Every card counts at least 1 and at most 10 (11 when soft).
pub proof fn lemma_total_bounds(cards: Seq<Card>)
    ensures
        cards.len() <= hard_total(cards) <= 10 * cards.len(),
        ace_count(cards) <= cards.len(),
        soft_total(cards) <= 11 * cards.len(),
        hard_total(cards) <= effective_total(cards),
    decreases cards.len(),
{
    if cards.len() > 0 {
        lemma_total_bounds(cards.drop_last());
    }
}

/// Adding a card adds its base value to the hard total.
pub proof fn lemma_hard_total_push(cards: Seq<Card>, c: Card)
    ensures
        hard_total(cards.push(c)) == hard_total(cards) + face_value(c.face),
{
    assert(cards.push(c).drop_last() =~= cards);
}

/// A hand of cards, in the order dealt, with its state.
pub struct Hand {
    pub state: HandState,
    pub cards: Vec<Card>,
}

impl Hand {
    /// The hand holds no more cards than its totals allow.
    pub open spec fn wf(&self) -> bool {
        self.cards@.len() <= MAX_HAND_CARDS
    }

    /// An empty, idle hand.
    pub fn new() -> (r: Hand)
        ensures
            r.state == HandState::Idle,
            r.cards@ == Seq::<Card>::empty(),
    {
        Hand { state: HandState::Idle, cards: Vec::new() }
    }

    /// Number of cards held.
    pub fn count(&self) -> (r: usize)
        ensures
            r == self.cards@.len(),
    {
        self.cards.len()
    }

    /// Discards every card; the state is kept.
    pub fn clear(&mut self)
        ensures
            final(self).cards@ == Seq::<Card>::empty(),
            final(self).state == old(self).state,
    {
        self.cards = Vec::new();
    }

    /// Appends a card.
    pub fn add(&mut self, card: Card)
        requires
            old(self).cards@.len() < MAX_HAND_CARDS,
        ensures
            final(self).cards@ == old(self).cards@.push(card),
            final(self).state == old(self).state,
    {
        self.cards.push(card);
    }

    /// The pair (hard total, soft total).
    pub fn get_total(&self) -> (r: (u8, u8))
        requires
            self.wf(),
        ensures
            r.0 as nat == hard_total(self.cards@),
            r.1 as nat == soft_total(self.cards@),
    {
        let mut hard: u8 = 0;
        let mut soft: u8 = 0;
        let mut i: usize = 0;
        while i < self.cards.len()
            invariant
                self.wf(),
                i <= self.cards@.len(),
                hard as nat == hard_total(self.cards@.subrange(0, i as int)),
                soft as nat == soft_total(self.cards@.subrange(0, i as int)),
            decreases self.cards@.len() - i,
        {
            let c = self.cards[i];
            let ghost before = self.cards@.subrange(0, i as int);
            assert(self.cards@.subrange(0, i + 1).drop_last() =~= before);
            proof {
                lemma_total_bounds(self.cards@.subrange(0, i + 1));
            }
            let v = c.value();
            hard = hard + v;
            soft = soft + v;
            if c.is_ace() {
                soft = soft + 10;
            }
            i = i + 1;
        }
        assert(self.cards@.subrange(0, i as int) =~= self.cards@);
        (hard, soft)
    }

    /// The effective total.
    pub fn get_total_single(&self) -> (r: u8)
        requires
            self.wf(),
        ensures
            r as nat == effective_total(self.cards@),
    {
        let (sum, special) = self.get_total();
        if special < 22 && special > sum {
            special
        } else {
            sum
        }
    }

    /// The effective total is over 21.
    pub fn is_bust(&self) -> (r: bool)
        requires
            self.wf(),
        ensures
            r == is_bust(self.cards@),
    {
        self.get_total_single() > 21
    }

    /// Exactly two cards making 21.
    pub fn is_blackjack(&self) -> (r: bool)
        requires
            self.wf(),
        ensures
            r == is_natural(self.cards@),
    {
        self.cards.len() == 2 && self.get_total_single() == 21
    }
}

} // verus!
