//! The dealer: owns the shoe and its own hand, deals, plays its fixed policy,
//! and settles each player's hand against its own.
use vstd::prelude::*;

use crate::card::Card;
use crate::deck::{Deck, Shoe, draws, full_shoe, standard_deck, top_cards};
use crate::hand::{
    Hand,
    HandState,
    MAX_HAND_CARDS,
    effective_total,
    is_bust,
    is_natural,
    lemma_hard_total_push,
    lemma_total_bounds,
};
use crate::player::{Player, STAND_THRESHOLD};

verus! {

/// Decks in a shoe under the canonical rules.
pub const DECKS_PER_SHOE: u8 = 6;

/// `drawn` are the cards taken off the top of `before`, leaving `after`,
/// whenever the shoe held enough cards not to be rebuilt on the way.
pub open spec fn drawn_from_top(before: Seq<Card>, after: Seq<Card>, drawn: Seq<Card>) -> bool {
    drawn.len() <= before.len() ==> drawn == top_cards(before, drawn.len()) && after
        == before.subrange(0, before.len() - drawn.len())
}

/// `after` is `before` hit card by card while its effective total stayed
/// below 17: every hand on the way was below 17, and the last one is not.
pub open spec fn hit_to_threshold(before: Seq<Card>, after: Seq<Card>) -> bool {
    &&& before.len() <= after.len()
    &&& after.subrange(0, before.len() as int) == before
    &&& forall|k: int|
        before.len() <= k < after.len() ==> effective_total(#[trigger] after.subrange(0, k))
            < STAND_THRESHOLD
    &&& effective_total(after) >= STAND_THRESHOLD
}

/// The state a finished turn leaves: a bust loses, a natural is a blackjack,
/// otherwise the state is kept.
pub open spec fn turn_state(cards: Seq<Card>, state: HandState) -> HandState {
    if is_bust(cards) {
        HandState::Lose
    } else if is_natural(cards) {
        HandState::Blackjack
    } else {
        state
    }
}

/// Settlement of a player's hand against the dealer's, in order of
/// precedence: player bust, dealer bust, a natural on one side only, then the
/// effective totals.
pub open spec fn settlement(player: Seq<Card>, dealer: Seq<Card>) -> HandState {
    if is_bust(player) {
        HandState::Lose
    } else if is_bust(dealer) {
        HandState::Win
    } else if is_natural(player) && !is_natural(dealer) {
        HandState::Blackjack
    } else if is_natural(dealer) && !is_natural(player) {
        HandState::Lose
    } else if effective_total(player) > effective_total(dealer) {
        HandState::Win
    } else if effective_total(player) == effective_total(dealer) {
        HandState::Push
    } else {
        HandState::Lose
    }
}

/// How many wagers a settled hand pays back: a push returns the wager, a win
/// pays twice it, a blackjack three times; a loss pays nothing.
pub open spec fn payout_multiple(state: HandState) -> int {
    match state {
        HandState::Push => 1,
        HandState::Win => 2,
        HandState::Blackjack => 3,
        _ => 0,
    }
}

/// A bankroll credited with `amount`, saturating at `i64::MAX`.
pub open spec fn credited(bankroll: int, amount: int) -> int {
    if bankroll + amount > i64::MAX {
        i64::MAX as int
    } else {
        bankroll + amount
    }
}

/// Settlement precedence: a busted player loses even when the dealer busts
/// too; a natural beats a dealer's 21 of three cards and pays three times the
/// wager; equal totals without a natural push, returning the wager so that
/// the bankroll is as it was before the bet.
pub proof fn settlement_precedence(player: Seq<Card>, dealer: Seq<Card>, bankroll: int, wager: int)
    requires
        0 <= wager <= bankroll <= i64::MAX,
    ensures
        is_bust(player) && is_bust(dealer) ==> settlement(player, dealer) == HandState::Lose,
        is_natural(player) && dealer.len() == 3 && effective_total(dealer) == 21 ==> settlement(
            player,
            dealer,
        ) == HandState::Blackjack && payout_multiple(settlement(player, dealer)) == 3,
        !is_bust(player) && !is_bust(dealer) && !is_natural(player) && !is_natural(dealer)
            && effective_total(player) == effective_total(dealer) ==> settlement(player, dealer)
            == HandState::Push && credited(
            bankroll - wager,
            payout_multiple(settlement(player, dealer)) * wager,
        ) == bankroll,
{
}

/// Hits `hand` from `shoe` while its effective total is below 17.
fn play_to_threshold(shoe: &mut Shoe, decks_per_shoe: u8, hand: &mut Hand)
    requires
        decks_per_shoe >= 1,
        old(hand).wf(),
    ensures
        final(hand).wf(),
        final(hand).state == old(hand).state,
        hit_to_threshold(old(hand).cards@, final(hand).cards@),
        drawn_from_top(
            old(shoe)@,
            final(shoe)@,
            final(hand).cards@.skip(old(hand).cards@.len() as int),
        ),
{
    let ghost start = hand.cards@;
    let ghost top = shoe@;
    assert(hand.cards@.subrange(0, start.len() as int) =~= start);
    assert(hand.cards@.skip(start.len() as int) =~= top_cards(top, 0));
    assert(shoe@ =~= top.subrange(0, top.len() - 0));
    loop
        invariant
            decks_per_shoe >= 1,
            hand.wf(),
            hand.state == old(hand).state,
            start == old(hand).cards@,
            top == old(shoe)@,
            start.len() <= hand.cards@.len(),
            hand.cards@.subrange(0, start.len() as int) == start,
            forall|k: int|
                start.len() <= k < hand.cards@.len() ==> effective_total(
                    #[trigger] hand.cards@.subrange(0, k),
                ) < STAND_THRESHOLD,
            drawn_from_top(top, shoe@, hand.cards@.skip(start.len() as int)),
        ensures
            effective_total(hand.cards@) >= STAND_THRESHOLD,
        decreases MAX_HAND_CARDS - hand.cards@.len(),
    {
        let total = hand.get_total_single();
        if total >= STAND_THRESHOLD {
            break;
        }
        proof {
            lemma_total_bounds(hand.cards@);
        }
        let ghost prev = hand.cards@;
        let ghost prev_shoe = shoe@;
        let c = shoe.draw_or_rebuild(decks_per_shoe);
        hand.add(c);
        proof {
            assert(hand.cards@.subrange(0, prev.len() as int) =~= prev);
            assert(hand.cards@.subrange(0, start.len() as int) =~= start);
            assert forall|k: int|
                start.len() <= k < hand.cards@.len() implies effective_total(
                #[trigger] hand.cards@.subrange(0, k),
            ) < STAND_THRESHOLD by {
                if k < prev.len() {
                    assert(hand.cards@.subrange(0, k) =~= prev.subrange(0, k));
                }
            }
            let drawn = hand.cards@.skip(start.len() as int);
            let before = prev.skip(start.len() as int);
            assert(drawn =~= before.push(c));
            if drawn.len() <= top.len() {
                assert(before.len() <= top.len());
                assert(prev_shoe =~= top.subrange(0, top.len() - before.len()));
                assert(prev_shoe.len() > 0);
                assert(drawn =~= top_cards(top, drawn.len()));
                assert(shoe@ =~= top.subrange(0, top.len() - drawn.len()));
            }
        }
    }
    assert(hand.cards@.subrange(0, hand.cards@.len() as int) =~= hand.cards@);
}

/// The table's dealer.
pub struct Dealer {
    pub shoe: Shoe,
    pub hand: Hand,
    pub decks_per_shoe: u8,
}

impl Dealer {
    /// At least one deck per shoe, and a hand within its bound.
    pub open spec fn wf(&self) -> bool {
        &&& self.decks_per_shoe >= 1
        &&& self.hand.wf()
    }

    /// A dealer under the canonical rules (6 decks per shoe), with an empty
    /// shoe and an empty hand.
    pub fn new() -> (r: Dealer)
        ensures
            r.wf(),
            r.decks_per_shoe == DECKS_PER_SHOE,
            r.shoe@ == Seq::<Card>::empty(),
            r.hand.cards@ == Seq::<Card>::empty(),
            r.hand.state == HandState::Idle,
    {
        Dealer { shoe: Shoe::new(), hand: Hand::new(), decks_per_shoe: DECKS_PER_SHOE }
    }

    /// A dealer holding `shoe`, rebuilding shoes of `decks_per_shoe` decks;
    /// a shoe of no decks is refused.
    pub fn with_shoe(shoe: Shoe, decks_per_shoe: u8) -> (r: Option<Dealer>)
        ensures
            r is None <==> decks_per_shoe == 0,
            r matches Some(d) ==> d.wf() && d.decks_per_shoe == decks_per_shoe && d.shoe@
                == shoe@ && d.hand.cards@ == Seq::<Card>::empty() && d.hand.state
                == HandState::Idle,
    {
        if decks_per_shoe == 0 {
            None
        } else {
            Some(Dealer { shoe, hand: Hand::new(), decks_per_shoe })
        }
    }

    /// Marks a player as eliminated.
    pub fn remove_player(&mut self, player: &mut Player)
        ensures
            !final(player).active,
            final(player).name == old(player).name,
            final(player).hand == old(player).hand,
            final(player).human == old(player).human,
            final(player).bankroll == old(player).bankroll,
            final(player).wager == old(player).wager,
            *final(self) == *old(self),
    {
        player.active = false;
    }

    /// Settles a player's hand against the dealer's, recording the outcome as
    /// the player's hand state.
    pub fn hand_status(&mut self, player: &mut Player)
        requires
            old(self).wf(),
            old(player).hand.wf(),
        ensures
            final(player).hand.state == settlement(old(player).hand.cards@, old(self).hand.cards@),
            final(player).hand.cards@ == old(player).hand.cards@,
            final(player).name == old(player).name,
            final(player).human == old(player).human,
            final(player).bankroll == old(player).bankroll,
            final(player).wager == old(player).wager,
            final(player).active == old(player).active,
            *final(self) == *old(self),
    {
        let player_total = player.hand.get_total_single();
        let dealer_total = self.hand.get_total_single();
        let player_natural = player.hand.is_blackjack();
        let dealer_natural = self.hand.is_blackjack();
        let outcome = if player_total > 21 {
            HandState::Lose
        } else if dealer_total > 21 {
            HandState::Win
        } else if player_natural && !dealer_natural {
            HandState::Blackjack
        } else if dealer_natural && !player_natural {
            HandState::Lose
        } else if player_total > dealer_total {
            HandState::Win
        } else if player_total == dealer_total {
            HandState::Push
        } else {
            HandState::Lose
        };
        player.hand.state = outcome;
    }

    /// Pays a settled hand: the wager times its payout multiple is credited
    /// (the wager was debited when placed), then the wager is cleared and both
    /// hands return to idle.
    pub fn payout(&mut self, player: &mut Player)
        requires
            old(player).wager >= 0,
        ensures
            final(player).bankroll == credited(
                old(player).bankroll as int,
                payout_multiple(old(player).hand.state) * old(player).wager,
            ),
            final(player).wager == 0,
            final(player).hand.state == HandState::Idle,
            final(player).hand.cards@ == old(player).hand.cards@,
            final(player).name == old(player).name,
            final(player).human == old(player).human,
            final(player).active == old(player).active,
            final(self).hand.state == HandState::Idle,
            final(self).hand.cards@ == old(self).hand.cards@,
            final(self).shoe@ == old(self).shoe@,
            final(self).decks_per_shoe == old(self).decks_per_shoe,
    {
        let times: u8 = match player.hand.state {
            HandState::Push => 1,
            HandState::Win => 2,
            HandState::Blackjack => 3,
            _ => 0,
        };
        let wager = player.wager;
        let mut i: u8 = 0;
        while i < times
            invariant
                i <= times,
                times as int == payout_multiple(old(player).hand.state),
                wager == old(player).wager,
                wager >= 0,
                player.bankroll == credited(old(player).bankroll as int, i * wager),
                player.wager == wager,
                player.hand == old(player).hand,
                player.name == old(player).name,
                player.human == old(player).human,
                player.active == old(player).active,
            decreases times - i,
        {
            player.set_pay(wager);
            assert((i + 1) * wager == i * wager + wager) by (nonlinear_arith);
            assert(i * wager >= 0) by (nonlinear_arith)
                requires
                    i >= 0,
                    wager >= 0,
            ;
            i = i + 1;
        }
        player.clear_wager();
        player.hand.state = HandState::Idle;
        self.hand.state = HandState::Idle;
    }

    /// The dealer's fixed policy: hit while the effective total is below 17,
    /// then a bust loses, a two-card 21 is a blackjack, anything else stands.
    pub fn dealer_turn(&mut self)
        requires
            old(self).wf(),
        ensures
            final(self).wf(),
            final(self).decks_per_shoe == old(self).decks_per_shoe,
            hit_to_threshold(old(self).hand.cards@, final(self).hand.cards@),
            final(self).hand.state == turn_state(final(self).hand.cards@, old(self).hand.state),
            drawn_from_top(
                old(self).shoe@,
                final(self).shoe@,
                final(self).hand.cards@.skip(old(self).hand.cards@.len() as int),
            ),
    {
        play_to_threshold(&mut self.shoe, self.decks_per_shoe, &mut self.hand);
        if self.hand.is_bust() {
            self.hand.state = HandState::Lose;
        } else if self.hand.is_blackjack() {
            self.hand.state = HandState::Blackjack;
        }
    }

    /// An automated player's turn: the same policy as the dealer's, hitting
    /// while below 17; a bust loses and a natural is a blackjack.
    pub fn player_turn(&mut self, player: &mut Player)
        requires
            old(self).wf(),
            old(player).hand.wf(),
        ensures
            final(self).wf(),
            final(self).decks_per_shoe == old(self).decks_per_shoe,
            final(self).hand == old(self).hand,
            final(player).hand.wf(),
            hit_to_threshold(old(player).hand.cards@, final(player).hand.cards@),
            final(player).hand.state == turn_state(
                final(player).hand.cards@,
                old(player).hand.state,
            ),
            drawn_from_top(
                old(self).shoe@,
                final(self).shoe@,
                final(player).hand.cards@.skip(old(player).hand.cards@.len() as int),
            ),
            final(player).name == old(player).name,
            final(player).human == old(player).human,
            final(player).bankroll == old(player).bankroll,
            final(player).wager == old(player).wager,
            final(player).active == old(player).active,
    {
        play_to_threshold(&mut self.shoe, self.decks_per_shoe, &mut player.hand);
        if player.hand.is_bust() {
            player.hand.state = HandState::Lose;
        } else if player.hand.is_blackjack() {
            player.hand.state = HandState::Blackjack;
        }
    }

    /// Draws the top card of the shoe, or nothing when it is empty.
    pub fn draw_card(&mut self) -> (r: Option<Card>)
        ensures
            old(self).shoe@.len() == 0 ==> r is None && final(self).shoe@ == old(self).shoe@,
            old(self).shoe@.len() > 0 ==> r == Some(old(self).shoe@.last()) && final(self).shoe@
                == old(self).shoe@.drop_last(),
            final(self).hand == old(self).hand,
            final(self).decks_per_shoe == old(self).decks_per_shoe,
    {
        self.shoe.draw_one()
    }

    /// Draws a card, rebuilding and reshuffling an exhausted shoe first.
    pub fn draw(&mut self) -> (r: Card)
        requires
            old(self).wf(),
        ensures
            final(self).hand == old(self).hand,
            final(self).decks_per_shoe == old(self).decks_per_shoe,
            draws(old(self).shoe@, final(self).shoe@, r, old(self).decks_per_shoe as nat),
    {
        self.shoe.draw_or_rebuild(self.decks_per_shoe)
    }

    /// Deals one card to the dealer's own hand.
    pub fn dealer_card(&mut self)
        requires
            old(self).wf(),
            old(self).hand.cards@.len() < MAX_HAND_CARDS,
        ensures
            final(self).wf(),
            final(self).decks_per_shoe == old(self).decks_per_shoe,
            final(self).hand.state == old(self).hand.state,
            final(self).hand.cards@.len() == old(self).hand.cards@.len() + 1,
            final(self).hand.cards@.drop_last() == old(self).hand.cards@,
            old(self).shoe@.len() > 0 ==> final(self).hand.cards@.last() == old(self).shoe@.last()
                && final(self).shoe@ == old(self).shoe@.drop_last(),
    {
        let c = self.draw();
        self.hand.add(c);
        assert(self.hand.cards@.drop_last() =~= old(self).hand.cards@);
    }

    /// Deals one card to a player's hand.
    pub fn deal_card(&mut self, player: &mut Player)
        requires
            old(self).wf(),
            old(player).hand.cards@.len() < MAX_HAND_CARDS,
        ensures
            final(self).wf(),
            final(self).decks_per_shoe == old(self).decks_per_shoe,
            final(self).hand == old(self).hand,
            final(player).hand.cards@.len() == old(player).hand.cards@.len() + 1,
            final(player).hand.cards@.drop_last() == old(player).hand.cards@,
            old(self).shoe@.len() > 0 ==> final(player).hand.cards@.last() == old(self).shoe@.last()
                && final(self).shoe@ == old(self).shoe@.drop_last(),
            final(player).hand.state == old(player).hand.state,
            final(player).name == old(player).name,
            final(player).human == old(player).human,
            final(player).bankroll == old(player).bankroll,
            final(player).wager == old(player).wager,
            final(player).active == old(player).active,
    {
        let c = self.draw();
        player.take(c);
        assert(player.hand.cards@.drop_last() =~= old(player).hand.cards@);
    }

    /// Replaces the shoe with a freshly built, unshuffled one.
    pub fn create_decks(&mut self)
        requires
            old(self).wf(),
        ensures
            final(self).shoe@ == full_shoe(old(self).decks_per_shoe as nat),
            final(self).hand == old(self).hand,
            final(self).decks_per_shoe == old(self).decks_per_shoe,
    {
        let shoe = Shoe::build(self.decks_per_shoe);
        self.shoe = shoe.unwrap();
    }

    /// Sets up the dealer's decks: the same as `create_decks`.
    pub fn setup_decks(&mut self)
        requires
            old(self).wf(),
        ensures
            final(self).shoe@ == full_shoe(old(self).decks_per_shoe as nat),
            final(self).hand == old(self).hand,
            final(self).decks_per_shoe == old(self).decks_per_shoe,
    {
        self.create_decks();
    }

    /// A fresh deck of 52 cards.
    pub fn create_deck(&self) -> (r: Deck)
        ensures
            r.cards@ == standard_deck(),
    {
        Deck::standard()
    }

    /// Replaces the shoe with a freshly built one and shuffles it.
    pub fn shuffle_decks(&mut self)
        requires
            old(self).wf(),
        ensures
            final(self).shoe@.to_multiset() == full_shoe(
                old(self).decks_per_shoe as nat,
            ).to_multiset(),
            final(self).shoe@.len() == 52 * old(self).decks_per_shoe,
            final(self).hand == old(self).hand,
            final(self).decks_per_shoe == old(self).decks_per_shoe,
    {
        self.create_decks();
        self.shoe.shuffle();
    }
}

} // verus!
