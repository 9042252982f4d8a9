//! Decks and the shoe: building a multi-deck shoe, shuffling it, drawing from it.
use vstd::multiset::Multiset;
use vstd::prelude::*;

use crate::card::{Card, card_at, card_index, lemma_card_index_bijection};
use crate::random::random_in;

verus! {

broadcast use vstd::seq_lib::group_to_multiset_ensures;

/// The 52 cards of a fresh deck, in deck order.
pub open spec fn standard_deck() -> Seq<Card> {
    Seq::new(52, |i: int| card_at(i))
}

/// A freshly built shoe of `d` decks: `d` fresh decks one after the other.
pub open spec fn full_shoe(d: nat) -> Seq<Card> {
    Seq::new(52 * d, |i: int| card_at(i % 52))
}

/// `picks` can drive a shuffle of `n` cards: the `k`-th pick indexes the
/// `n - k` cards not yet placed.
pub open spec fn valid_picks(n: nat, picks: Seq<usize>) -> bool {
    &&& picks.len() == n
    &&& forall|k: int| 0 <= k < n ==> #[trigger] picks[k] < n - k
}

/// The sequence a shuffle builds from `s`: each pick moves the indexed card of
/// what is left of `s` to the end of the output.
pub open spec fn shuffled(s: Seq<Card>, picks: Seq<usize>) -> Seq<Card>
    decreases picks.len(),
{
    if picks.len() == 0 {
        Seq::empty()
    } else {
        seq![s[picks[0] as int]] + shuffled(s.remove(picks[0] as int), picks.drop_first())
    }
}

/// The cards that `k` draws take from the top of `s`, in the order drawn.
pub open spec fn top_cards(s: Seq<Card>, k: nat) -> Seq<Card> {
    Seq::new(k, |i: int| s[s.len() - 1 - i])
}

/// A shuffle driven by valid picks is a permutation.
pub proof fn lemma_shuffled_permutes(s: Seq<Card>, picks: Seq<usize>)
    requires
        valid_picks(s.len(), picks),
    ensures
        shuffled(s, picks).to_multiset() == s.to_multiset(),
        shuffled(s, picks).len() == s.len(),
    decreases picks.len(),
{
    if picks.len() == 0 {
        assert(s =~= Seq::<Card>::empty());
    } else {
        let p = picks[0] as int;
        let rest = s.remove(p);
        let tail = picks.drop_first();
        assert(valid_picks(rest.len(), tail)) by {
            assert forall|k: int| 0 <= k < rest.len() implies #[trigger] tail[k] < rest.len() - k by {
                assert(tail[k] == picks[k + 1]);
            }
        }
        lemma_shuffled_permutes(rest, tail);
        vstd::seq_lib::lemma_multiset_commutative(seq![s[p]], shuffled(rest, tail));
        assert(seq![s[p]].to_multiset() =~= Multiset::empty().insert(s[p])) by {
            assert(Seq::<Card>::empty().push(s[p]) =~= seq![s[p]]);
        }
        assert(s.to_multiset() =~= rest.to_multiset().insert(s[p]));
    }
}

/// Occurrences of a card among the first `n` cards of a freshly built shoe.
proof fn lemma_prefix_count(n: nat, c: Card)
    ensures
        Seq::new(n, |i: int| card_at(i % 52)).to_multiset().count(c) == n / 52 + (if card_index(c)
            < n % 52 {
            1nat
        } else {
            0nat
        }),
    decreases n,
{
    let f = |i: int| card_at(i % 52);
    if n == 0 {
        assert(Seq::new(0, f) =~= Seq::<Card>::empty());
    } else {
        let m = (n - 1) as nat;
        lemma_prefix_count(m, c);
        assert(Seq::new(n, f) =~= Seq::new(m, f).push(card_at(m as int % 52)));
        lemma_card_index_bijection(c, m as int % 52);
        assert(card_at(m as int % 52) == c <==> card_index(c) == m % 52);
    }
}

/// Shoe integrity: a freshly built shoe of `d` decks holds every (suit, face)
/// pair exactly `d` times, and `52 * d` cards in all.
pub proof fn lemma_full_shoe_counts(d: nat, c: Card)
    ensures
        full_shoe(d).to_multiset().count(c) == d,
        full_shoe(d).len() == 52 * d,
{
    lemma_prefix_count(52 * d, c);
    lemma_card_index_bijection(c, 0);
    assert(full_shoe(d) =~= Seq::new(52 * d, |i: int| card_at(i % 52)));
}

/// One draw with rebuild: a non-empty shoe gives up its top card; an empty
/// one is replaced by a fresh shuffled shoe of `d` decks, whose top card is
/// taken.
pub open spec fn draws(before: Seq<Card>, after: Seq<Card>, card: Card, d: nat) -> bool {
    if before.len() > 0 {
        card == before.last() && after == before.drop_last()
    } else {
        after.push(card).to_multiset() == full_shoe(d).to_multiset() && after.len() == 52 * d - 1
    }
}

/// Shoe integrity: building a shoe of `d` decks and shuffling it with any
/// valid picks leaves every (suit, face) pair exactly `d` times among
/// `52 * d` cards.
pub proof fn shoe_integrity(d: nat, picks: Seq<usize>, c: Card)
    requires
        valid_picks(52 * d, picks),
    ensures
        shuffled(full_shoe(d), picks).to_multiset().count(c) == d,
        shuffled(full_shoe(d), picks).len() == 52 * d,
{
    lemma_full_shoe_counts(d, c);
    lemma_shuffled_permutes(full_shoe(d), picks);
}

/// Draw with reshuffle: from a shoe of one card, a draw returns that card and
/// empties the shoe; the draw after it rebuilds and reshuffles, and returns a
/// card of the fresh full shoe, which keeps the rest.
pub proof fn draw_with_reshuffle(
    s0: Seq<Card>,
    s1: Seq<Card>,
    s2: Seq<Card>,
    c1: Card,
    c2: Card,
    d: nat,
)
    requires
        d >= 1,
        s0.len() == 1,
        draws(s0, s1, c1, d),
        draws(s1, s2, c2, d),
    ensures
        c1 == s0[0],
        s1.len() == 0,
        full_shoe(d).to_multiset().count(c2) == d,
        s2.push(c2).to_multiset() == full_shoe(d).to_multiset(),
        s2.len() == 52 * d - 1,
{
    lemma_full_shoe_counts(d, c2);
}

/// A single deck of cards.
pub struct Deck {
    pub cards: Vec<Card>,
}

impl Deck {
    /// An empty deck.
    pub fn new() -> (r: Deck)
        ensures
            r.cards@ == Seq::<Card>::empty(),
    {
        Deck { cards: Vec::new() }
    }

    /// A fresh deck: the 52 (suit, face) pairs in deck order.
    pub fn standard() -> (r: Deck)
        ensures
            r.cards@ == standard_deck(),
    {
        let mut cards: Vec<Card> = Vec::new();
        let mut i: usize = 0;
        while i < 52
            invariant
                i <= 52,
                cards@ == Seq::new(i as nat, |j: int| card_at(j)),
            decreases 52 - i,
        {
            cards.push(Card::at_position(i));
            i = i + 1;
            assert(cards@ =~= Seq::new(i as nat, |j: int| card_at(j)));
        }
        assert(cards@ =~= standard_deck());
        Deck { cards }
    }
}

/// The dealer's card source: a stack of cards, drawn from the end.
pub struct Shoe {
    cards: Vec<Card>,
}

impl View for Shoe {
    type V = Seq<Card>;

    closed spec fn view(&self) -> Seq<Card> {
        self.cards@
    }
}

impl Shoe {
    /// An empty shoe.
    pub fn new() -> (r: Shoe)
        ensures
            r@ == Seq::<Card>::empty(),
    {
        Shoe { cards: Vec::new() }
    }

    /// A shoe holding exactly `cards`; the last card is drawn first.
    pub fn from_cards(cards: Vec<Card>) -> (r: Shoe)
        ensures
            r@ == cards@,
    {
        Shoe { cards }
    }

    /// Builds an unshuffled shoe of `decks_per_shoe` fresh decks; a shoe of no
    /// decks is refused.
    pub fn build(decks_per_shoe: u8) -> (r: Option<Shoe>)
        ensures
            r is None <==> decks_per_shoe == 0,
            r matches Some(s) ==> s@ == full_shoe(decks_per_shoe as nat),
    {
        if decks_per_shoe == 0 {
            return None;
        }
        let deck = Deck::standard();
        let mut cards: Vec<Card> = Vec::new();
        let mut k: u8 = 0;
        while k < decks_per_shoe
            invariant
                k <= decks_per_shoe,
                deck.cards@ == standard_deck(),
                cards@ == full_shoe(k as nat),
            decreases decks_per_shoe - k,
        {
            let mut j: usize = 0;
            while j < 52
                invariant
                    k < decks_per_shoe,
                    j <= 52,
                    deck.cards@ == standard_deck(),
                    cards@ == Seq::new((52 * k + j) as nat, |i: int| card_at(i % 52)),
                decreases 52 - j,
            {
                cards.push(deck.cards[j]);
                assert((52 * k + j) % 52 == j as int);
                j = j + 1;
                assert(cards@ =~= Seq::new((52 * k + j) as nat, |i: int| card_at(i % 52)));
            }
            k = k + 1;
            assert(cards@ =~= full_shoe(k as nat));
        }
        Some(Shoe { cards })
    }

    pub fn len(&self) -> (r: usize)
        ensures
            r == self@.len(),
    {
        self.cards.len()
    }

    pub fn is_empty(&self) -> (r: bool)
        ensures
            r == (self@.len() == 0),
    {
        self.cards.len() == 0
    }

    /// Removes and returns the top card; an empty shoe is left as it is.
    pub fn draw_one(&mut self) -> (r: Option<Card>)
        ensures
            old(self)@.len() == 0 ==> r is None && final(self)@ == old(self)@,
            old(self)@.len() > 0 ==> r == Some(old(self)@.last()) && final(self)@
                == old(self)@.drop_last(),
    {
        self.cards.pop()
    }

    /// Draws the top card; an empty shoe is first replaced by a freshly built
    /// and shuffled shoe of `decks_per_shoe` decks, so a card always comes.
    pub fn draw_or_rebuild(&mut self, decks_per_shoe: u8) -> (r: Card)
        requires
            decks_per_shoe >= 1,
        ensures
            draws(old(self)@, final(self)@, r, decks_per_shoe as nat),
    {
        match self.draw_one() {
            Some(c) => c,
            None => {
                let fresh = Shoe::build(decks_per_shoe);
                let mut shoe = fresh.unwrap();
                shoe.shuffle();
                let ghost full = shoe@;
                let c = shoe.draw_one().unwrap();
                assert(shoe@.push(c) =~= full);
                *self = shoe;
                c
            },
        }
    }

    /// Rearranges the cards as `picks` directs: pick `k` chooses, among the
    /// cards not yet placed, the one that goes to position `k`.
    pub fn shuffle_with(&mut self, picks: &Vec<usize>)
        requires
            valid_picks(old(self)@.len(), picks@),
        ensures
            final(self)@ == shuffled(old(self)@, picks@),
            final(self)@.to_multiset() == old(self)@.to_multiset(),
            final(self)@.len() == old(self)@.len(),
    {
        proof {
            lemma_shuffled_permutes(self@, picks@);
        }
        let ghost whole = self@;
        let n = self.cards.len();
        let mut out: Vec<Card> = Vec::new();
        let mut k: usize = 0;
        assert(picks@.skip(0) =~= picks@);
        assert(out@ + shuffled(self.cards@, picks@) =~= shuffled(whole, picks@));
        while k < n
            invariant
                n == whole.len(),
                k <= n,
                valid_picks(n as nat, picks@),
                self.cards@.len() == n - k,
                out@ + shuffled(self.cards@, picks@.skip(k as int)) == shuffled(whole, picks@),
            decreases n - k,
        {
            let p = picks[k];
            assert(picks@.skip(k as int)[0] == p);
            assert(picks@.skip(k as int).drop_first() =~= picks@.skip(k + 1));
            let c = self.cards.remove(p);
            out.push(c);
            assert(out@ + shuffled(self.cards@, picks@.skip(k + 1)) =~= shuffled(whole, picks@));
            k = k + 1;
        }
        assert(shuffled(self.cards@, picks@.skip(k as int)) =~= Seq::<Card>::empty());
        assert(out@ =~= shuffled(whole, picks@));
        self.cards = out;
    }

    /// Shuffles the shoe uniformly: every pick is a uniformly random index
    /// among the cards not yet placed.
    pub fn shuffle(&mut self)
        ensures
            exists|picks: Seq<usize>|
                valid_picks(old(self)@.len(), picks) && final(self)@ == shuffled(old(self)@, picks),
            final(self)@.to_multiset() == old(self)@.to_multiset(),
            final(self)@.len() == old(self)@.len(),
    {
        let n = self.cards.len();
        let mut picks: Vec<usize> = Vec::new();
        let mut k: usize = 0;
        while k < n
            invariant
                k <= n,
                picks@.len() == k,
                forall|i: int| 0 <= i < k ==> #[trigger] picks@[i] < n - i,
            decreases n - k,
        {
            let r = random_in(0, (n - k) as u64);
            picks.push(r as usize);
            k = k + 1;
        }
        let ghost drawn = picks@;
        self.shuffle_with(&picks);
        assert(valid_picks(old(self)@.len(), drawn));
    }
}

} // verus!
