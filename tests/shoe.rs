use blackjack::card::{Card, Face, Suit};
use blackjack::dealer::Dealer;
use blackjack::deck::{Deck, Shoe};

fn all_cards() -> Vec<Card> {
    let suits = [Suit::Hearts, Suit::Diamonds, Suit::Spades, Suit::Clubs];
    let faces = [
        Face::Ace,
        Face::Two,
        Face::Three,
        Face::Four,
        Face::Five,
        Face::Six,
        Face::Seven,
        Face::Eight,
        Face::Nine,
        Face::Ten,
        Face::Jack,
        Face::Queen,
        Face::King,
    ];
    let mut v = Vec::new();
    for s in suits {
        for f in faces {
            v.push(Card::new(s, f));
        }
    }
    v
}

fn drain(shoe: &mut Shoe) -> Vec<Card> {
    let mut out = Vec::new();
    while let Some(c) = shoe.draw_one() {
        out.push(c);
    }
    out
}

fn count(cards: &[Card], c: Card) -> usize {
    cards.iter().filter(|x| **x == c).count()
}

#[test]
fn standard_deck_has_each_pair_once() {
    let deck = Deck::standard();
    assert_eq!(deck.cards.len(), 52);
    for c in all_cards() {
        assert_eq!(count(&deck.cards, c), 1);
    }
    assert!(Deck::new().cards.is_empty());
}

#[test]
fn build_then_shuffle_keeps_d_copies_of_each_pair() {
    for d in [1u8, 2, 6] {
        let mut shoe = Shoe::build(d).unwrap();
        assert_eq!(shoe.len(), 52 * d as usize);
        shoe.shuffle();
        assert_eq!(shoe.len(), 52 * d as usize);
        let cards = drain(&mut shoe);
        for c in all_cards() {
            assert_eq!(count(&cards, c), d as usize);
        }
    }
}

#[test]
fn build_refuses_zero_decks() {
    assert!(Shoe::build(0).is_none());
    assert!(Dealer::with_shoe(Shoe::new(), 0).is_none());
}

#[test]
fn shuffle_with_picks_moves_the_indexed_card() {
    let a = Card::new(Suit::Hearts, Face::Ace);
    let b = Card::new(Suit::Hearts, Face::Two);
    let c = Card::new(Suit::Hearts, Face::Three);
    let mut shoe = Shoe::from_cards(vec![a, b, c]);
    // take index 2 (c), then index 0 of [a, b] (a), then b
    shoe.shuffle_with(&vec![2, 0, 0]);
    assert_eq!(drain(&mut shoe), vec![b, a, c]);
}

#[test]
fn shuffle_changes_the_order() {
    let mut changed = false;
    for _ in 0..5 {
        let mut shoe = Shoe::build(1).unwrap();
        shoe.shuffle();
        let mut fresh = Shoe::build(1).unwrap();
        if drain(&mut shoe) != drain(&mut fresh) {
            changed = true;
        }
    }
    assert!(changed);
}

#[test]
fn shuffle_is_close_to_uniform() {
    let cards = vec![
        Card::new(Suit::Clubs, Face::Two),
        Card::new(Suit::Clubs, Face::Three),
        Card::new(Suit::Clubs, Face::Four),
        Card::new(Suit::Clubs, Face::Five),
    ];
    let trials = 8000usize;
    let mut seen = [[0usize; 4]; 4];
    for _ in 0..trials {
        let mut shoe = Shoe::from_cards(cards.clone());
        shoe.shuffle();
        let out = drain(&mut shoe);
        for (pos, c) in out.iter().enumerate() {
            let k = cards.iter().position(|x| x == c).unwrap();
            seen[k][pos] += 1;
        }
    }
    let expected = trials as f64 / 4.0;
    let mut chi2 = 0.0f64;
    for row in seen.iter() {
        for &n in row.iter() {
            let diff = n as f64 - expected;
            chi2 += diff * diff / expected;
        }
    }
    // 9 degrees of freedom; 40 lies far beyond the 0.9999 quantile (about 33.7)
    assert!(chi2 < 40.0, "chi-square {}", chi2);
}

#[test]
fn draw_from_one_card_then_rebuild() {
    let last = Card::new(Suit::Spades, Face::Queen);
    let mut dealer = Dealer::with_shoe(Shoe::from_cards(vec![last]), 1).unwrap();
    assert_eq!(dealer.draw(), last);
    assert!(dealer.shoe.is_empty());
    assert_eq!(dealer.draw_card(), None);
    let _fresh = dealer.draw();
    assert_eq!(dealer.shoe.len(), 51);
}

#[test]
fn draw_one_takes_the_top() {
    let a = Card::new(Suit::Diamonds, Face::Nine);
    let b = Card::new(Suit::Diamonds, Face::Ten);
    let mut shoe = Shoe::from_cards(vec![a, b]);
    assert_eq!(shoe.draw_one(), Some(b));
    assert_eq!(shoe.draw_one(), Some(a));
    assert_eq!(shoe.draw_one(), None);
    assert!(shoe.is_empty());
}

#[test]
fn dealer_rebuilds_full_shoes() {
    let mut dealer = Dealer::new();
    assert_eq!(dealer.decks_per_shoe, 6);
    dealer.create_decks();
    assert_eq!(dealer.shoe.len(), 312);
    dealer.setup_decks();
    assert_eq!(dealer.shoe.len(), 312);
    dealer.shuffle_decks();
    assert_eq!(dealer.shoe.len(), 312);
    assert_eq!(dealer.create_deck().cards.len(), 52);
}
