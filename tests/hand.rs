use blackjack::card::{Card, Face, Suit};
use blackjack::hand::{Hand, HandState};

fn hand_of(faces: &[Face]) -> Hand {
    let mut h = Hand::new();
    for f in faces {
        h.add(Card::new(Suit::Hearts, *f));
    }
    h
}

#[test]
fn single_ace_counts_eleven() {
    let h = hand_of(&[Face::Ace]);
    assert_eq!(h.get_total(), (1, 11));
    assert_eq!(h.get_total_single(), 11);
}

#[test]
fn two_aces_fall_back_to_the_hard_total() {
    let h = hand_of(&[Face::Ace, Face::Ace]);
    assert_eq!(h.get_total(), (2, 22));
    assert_eq!(h.get_total_single(), 2);
    assert!(!h.is_bust());
}

#[test]
fn ace_king_is_a_natural() {
    let h = hand_of(&[Face::Ace, Face::King]);
    assert_eq!(h.get_total_single(), 21);
    assert!(h.is_blackjack());
}

#[test]
fn three_sevens_make_21_but_no_natural() {
    let h = hand_of(&[Face::Seven, Face::Seven, Face::Seven]);
    assert_eq!(h.get_total_single(), 21);
    assert!(!h.is_blackjack());
}

#[test]
fn king_queen_five_busts() {
    let h = hand_of(&[Face::King, Face::Queen, Face::Five]);
    assert_eq!(h.get_total(), (25, 25));
    assert!(h.is_bust());
}

#[test]
fn two_aces_and_nine_use_the_hard_total() {
    let h = hand_of(&[Face::Ace, Face::Ace, Face::Nine]);
    assert_eq!(h.get_total(), (11, 31));
    assert_eq!(h.get_total_single(), 11);
}

#[test]
fn soft_hand_below_22() {
    let h = hand_of(&[Face::Ace, Face::Six]);
    assert_eq!(h.get_total(), (7, 17));
    assert_eq!(h.get_total_single(), 17);
}

#[test]
fn empty_hand_and_clear() {
    let mut h = hand_of(&[Face::Two, Face::Three]);
    assert_eq!(h.count(), 2);
    h.state = HandState::Win;
    h.clear();
    assert_eq!(h.count(), 0);
    assert_eq!(h.state, HandState::Win);
    assert_eq!(h.get_total(), (0, 0));
    assert_eq!(Hand::new().state, HandState::Idle);
}

#[test]
fn card_values() {
    assert_eq!(Card::new(Suit::Clubs, Face::Ace).value(), 1);
    assert_eq!(Card::new(Suit::Clubs, Face::Nine).value(), 9);
    assert_eq!(Card::new(Suit::Clubs, Face::Jack).value(), 10);
    assert!(Card::new(Suit::Clubs, Face::Ace).is_ace());
    assert_eq!(Card::at_position(0), Card::new(Suit::Hearts, Face::Ace));
    assert_eq!(Card::at_position(51), Card::new(Suit::Clubs, Face::King));
}
