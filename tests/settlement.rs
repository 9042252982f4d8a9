use blackjack::card::{Card, Face, Suit};
use blackjack::dealer::Dealer;
use blackjack::deck::Shoe;
use blackjack::hand::HandState;
use blackjack::player::{Action, Player, player_name};

fn card(f: Face) -> Card {
    Card::new(Suit::Spades, f)
}

fn player_with(faces: &[Face], bankroll: i64, wager: i64) -> Player {
    let mut p = Player::new(String::from("P"));
    p.bankroll = bankroll;
    p.set_wager(wager);
    for f in faces {
        p.take(card(*f));
    }
    p
}

fn dealer_with(faces: &[Face]) -> Dealer {
    let mut d = Dealer::new();
    for f in faces {
        d.hand.add(card(*f));
    }
    d
}

#[test]
fn player_bust_loses_even_when_dealer_busts() {
    let mut d = dealer_with(&[Face::King, Face::Six, Face::Nine]);
    let mut p = player_with(&[Face::King, Face::Queen, Face::Two], 100, 10);
    d.hand_status(&mut p);
    assert_eq!(p.hand.state, HandState::Lose);
    d.payout(&mut p);
    assert_eq!(p.bankroll, 90);
    assert_eq!(p.wager, 0);
}

#[test]
fn dealer_bust_pays_a_standing_player() {
    let mut d = dealer_with(&[Face::King, Face::Six, Face::Nine]);
    let mut p = player_with(&[Face::Ten, Face::Two], 100, 10);
    d.hand_status(&mut p);
    assert_eq!(p.hand.state, HandState::Win);
    d.payout(&mut p);
    assert_eq!(p.bankroll, 110);
}

#[test]
fn natural_beats_three_card_21_with_triple_payout() {
    let mut d = dealer_with(&[Face::Seven, Face::Seven, Face::Seven]);
    let mut p = player_with(&[Face::Ace, Face::King], 100, 20);
    d.hand_status(&mut p);
    assert_eq!(p.hand.state, HandState::Blackjack);
    d.payout(&mut p);
    assert_eq!(p.bankroll, 140);
    assert_eq!(p.hand.state, HandState::Idle);
    assert_eq!(d.hand.state, HandState::Idle);
}

#[test]
fn equal_totals_push_and_return_the_wager() {
    let mut d = dealer_with(&[Face::King, Face::Nine]);
    let mut p = player_with(&[Face::Ten, Face::Five, Face::Four], 100, 30);
    assert_eq!(p.bankroll, 70);
    d.hand_status(&mut p);
    assert_eq!(p.hand.state, HandState::Push);
    d.payout(&mut p);
    assert_eq!(p.bankroll, 100);
}

#[test]
fn dealer_natural_beats_a_player_21() {
    let mut d = dealer_with(&[Face::Ace, Face::Queen]);
    let mut p = player_with(&[Face::Seven, Face::Seven, Face::Seven], 100, 10);
    d.hand_status(&mut p);
    assert_eq!(p.hand.state, HandState::Lose);
}

#[test]
fn both_naturals_push() {
    let mut d = dealer_with(&[Face::Ace, Face::Queen]);
    let mut p = player_with(&[Face::Ace, Face::Jack], 100, 10);
    d.hand_status(&mut p);
    assert_eq!(p.hand.state, HandState::Push);
}

#[test]
fn lower_total_loses() {
    let mut d = dealer_with(&[Face::King, Face::Nine]);
    let mut p = player_with(&[Face::King, Face::Eight], 100, 10);
    d.hand_status(&mut p);
    assert_eq!(p.hand.state, HandState::Lose);
    d.payout(&mut p);
    assert_eq!(p.bankroll, 90);
}

#[test]
fn idle_hand_pays_nothing() {
    let mut d = Dealer::new();
    let mut p = player_with(&[], 50, 5);
    d.payout(&mut p);
    assert_eq!(p.bankroll, 45);
    assert_eq!(p.wager, 0);
}

#[test]
fn credit_saturates() {
    let mut p = Player::new(String::from("Rich"));
    p.bankroll = i64::MAX - 1;
    p.set_pay(10);
    assert_eq!(p.bankroll, i64::MAX);
}

#[test]
fn dealer_hits_below_17_and_stands() {
    // top of the shoe is the end of the vector
    let shoe = Shoe::from_cards(vec![card(Face::Ten), card(Face::Five)]);
    let mut d = Dealer::with_shoe(shoe, 1).unwrap();
    d.hand.add(card(Face::Nine));
    d.hand.add(card(Face::Seven));
    d.dealer_turn();
    assert_eq!(d.hand.count(), 3);
    assert_eq!(d.hand.get_total_single(), 21);
    assert_eq!(d.hand.state, HandState::Idle);
    assert_eq!(d.shoe.len(), 1);
}

#[test]
fn dealer_busts_and_loses() {
    let shoe = Shoe::from_cards(vec![card(Face::King)]);
    let mut d = Dealer::with_shoe(shoe, 1).unwrap();
    d.hand.add(card(Face::Ten));
    d.hand.add(card(Face::Six));
    d.dealer_turn();
    assert_eq!(d.hand.get_total_single(), 26);
    assert_eq!(d.hand.state, HandState::Lose);
}

#[test]
fn dealer_natural_is_blackjack() {
    let mut d = dealer_with(&[Face::Ace, Face::King]);
    d.dealer_turn();
    assert_eq!(d.hand.count(), 2);
    assert_eq!(d.hand.state, HandState::Blackjack);
}

#[test]
fn dealer_stands_on_soft_17() {
    let mut d = dealer_with(&[Face::Ace, Face::Six]);
    d.dealer_turn();
    assert_eq!(d.hand.count(), 2);
    assert_eq!(d.hand.state, HandState::Idle);
}

#[test]
fn automated_player_turn_follows_the_threshold() {
    let shoe = Shoe::from_cards(vec![card(Face::Three), card(Face::Two)]);
    let mut d = Dealer::with_shoe(shoe, 1).unwrap();
    let mut p = player_with(&[Face::Ten, Face::Four], 100, 10);
    p.set_human(false);
    assert_eq!(p.computer_action(), Action::Hit);
    d.player_turn(&mut p);
    // 14 + 2 = 16, hit again: 16 + 3 = 19
    assert_eq!(p.hand.count(), 4);
    assert_eq!(p.hand.get_total_single(), 19);
    assert_eq!(p.computer_action(), Action::Stand);
    assert_eq!(p.hand.state, HandState::Idle);
}

#[test]
fn automated_player_bust_loses() {
    let shoe = Shoe::from_cards(vec![card(Face::King)]);
    let mut d = Dealer::with_shoe(shoe, 1).unwrap();
    let mut p = player_with(&[Face::Ten, Face::Six], 100, 10);
    d.player_turn(&mut p);
    assert_eq!(p.hand.state, HandState::Lose);
}

#[test]
fn automated_wager_stays_in_range() {
    for bankroll in [1i64, 3, 7, 100, 150, 2000, 100_000] {
        for _ in 0..50 {
            let mut p = Player::new(String::from("Bot"));
            p.bankroll = bankroll;
            p.computer_wager();
            assert!(p.wager > 0 && p.wager <= bankroll && p.wager <= 100);
            assert_eq!(p.bankroll, bankroll - p.wager);
        }
    }
}

#[test]
fn automated_wager_for_a_draw() {
    let mut p = Player::new(String::from("Bot"));
    p.computer_wager_with(7);
    assert_eq!(p.wager, 7);
    assert_eq!(p.bankroll, 93);
    let mut poor = Player::new(String::from("Bot"));
    poor.bankroll = 3;
    poor.computer_wager_with(9);
    assert_eq!(poor.wager, 3);
    assert_eq!(poor.bankroll, 0);
    let mut rich = Player::new(String::from("Bot"));
    rich.bankroll = 10_000;
    rich.computer_wager_with(400);
    assert_eq!(rich.wager, 100);
    assert_eq!(rich.bankroll, 9_900);
}

#[test]
fn automated_wagers_vary() {
    let mut seen = std::collections::HashSet::new();
    for _ in 0..200 {
        let mut p = Player::new(String::from("Bot"));
        p.bankroll = 1000;
        p.computer_wager();
        seen.insert(p.wager);
    }
    assert!(seen.len() > 1);
}

#[test]
fn player_bookkeeping() {
    let mut p = Player::new(String::from("Ann"));
    assert_eq!(p.name, "Ann");
    assert!(p.active && p.human);
    assert_eq!(p.bankroll, 100);
    p.set_wager(25);
    assert_eq!((p.bankroll, p.wager), (75, 25));
    p.set_pay(50);
    assert_eq!(p.bankroll, 125);
    p.clear_wager();
    assert_eq!(p.wager, 0);
    p.set_human(false);
    assert!(!p.human);
    let mut d = Dealer::new();
    d.remove_player(&mut p);
    assert!(!p.active);
}

#[test]
fn numbered_names() {
    assert_eq!(player_name(1), "Player 1");
    assert_eq!(player_name(10), "Player 10");
    assert_eq!(player_name(255), "Player 255");
    assert_eq!(player_name(0), "Player 0");
}
