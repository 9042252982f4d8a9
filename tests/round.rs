use blackjack::card::{Card, Face, Suit};
use blackjack::dealer::Dealer;
use blackjack::deck::Shoe;
use blackjack::game::{Game, GameState, go};
use blackjack::hand::HandState;
use blackjack::player::{Action, Player};

fn card(f: Face) -> Card {
    Card::new(Suit::Clubs, f)
}

/// A game whose shoe yields `draws` in that order, at the start of a round.
fn stacked_game(draws: &[Face], floor: i64) -> Game {
    let mut cards: Vec<Card> = draws.iter().map(|f| card(*f)).collect();
    cards.reverse();
    let dealer = Dealer::with_shoe(Shoe::from_cards(cards), 1).unwrap();
    let mut game = Game::with_dealer(dealer, floor);
    game.state = GameState::RoundStart;
    game
}

#[test]
fn end_to_end_natural_against_three_card_21() {
    let mut game = stacked_game(&[Face::Ace, Face::Nine, Face::King, Face::Seven, Face::Five], 5);
    game.add_player(Player::new(String::from("Player 1")));
    game.round_start();
    assert_eq!(game.state, GameState::PlaceBets);
    assert_eq!(game.round_number, 1);
    game.place_bets(&vec![20]);
    assert_eq!(game.players[0].bankroll, 80);
    assert_eq!(game.state, GameState::DealHands);
    game.deal_hands();
    assert_eq!(game.players[0].hand.cards, vec![card(Face::Ace), card(Face::King)]);
    assert_eq!(game.dealer.hand.cards, vec![card(Face::Nine), card(Face::Seven)]);
    assert_eq!(game.players_turn(), None);
    assert_eq!(game.players[0].hand.state, HandState::Blackjack);
    assert_eq!(game.state, GameState::DealerTurn);
    game.dealer_turn();
    assert_eq!(game.dealer.hand.count(), 3);
    assert_eq!(game.dealer.hand.get_total_single(), 21);
    assert_eq!(game.players[0].hand.state, HandState::Blackjack);
    game.payout();
    assert_eq!(game.players[0].bankroll, 140);
    assert_eq!(game.players[0].wager, 0);
    game.round_end();
    assert_eq!(game.state, GameState::RoundStart);
    assert!(game.players[0].active);
    assert_eq!(game.players[0].hand.count(), 0);
    assert_eq!(game.dealer.hand.count(), 0);
}

#[test]
fn human_decisions_drive_the_turn() {
    // player: Ten, Two; dealer: Ten, Seven; player hits a Five, stands on 17
    let mut game = stacked_game(
        &[Face::Ten, Face::Ten, Face::Two, Face::Seven, Face::Five],
        5,
    );
    game.add_player(Player::new(String::from("Player 1")));
    game.round_start();
    game.place_bets(&vec![10]);
    game.deal_hands();
    assert_eq!(game.players_turn(), Some(0));
    game.player_decision(Action::Hit);
    assert_eq!(game.players[0].hand.count(), 3);
    assert_eq!(game.players_turn(), Some(0));
    game.player_decision(Action::Stand);
    assert_eq!(game.players_turn(), None);
    game.dealer_turn();
    assert_eq!(game.dealer.hand.count(), 2);
    assert_eq!(game.players[0].hand.state, HandState::Push);
    game.payout();
    assert_eq!(game.players[0].bankroll, 100);
}

#[test]
fn deal_order_alternates_players_and_dealer() {
    let mut game = stacked_game(
        &[Face::Two, Face::Three, Face::Four, Face::Five, Face::Six, Face::Seven],
        5,
    );
    game.add_player(Player::new(String::from("A")));
    game.add_player(Player::new(String::from("B")));
    game.round_start();
    game.place_bets(&vec![10, 10]);
    game.deal_hands();
    assert_eq!(game.players[0].hand.cards, vec![card(Face::Two), card(Face::Five)]);
    assert_eq!(game.players[1].hand.cards, vec![card(Face::Three), card(Face::Six)]);
    assert_eq!(game.dealer.hand.cards, vec![card(Face::Four), card(Face::Seven)]);
    assert_eq!(game.state, GameState::PlayersTurn);
}

#[test]
fn broke_player_is_eliminated_and_game_ends() {
    // player: Ten, Nine (19); dealer: Ten, King (20)
    let mut game = stacked_game(&[Face::Ten, Face::Ten, Face::Nine, Face::King], 5);
    let mut p = Player::new(String::from("Player 1"));
    p.bankroll = 15;
    game.add_player(p);
    game.round_start();
    game.place_bets(&vec![10]);
    game.deal_hands();
    assert_eq!(game.players_turn(), Some(0));
    game.player_decision(Action::Stand);
    assert_eq!(game.players_turn(), None);
    game.dealer_turn();
    assert_eq!(game.players[0].hand.state, HandState::Lose);
    game.payout();
    assert_eq!(game.players[0].bankroll, 5);
    game.round_end();
    assert!(!game.players[0].active);
    assert_eq!(game.state, GameState::GameOver);
}

#[test]
fn eliminated_player_gets_no_more_cards() {
    let mut game = stacked_game(&[Face::Two, Face::Three, Face::Four, Face::Five], 0);
    let mut gone = Player::new(String::from("Gone"));
    gone.active = false;
    game.add_player(gone);
    game.add_player(Player::new(String::from("Here")));
    game.round_start();
    game.place_bets(&vec![0, 10]);
    assert_eq!(game.players[0].bankroll, 100);
    assert_eq!(game.players[0].wager, 0);
    game.deal_hands();
    assert_eq!(game.players[0].hand.count(), 0);
    assert_eq!(game.players[1].hand.cards, vec![card(Face::Two), card(Face::Four)]);
}

#[test]
fn zero_floor_keeps_a_player_with_one_unit() {
    let mut game = stacked_game(&[Face::Ten, Face::Ten, Face::Nine, Face::King], 0);
    let mut p = Player::new(String::from("Player 1"));
    p.bankroll = 11;
    game.add_player(p);
    game.round_start();
    game.place_bets(&vec![10]);
    game.deal_hands();
    game.players_turn();
    game.player_decision(Action::Stand);
    game.players_turn();
    game.dealer_turn();
    game.payout();
    game.round_end();
    assert_eq!(game.players[0].bankroll, 1);
    assert!(game.players[0].active);
    assert_eq!(game.state, GameState::RoundStart);
}

#[test]
fn no_active_player_ends_the_game_at_round_start() {
    let mut game = Game::new();
    game.state = GameState::RoundStart;
    game.round_start();
    assert_eq!(game.state, GameState::GameOver);
    let mut other = Game::new();
    other.check_players();
    assert_eq!(other.state, GameState::GameOver);
}

#[test]
fn automated_seats_play_themselves() {
    let mut game = go();
    assert_eq!(game.state, GameState::RoundStart);
    assert_eq!(game.dealer.shoe.len(), 312);
    game.create_players(&vec![false, false, false]);
    assert_eq!(game.players.len(), 3);
    assert_eq!(game.players[2].name, "Player 3");
    game.round_start();
    game.place_bets(&vec![0, 0, 0]);
    for p in game.players.iter() {
        assert!(p.wager > 0 && p.wager <= 100);
        assert_eq!(p.bankroll + p.wager, 100);
    }
    game.deal_hands();
    assert_eq!(game.players_turn(), None);
    for p in game.players.iter() {
        assert!(p.hand.get_total_single() >= 17);
    }
    game.dealer_turn();
    assert!(game.dealer.hand.get_total_single() >= 17);
    game.payout();
    game.round_end();
    assert_eq!(game.state, GameState::RoundStart);
}

#[test]
fn setup_seats_numbered_humans() {
    let mut game = Game::new();
    game.setup_players(3);
    assert_eq!(game.players.len(), 3);
    assert_eq!(game.players[0].name, "Player 1");
    assert_eq!(game.players[2].name, "Player 3");
    assert!(game.players.iter().all(|p| p.human && p.active && p.bankroll == 100));
    game.add_player(Player::new(String::from("Late")));
    assert_eq!(game.players.len(), 4);
}

#[test]
fn run_builds_and_shuffles_the_shoe() {
    let mut game = Game::new();
    assert_eq!(game.state, GameState::Idle);
    game.run();
    assert_eq!(game.state, GameState::RoundStart);
    assert_eq!(game.dealer.shoe.len(), 312);
    let mut again = Game::new();
    again.state = GameState::NewGame;
    again.new_game();
    assert_eq!(again.dealer.shoe.len(), 312);
}

#[test]
fn game_level_draws() {
    let mut game = stacked_game(&[Face::Ace, Face::Two], 5);
    game.add_player(Player::new(String::from("A")));
    assert_eq!(game.draw_card(), Some(card(Face::Ace)));
    game.deal_card(0);
    assert_eq!(game.players[0].hand.cards, vec![card(Face::Two)]);
    assert_eq!(game.draw_card(), None);
    game.dealer_card();
    assert_eq!(game.dealer.hand.count(), 1);
    assert_eq!(game.dealer.shoe.len(), 51);
}
