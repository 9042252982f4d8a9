//! The round engine: a phase state machine over one dealer and an ordered
//! roster of players, from bets through dealing, turns and settlement to the
//! elimination of broke players.
use vstd::prelude::*;

use crate::card::Card;
use crate::dealer::{
    Dealer,
    credited,
    drawn_from_top,
    hit_to_threshold,
    payout_multiple,
    settlement,
    turn_state,
};
use crate::deck::full_shoe;
use crate::hand::{HandState, MAX_HAND_CARDS, is_bust, is_natural, lemma_total_bounds};
use crate::player::{
    Action,
    MAX_AUTO_WAGER,
    MIN_AUTO_WAGER,
    Player,
    automated_wager,
    numbered_name,
    player_name,
    wager_ceiling,
    STARTING_BANKROLL,
};

verus! {

/// Bankroll at or below which a player is eliminated at round end, under the
/// canonical rules.
pub const DEFAULT_ELIMINATION_FLOOR: i64 = 5;

/// Phases of the round engine.
#[derive(Clone, Copy, Debug, PartialEq, Eq, Structural)]
pub enum GameState {
    Idle,
    NewGame,
    RoundStart,
    PlaceBets,
    DealHands,
    PlayersTurn,
    DealerTurn,
    Payout,
    RoundEnd,
    GameOver,
}

/// Phases in which no hand holds a card yet.
pub open spec fn before_deal(s: GameState) -> bool {
    ||| s == GameState::Idle
    ||| s == GameState::NewGame
    ||| s == GameState::RoundStart
    ||| s == GameState::PlaceBets
    ||| s == GameState::DealHands
}

/// Phases in which no wager of the round has been placed yet.
pub open spec fn before_bets(s: GameState) -> bool {
    ||| s == GameState::Idle
    ||| s == GameState::NewGame
    ||| s == GameState::RoundStart
    ||| s == GameState::PlaceBets
}

/// Some player of the roster is still active.
pub open spec fn any_active(players: Seq<Player>) -> bool {
    exists|i: int| 0 <= i < players.len() && #[trigger] players[i].active
}

/// Two records of one seat agree on everything but the hand.
pub open spec fn same_seat(a: Player, b: Player) -> bool {
    &&& a.name == b.name
    &&& a.human == b.human
    &&& a.bankroll == b.bankroll
    &&& a.wager == b.wager
    &&& a.active == b.active
}

/// Active players among the first `i` seats.
pub open spec fn active_before(players: Seq<Player>, i: int) -> nat
    decreases i,
{
    if i <= 0 {
        0
    } else {
        active_before(players, i - 1) + (if players[i - 1].active {
            1nat
        } else {
            0nat
        })
    }
}

/// The card `k` draws down from the top of `shoe`.
pub open spec fn nth_from_top(shoe: Seq<Card>, k: int) -> Card {
    shoe[shoe.len() - 1 - k]
}

/// A seat dealt one card: only its hand changes, by one card at the end.
pub open spec fn got_card(before: Player, after: Player) -> bool {
    &&& same_seat(before, after)
    &&& after.hand.state == before.hand.state
    &&& after.hand.cards@.len() == before.hand.cards@.len() + 1
    &&& after.hand.cards@.drop_last() == before.hand.cards@
}

/// A seat after bets: an inactive seat is untouched; a human stakes `wager`;
/// an automated player stakes its drawn wager; the stake is debited at once.
pub open spec fn bet_placed(before: Player, after: Player, wager: i64) -> bool {
    if !before.active {
        after == before
    } else {
        &&& after.name == before.name
        &&& after.hand == before.hand
        &&& after.human == before.human
        &&& after.active
        &&& after.bankroll == before.bankroll - after.wager
        &&& if before.human {
            after.wager == wager
        } else {
            &&& 0 < after.wager <= before.bankroll
            &&& after.wager <= MAX_AUTO_WAGER
            &&& exists|draw: int|
                MIN_AUTO_WAGER <= draw < wager_ceiling(before.bankroll as int)
                    && after.wager == automated_wager(before.bankroll as int, draw)
        }
    }
}

/// A seat after the round ends: it stays active only above the floor, and
/// its cards are discarded.
pub open spec fn round_closed(before: Player, after: Player, floor: i64) -> bool {
    &&& after.name == before.name
    &&& after.human == before.human
    &&& after.bankroll == before.bankroll
    &&& after.wager == before.wager
    &&& after.active == (before.active && before.bankroll > floor)
    &&& after.hand.state == before.hand.state
    &&& after.hand.cards@ == Seq::<Card>::empty()
}

/// A seat after payout: an active one is credited by its hand state and its
/// wager cleared; its hand goes idle.
pub open spec fn paid(before: Player, after: Player) -> bool {
    if !before.active {
        after == before
    } else {
        &&& after.name == before.name
        &&& after.human == before.human
        &&& after.active == before.active
        &&& after.bankroll == credited(
            before.bankroll as int,
            payout_multiple(before.hand.state) * before.wager,
        )
        &&& after.wager == 0
        &&& after.hand.state == HandState::Idle
        &&& after.hand.cards@ == before.hand.cards@
    }
}

/// A seat after its turn was run without a decision from outside: a human
/// seat passes only on a bust or a natural; an automated one hits to 17.
pub open spec fn turn_run(before: Player, after: Player) -> bool {
    if !before.active {
        after == before
    } else {
        &&& same_seat(before, after)
        &&& after.hand.state == turn_state(after.hand.cards@, before.hand.state)
        &&& if before.human {
            &&& after.hand.cards@ == before.hand.cards@
            &&& (is_bust(after.hand.cards@) || is_natural(after.hand.cards@))
        } else {
            hit_to_threshold(before.hand.cards@, after.hand.cards@)
        }
    }
}

/// Counting active seats is monotone in the prefix length.
pub proof fn lemma_active_before_monotone(players: Seq<Player>, i: int, j: int)
    requires
        0 <= i <= j <= players.len(),
    ensures
        active_before(players, i) <= active_before(players, j),
    decreases j - i,
{
    if i < j {
        lemma_active_before_monotone(players, i, j - 1);
    }
}

/// Rosters with the same active flags count their active seats alike.
pub proof fn lemma_active_before_same_flags(a: Seq<Player>, b: Seq<Player>, i: int)
    requires
        0 <= i <= a.len(),
        a.len() == b.len(),
        forall|j: int| 0 <= j < a.len() ==> (#[trigger] a[j]).active == b[j].active,
    ensures
        active_before(a, i) == active_before(b, i),
    decreases i,
{
    if i > 0 {
        lemma_active_before_same_flags(a, b, i - 1);
    }
}

/// Elimination: a seat at or below the floor when the round ends is made
/// inactive, and an inactive seat is left untouched by bets, turns and
/// payout, and stays inactive through every later round end.
pub proof fn elimination(before: Player, after: Player, floor: i64)
    requires
        round_closed(before, after, floor),
        before.bankroll <= floor,
    ensures
        !after.active,
        forall|w: i64, q: Player| bet_placed(after, q, w) ==> q == after,
        forall|q: Player| turn_run(after, q) ==> q == after,
        forall|q: Player| paid(after, q) ==> q == after,
        forall|q: Player, f: i64| round_closed(after, q, f) ==> !q.active,
{
}

/// The round engine.
pub struct Game {
    pub state: GameState,
    pub players: Vec<Player>,
    pub dealer: Dealer,
    pub round_number: u64,
    /// Bankroll at or below which a player is eliminated at round end.
    pub floor: i64,
    /// The seat whose turn it is while players take their turns.
    pub current: usize,
}

impl Game {
    /// The dealer and every player are well formed and the floor is not
    /// negative.
    pub open spec fn seats_wf(&self) -> bool {
        &&& self.dealer.wf()
        &&& self.floor >= 0
        &&& forall|i: int| 0 <= i < self.players@.len() ==> (#[trigger] self.players@[i]).wf()
    }

    /// The engine's invariant: besides well-formed seats, no hand holds a
    /// card before the deal, every active player can stake before the bets,
    /// and the turn marker stays within the roster.
    pub open spec fn wf(&self) -> bool {
        &&& self.seats_wf()
        &&& before_deal(self.state) ==> {
            &&& self.dealer.hand.cards@.len() == 0
            &&& forall|i: int|
                0 <= i < self.players@.len() ==> (#[trigger] self.players@[i]).hand.cards@.len()
                    == 0
        }
        &&& before_bets(self.state) ==> forall|i: int|
            0 <= i < self.players@.len() && (#[trigger] self.players@[i]).active
                ==> self.players@[i].bankroll > 0
        &&& self.state == GameState::PlayersTurn ==> self.current <= self.players@.len()
    }

    /// A human decision is awaited from the seat whose turn it is.
    pub open spec fn awaiting_decision(&self) -> bool {
        &&& self.state == GameState::PlayersTurn
        &&& self.current < self.players@.len()
        &&& self.players@[self.current as int].active
        &&& self.players@[self.current as int].human
        &&& !is_bust(self.players@[self.current as int].hand.cards@)
        &&& !is_natural(self.players@[self.current as int].hand.cards@)
    }

    /// A game under the canonical rules (six decks, elimination at 5 or
    /// less), idle, with no players.
    pub fn new() -> (r: Game)
        ensures
            r.wf(),
            r.state == GameState::Idle,
            r.players@.len() == 0,
            r.round_number == 0,
            r.floor == DEFAULT_ELIMINATION_FLOOR,
            r.dealer.decks_per_shoe == crate::dealer::DECKS_PER_SHOE,
            r.dealer.shoe@.len() == 0,
    {
        Game::with_dealer(Dealer::new(), DEFAULT_ELIMINATION_FLOOR)
    }

    /// An idle game with no players around `dealer`, eliminating players at
    /// or below `floor`.
    pub fn with_dealer(dealer: Dealer, floor: i64) -> (r: Game)
        requires
            dealer.wf(),
            dealer.hand.cards@.len() == 0,
            floor >= 0,
        ensures
            r.wf(),
            r.state == GameState::Idle,
            r.players@.len() == 0,
            r.round_number == 0,
            r.floor == floor,
            r.dealer == dealer,
    {
        Game { state: GameState::Idle, players: Vec::new(), dealer, round_number: 0, floor, current: 0 }
    }

    /// Starts the game: enters `NewGame` and sets it up.
    pub fn run(&mut self)
        requires
            old(self).wf(),
            old(self).state == GameState::Idle,
        ensures
            final(self).wf(),
            final(self).state == GameState::RoundStart,
            final(self).players@ == old(self).players@,
            final(self).dealer.shoe@.to_multiset() == full_shoe(
                old(self).dealer.decks_per_shoe as nat,
            ).to_multiset(),
            final(self).dealer.shoe@.len() == 52 * old(self).dealer.decks_per_shoe,
            final(self).dealer.decks_per_shoe == old(self).dealer.decks_per_shoe,
            final(self).dealer.hand == old(self).dealer.hand,
            final(self).round_number == old(self).round_number,
            final(self).floor == old(self).floor,
    {
        self.state = GameState::NewGame;
        self.new_game();
    }

    /// Builds and shuffles a fresh shoe, then moves to the first round.
    pub fn new_game(&mut self)
        requires
            old(self).wf(),
            old(self).state == GameState::Idle || old(self).state == GameState::NewGame,
        ensures
            final(self).wf(),
            final(self).state == GameState::RoundStart,
            final(self).players@ == old(self).players@,
            final(self).dealer.shoe@.to_multiset() == full_shoe(
                old(self).dealer.decks_per_shoe as nat,
            ).to_multiset(),
            final(self).dealer.shoe@.len() == 52 * old(self).dealer.decks_per_shoe,
            final(self).dealer.decks_per_shoe == old(self).dealer.decks_per_shoe,
            final(self).dealer.hand == old(self).dealer.hand,
            final(self).round_number == old(self).round_number,
            final(self).floor == old(self).floor,
    {
        self.state = GameState::NewGame;
        self.dealer.shuffle_decks();
        self.state = GameState::RoundStart;
    }

    /// Ends the game when no player is active.
    pub fn check_players(&mut self)
        requires
            old(self).wf(),
        ensures
            final(self).wf(),
            final(self).state == if any_active(old(self).players@) {
                old(self).state
            } else {
                GameState::GameOver
            },
            final(self).players@ == old(self).players@,
            final(self).dealer == old(self).dealer,
            final(self).round_number == old(self).round_number,
            final(self).floor == old(self).floor,
            final(self).current == old(self).current,
    {
        let mut i: usize = 0;
        let mut found = false;
        while i < self.players.len()
            invariant
                i <= self.players@.len(),
                found == exists|j: int| 0 <= j < i && #[trigger] self.players@[j].active,
            decreases self.players@.len() - i,
        {
            if self.players[i].active {
                found = true;
            }
            i = i + 1;
        }
        if !found {
            self.state = GameState::GameOver;
        }
    }

    /// Opens a round: counts it (saturating) and moves to bets, or ends the
    /// game when no player is active.
    pub fn round_start(&mut self)
        requires
            old(self).wf(),
            old(self).state == GameState::RoundStart,
        ensures
            final(self).wf(),
            final(self).state == if any_active(old(self).players@) {
                GameState::PlaceBets
            } else {
                GameState::GameOver
            },
            final(self).round_number == if old(self).round_number < u64::MAX {
                old(self).round_number + 1
            } else {
                old(self).round_number as int
            },
            final(self).players@ == old(self).players@,
            final(self).dealer == old(self).dealer,
            final(self).floor == old(self).floor,
    {
        if self.round_number < u64::MAX {
            self.round_number = self.round_number + 1;
        }
        self.state = GameState::PlaceBets;
        self.check_players();
    }

    /// Collects the wagers: each active human seat stakes its entry of
    /// `wagers`, each active automated seat draws its own; stakes are debited
    /// at once. Entries for other seats are ignored.
    pub fn place_bets(&mut self, wagers: &Vec<i64>)
        requires
            old(self).wf(),
            old(self).state == GameState::PlaceBets,
            wagers@.len() == old(self).players@.len(),
            forall|i: int|
                0 <= i < wagers@.len() && (#[trigger] old(self).players@[i]).active && old(self).players@[i].human ==> 0 < wagers@[i] <= old(self).players@[i].bankroll,
        ensures
            final(self).wf(),
            final(self).state == GameState::DealHands,
            final(self).players@.len() == old(self).players@.len(),
            forall|i: int|
                0 <= i < old(self).players@.len() ==> bet_placed(
                    #[trigger] old(self).players@[i],
                    final(self).players@[i],
                    wagers@[i],
                ),
            final(self).dealer == old(self).dealer,
            final(self).round_number == old(self).round_number,
            final(self).floor == old(self).floor,
    {
        let ghost before = self.players@;
        let mut i: usize = 0;
        while i < self.players.len()
            invariant
                self.seats_wf(),
                self.state == GameState::PlaceBets,
                self.dealer == old(self).dealer,
                self.round_number == old(self).round_number,
                self.floor == old(self).floor,
                before == old(self).players@,
                wagers@.len() == before.len(),
                self.players@.len() == before.len(),
                i <= before.len(),
                forall|j: int|
                    0 <= j < before.len() && (#[trigger] before[j]).active && before[j].human
                        ==> 0 < wagers@[j] <= before[j].bankroll,
                forall|j: int|
                    0 <= j < before.len() && (#[trigger] before[j]).active ==> before[j].bankroll
                        > 0,
                forall|j: int|
                    0 <= j < before.len() ==> (#[trigger] before[j]).hand.cards@.len() == 0,
                forall|j: int|
                    0 <= j < i ==> bet_placed(#[trigger] before[j], self.players@[j], wagers@[j]),
                forall|j: int| i <= j < before.len() ==> #[trigger] self.players@[j] == before[j],
                forall|j: int|
                    0 <= j < before.len() ==> (#[trigger] self.players@[j]).hand == before[j].hand,
            decreases before.len() - i,
        {
            if self.players[i].active {
                if self.players[i].human {
                    let w = wagers[i];
                    let p = &mut self.players[i];
                    p.set_wager(w);
                } else {
                    let p = &mut self.players[i];
                    p.computer_wager();
                }
            }
            i = i + 1;
        }
        self.state = GameState::DealHands;
    }

    /// Deals one card to every active seat, in roster order.
    fn deal_to_active(&mut self)
        requires
            old(self).seats_wf(),
            forall|i: int|
                0 <= i < old(self).players@.len() && (#[trigger] old(self).players@[i]).active
                    ==> old(self).players@[i].hand.cards@.len() < MAX_HAND_CARDS,
        ensures
            final(self).seats_wf(),
            final(self).players@.len() == old(self).players@.len(),
            final(self).dealer.hand == old(self).dealer.hand,
            final(self).dealer.decks_per_shoe == old(self).dealer.decks_per_shoe,
            final(self).state == old(self).state,
            final(self).round_number == old(self).round_number,
            final(self).floor == old(self).floor,
            final(self).current == old(self).current,
            forall|i: int|
                0 <= i < old(self).players@.len() && !(#[trigger] old(self).players@[i]).active
                    ==> final(self).players@[i] == old(self).players@[i],
            forall|i: int|
                0 <= i < old(self).players@.len() && (#[trigger] old(self).players@[i]).active ==> {
                    &&& got_card(old(self).players@[i], final(self).players@[i])
                    &&& old(self).dealer.shoe@.len() >= active_before(
                        old(self).players@,
                        old(self).players@.len() as int,
                    ) ==> final(self).players@[i].hand.cards@.last() == nth_from_top(
                        old(self).dealer.shoe@,
                        active_before(old(self).players@, i) as int,
                    )
                },
            old(self).dealer.shoe@.len() >= active_before(
                old(self).players@,
                old(self).players@.len() as int,
            ) ==> final(self).dealer.shoe@ == old(self).dealer.shoe@.subrange(
                0,
                old(self).dealer.shoe@.len() - active_before(
                    old(self).players@,
                    old(self).players@.len() as int,
                ),
            ),
    {
        let ghost before = self.players@;
        let ghost top = self.dealer.shoe@;
        let ghost n = active_before(before, before.len() as int);
        let mut i: usize = 0;
        assert(top.subrange(0, top.len() - 0) =~= top);
        while i < self.players.len()
            invariant
                self.seats_wf(),
                before == old(self).players@,
                top == old(self).dealer.shoe@,
                n == active_before(before, before.len() as int),
                self.players@.len() == before.len(),
                i <= before.len(),
                self.dealer.hand == old(self).dealer.hand,
                self.dealer.decks_per_shoe == old(self).dealer.decks_per_shoe,
                self.state == old(self).state,
                self.round_number == old(self).round_number,
                self.floor == old(self).floor,
                self.current == old(self).current,
                forall|j: int|
                    0 <= j < before.len() && (#[trigger] before[j]).active
                        ==> before[j].hand.cards@.len() < MAX_HAND_CARDS,
                forall|j: int| i <= j < before.len() ==> #[trigger] self.players@[j] == before[j],
                forall|j: int|
                    0 <= j < i && !(#[trigger] before[j]).active ==> self.players@[j] == before[j],
                forall|j: int|
                    0 <= j < i && (#[trigger] before[j]).active ==> {
                        &&& got_card(before[j], self.players@[j])
                        &&& top.len() >= n ==> self.players@[j].hand.cards@.last() == nth_from_top(
                            top,
                            active_before(before, j) as int,
                        )
                    },
                top.len() >= n ==> self.dealer.shoe@ == top.subrange(
                    0,
                    top.len() - active_before(before, i as int),
                ),
            decreases before.len() - i,
        {
            proof {
                lemma_active_before_monotone(before, i + 1, before.len() as int);
            }
            if self.players[i].active {
                let ghost prev = self.players@;
                self.deal_card(i);
                proof {
                    if top.len() >= n {
                        assert(self.dealer.shoe@ =~= top.subrange(
                            0,
                            top.len() - active_before(before, i + 1),
                        ));
                    }
                    assert forall|j: int|
                        0 <= j < i && (#[trigger] before[j]).active implies {
                        &&& got_card(before[j], self.players@[j])
                        &&& top.len() >= n ==> self.players@[j].hand.cards@.last() == nth_from_top(
                            top,
                            active_before(before, j) as int,
                        )
                    } by {
                        assert(self.players@[j] == prev[j]);
                    }
                }
            }
            i = i + 1;
        }
    }

    /// Deals the round: a card to each active seat in roster order, one to
    /// the dealer, a second to each active seat, a second to the dealer.
    #[verifier::rlimit(60)]
    pub fn deal_hands(&mut self)
        requires
            old(self).wf(),
            old(self).state == GameState::DealHands,
        ensures
            final(self).wf(),
            final(self).state == GameState::PlayersTurn,
            final(self).current == 0,
            final(self).players@.len() == old(self).players@.len(),
            final(self).dealer.decks_per_shoe == old(self).dealer.decks_per_shoe,
            final(self).dealer.hand.state == old(self).dealer.hand.state,
            final(self).dealer.hand.cards@.len() == 2,
            final(self).round_number == old(self).round_number,
            final(self).floor == old(self).floor,
            forall|i: int|
                0 <= i < old(self).players@.len() && !(#[trigger] old(self).players@[i]).active
                    ==> final(self).players@[i] == old(self).players@[i],
            forall|i: int|
                0 <= i < old(self).players@.len() && (#[trigger] old(self).players@[i]).active ==> {
                    let (p, q) = (old(self).players@[i], final(self).players@[i]);
                    &&& same_seat(p, q)
                    &&& q.hand.state == p.hand.state
                    &&& q.hand.cards@.len() == 2
                },
            ({
                let s = old(self).dealer.shoe@;
                let ps = old(self).players@;
                let n = active_before(ps, ps.len() as int);
                s.len() >= 2 * n + 2 ==> {
                    &&& final(self).dealer.hand.cards@ == seq![
                        nth_from_top(s, n as int),
                        nth_from_top(s, (2 * n + 1) as int),
                    ]
                    &&& final(self).dealer.shoe@ == s.subrange(0, s.len() - (2 * n + 2))
                    &&& forall|i: int|
                        0 <= i < ps.len() && (#[trigger] ps[i]).active
                            ==> final(self).players@[i].hand.cards@ == seq![
                            nth_from_top(s, active_before(ps, i) as int),
                            nth_from_top(s, (n + 1 + active_before(ps, i)) as int),
                        ]
                }
            }),
    {
        let ghost ps = self.players@;
        let ghost s = self.dealer.shoe@;
        let ghost n = active_before(ps, ps.len() as int);
        self.deal_to_active();
        let ghost ps1 = self.players@;
        let ghost s1 = self.dealer.shoe@;
        self.dealer.dealer_card();
        assert forall|i: int|
            0 <= i < self.players@.len() && (#[trigger] self.players@[i]).active
                implies self.players@[i].hand.cards@.len() < MAX_HAND_CARDS by {
            assert(ps[i].active);
        }
        let ghost s2 = self.dealer.shoe@;
        proof {
            lemma_active_before_same_flags(ps, ps1, ps.len() as int);
            assert forall|i: int| 0 <= i <= ps.len() implies active_before(ps1, i) == active_before(
                ps,
                i,
            ) by {
                lemma_active_before_same_flags(ps, ps1, i);
            }
        }
        self.deal_to_active();
        let ghost s3 = self.dealer.shoe@;
        self.dealer.dealer_card();
        proof {
            if s.len() >= 2 * n + 2 {
                assert(s1 =~= s.subrange(0, s.len() - n));
                assert(s2 =~= s.subrange(0, s.len() - n - 1));
                assert(s3 =~= s.subrange(0, s.len() - 2 * n - 1));
                assert(self.dealer.shoe@ =~= s.subrange(0, s.len() - (2 * n + 2)));
                assert(self.dealer.hand.cards@ =~= seq![
                    nth_from_top(s, n as int),
                    nth_from_top(s, (2 * n + 1) as int),
                ]);
                assert forall|i: int|
                    0 <= i < ps.len() && (#[trigger] ps[i]).active
                        implies self.players@[i].hand.cards@ == seq![
                        nth_from_top(s, active_before(ps, i) as int),
                        nth_from_top(s, (n + 1 + active_before(ps, i)) as int),
                    ] by {
                    lemma_active_before_monotone(ps, i, ps.len() as int);
                    let c = self.players@[i].hand.cards@;
                    assert(c.drop_last().drop_last() =~= Seq::<Card>::empty());
                    assert(c =~= seq![c[0], c[1]]);
                }
            }
        }
        self.state = GameState::PlayersTurn;
        self.current = 0;
    }

    /// Draws the top card of the shoe, or nothing when it is empty.
    pub fn draw_card(&mut self) -> (r: Option<Card>)
        ensures
            old(self).dealer.shoe@.len() == 0 ==> r is None && final(self).dealer.shoe@ == old(self).dealer.shoe@,
            old(self).dealer.shoe@.len() > 0 ==> r == Some(old(self).dealer.shoe@.last())
                && final(self).dealer.shoe@ == old(self).dealer.shoe@.drop_last(),
            final(self).dealer.hand == old(self).dealer.hand,
            final(self).dealer.decks_per_shoe == old(self).dealer.decks_per_shoe,
            final(self).players@ == old(self).players@,
            final(self).state == old(self).state,
            final(self).round_number == old(self).round_number,
            final(self).floor == old(self).floor,
            final(self).current == old(self).current,
    {
        self.dealer.draw_card()
    }

    /// Deals one card to the seat at `player_index`, rebuilding an exhausted
    /// shoe first.
    pub fn deal_card(&mut self, player_index: usize)
        requires
            old(self).seats_wf(),
            player_index < old(self).players@.len(),
            old(self).players@[player_index as int].hand.cards@.len() < MAX_HAND_CARDS,
        ensures
            final(self).seats_wf(),
            final(self).players@.len() == old(self).players@.len(),
            forall|j: int|
                0 <= j < old(self).players@.len() && j != player_index ==> #[trigger] final(self).players@[j] == old(self).players@[j],
            ({
                let (p, q) = (old(self).players@[player_index as int], final(self).players@[player_index as int]);
                &&& same_seat(p, q)
                &&& q.hand.state == p.hand.state
                &&& q.hand.cards@.len() == p.hand.cards@.len() + 1
                &&& q.hand.cards@.drop_last() == p.hand.cards@
                &&& old(self).dealer.shoe@.len() > 0 ==> q.hand.cards@.last() == old(self).dealer.shoe@.last() && final(self).dealer.shoe@ == old(self).dealer.shoe@.drop_last()
            }),
            final(self).dealer.hand == old(self).dealer.hand,
            final(self).dealer.decks_per_shoe == old(self).dealer.decks_per_shoe,
            final(self).state == old(self).state,
            final(self).round_number == old(self).round_number,
            final(self).floor == old(self).floor,
            final(self).current == old(self).current,
    {
        let ghost before = self.players@;
        let p = &mut self.players[player_index];
        self.dealer.deal_card(p);
        assert(self.players@[player_index as int].hand.cards@.drop_last() =~= old(self).players@[player_index as int].hand.cards@);
    }

    /// Deals one card to the dealer, rebuilding an exhausted shoe first.
    pub fn dealer_card(&mut self)
        requires
            old(self).seats_wf(),
            old(self).dealer.hand.cards@.len() < MAX_HAND_CARDS,
        ensures
            final(self).seats_wf(),
            final(self).players@ == old(self).players@,
            final(self).dealer.decks_per_shoe == old(self).dealer.decks_per_shoe,
            final(self).dealer.hand.state == old(self).dealer.hand.state,
            final(self).dealer.hand.cards@.len() == old(self).dealer.hand.cards@.len() + 1,
            final(self).dealer.hand.cards@.drop_last() == old(self).dealer.hand.cards@,
            old(self).dealer.shoe@.len() > 0 ==> final(self).dealer.hand.cards@.last() == old(self).dealer.shoe@.last() && final(self).dealer.shoe@ == old(self).dealer.shoe@.drop_last(),
            final(self).state == old(self).state,
            final(self).round_number == old(self).round_number,
            final(self).floor == old(self).floor,
            final(self).current == old(self).current,
    {
        self.dealer.dealer_card();
        assert(self.dealer.hand.cards@.drop_last() =~= old(self).dealer.hand.cards@);
    }

    /// Runs the players' turns in roster order from the seat whose turn it
    /// is: a bust loses and a natural is a blackjack at once; an automated
    /// seat plays out its policy; a human seat with a live hand stops the run
    /// and its index is returned, awaiting `player_decision`. When every seat
    /// is done the dealer's turn comes and `None` is returned.
    pub fn players_turn(&mut self) -> (r: Option<usize>)
        requires
            old(self).wf(),
            old(self).state == GameState::PlayersTurn,
        ensures
            final(self).wf(),
            final(self).players@.len() == old(self).players@.len(),
            old(self).current <= final(self).current,
            final(self).dealer.hand == old(self).dealer.hand,
            final(self).dealer.decks_per_shoe == old(self).dealer.decks_per_shoe,
            final(self).round_number == old(self).round_number,
            final(self).floor == old(self).floor,
            forall|j: int|
                0 <= j < old(self).players@.len() && (j < old(self).current || j
                    >= final(self).current) ==> #[trigger] final(self).players@[j] == old(
                    self).players@[j],
            forall|j: int|
                old(self).current <= j < final(self).current ==> turn_run(
                    #[trigger] old(self).players@[j],
                    final(self).players@[j],
                ),
            r matches Some(i) ==> i == final(self).current && final(self).awaiting_decision(),
            r is None ==> final(self).state == GameState::DealerTurn && final(self).current
                == final(self).players@.len(),
    {
        let ghost before = self.players@;
        loop
            invariant
                self.seats_wf(),
                self.state == GameState::PlayersTurn,
                before == old(self).players@,
                self.players@.len() == before.len(),
                old(self).current <= self.current <= before.len(),
                self.dealer.hand == old(self).dealer.hand,
                self.dealer.decks_per_shoe == old(self).dealer.decks_per_shoe,
                self.round_number == old(self).round_number,
                self.floor == old(self).floor,
                forall|j: int|
                    0 <= j < before.len() && (j < old(self).current || j >= self.current)
                        ==> #[trigger] self.players@[j] == before[j],
                forall|j: int|
                    old(self).current <= j < self.current ==> turn_run(
                        #[trigger] before[j],
                        self.players@[j],
                    ),
            decreases before.len() - self.current,
        {
            if self.current >= self.players.len() {
                self.state = GameState::DealerTurn;
                return None;
            }
            let i = self.current;
            let ghost prev = self.players@;
            if self.players[i].active {
                let bust = self.players[i].hand.is_bust();
                let natural = self.players[i].hand.is_blackjack();
                if bust || natural {
                    let p = &mut self.players[i];
                    if bust {
                        p.hand.state = HandState::Lose;
                    } else {
                        p.hand.state = HandState::Blackjack;
                    }
                    let ghost c = p.hand.cards@;
                    assert(c.subrange(0, c.len() as int) =~= c);
                } else if self.players[i].human {
                    return Some(i);
                } else {
                    let p = &mut self.players[i];
                    self.dealer.player_turn(p);
                }
            }
            proof {
                assert forall|j: int|
                    old(self).current <= j < i + 1 implies turn_run(
                    #[trigger] before[j],
                    self.players@[j],
                ) by {
                    if j < i {
                        assert(self.players@[j] == prev[j]);
                    }
                }
            }
            self.current = i + 1;
        }
    }

    /// Applies a human decision for the seat whose turn it is: a hit deals it
    /// a card and its turn goes on; a stand ends its turn.
    pub fn player_decision(&mut self, action: Action)
        requires
            old(self).wf(),
            old(self).awaiting_decision(),
        ensures
            final(self).wf(),
            final(self).state == GameState::PlayersTurn,
            final(self).players@.len() == old(self).players@.len(),
            final(self).dealer.hand == old(self).dealer.hand,
            final(self).dealer.decks_per_shoe == old(self).dealer.decks_per_shoe,
            final(self).round_number == old(self).round_number,
            final(self).floor == old(self).floor,
            action == Action::Stand ==> {
                &&& final(self).players@ == old(self).players@
                &&& final(self).current == old(self).current + 1
                &&& final(self).dealer.shoe@ == old(self).dealer.shoe@
            },
            action == Action::Hit ==> {
                &&& final(self).current == old(self).current
                &&& forall|j: int|
                    0 <= j < old(self).players@.len() && j != old(self).current
                        ==> #[trigger] final(self).players@[j] == old(self).players@[j]
                &&& got_card(
                    old(self).players@[old(self).current as int],
                    final(self).players@[old(self).current as int],
                )
                &&& old(self).dealer.shoe@.len() > 0 ==> final(self).players@[old(
                    self).current as int].hand.cards@.last() == old(self).dealer.shoe@.last()
                    && final(self).dealer.shoe@ == old(self).dealer.shoe@.drop_last()
            },
    {
        match action {
            Action::Hit => {
                proof {
                    lemma_total_bounds(self.players@[self.current as int].hand.cards@);
                }
                self.deal_card(self.current);
            },
            Action::Stand => {
                let n = self.players.len();
                assert(self.current < n);
                self.current = self.current + 1;
            },
        }
    }

    /// The dealer plays its fixed policy, then every active seat is settled
    /// against the dealer's hand.
    pub fn dealer_turn(&mut self)
        requires
            old(self).wf(),
            old(self).state == GameState::DealerTurn,
        ensures
            final(self).wf(),
            final(self).state == GameState::Payout,
            final(self).players@.len() == old(self).players@.len(),
            final(self).dealer.decks_per_shoe == old(self).dealer.decks_per_shoe,
            final(self).round_number == old(self).round_number,
            final(self).floor == old(self).floor,
            hit_to_threshold(old(self).dealer.hand.cards@, final(self).dealer.hand.cards@),
            final(self).dealer.hand.state == turn_state(
                final(self).dealer.hand.cards@,
                old(self).dealer.hand.state,
            ),
            drawn_from_top(
                old(self).dealer.shoe@,
                final(self).dealer.shoe@,
                final(self).dealer.hand.cards@.skip(old(self).dealer.hand.cards@.len() as int),
            ),
            forall|j: int|
                0 <= j < old(self).players@.len() && !(#[trigger] old(self).players@[j]).active
                    ==> final(self).players@[j] == old(self).players@[j],
            forall|j: int|
                0 <= j < old(self).players@.len() && (#[trigger] old(self).players@[j]).active
                    ==> {
                    &&& same_seat(old(self).players@[j], final(self).players@[j])
                    &&& final(self).players@[j].hand.cards@ == old(self).players@[j].hand.cards@
                    &&& final(self).players@[j].hand.state == settlement(
                        old(self).players@[j].hand.cards@,
                        final(self).dealer.hand.cards@,
                    )
                },
    {
        self.dealer.dealer_turn();
        let ghost before = self.players@;
        let mut i: usize = 0;
        while i < self.players.len()
            invariant
                self.seats_wf(),
                self.state == old(self).state,
                before == old(self).players@,
                self.players@.len() == before.len(),
                i <= before.len(),
                self.dealer.decks_per_shoe == old(self).dealer.decks_per_shoe,
                self.round_number == old(self).round_number,
                self.floor == old(self).floor,
                hit_to_threshold(old(self).dealer.hand.cards@, self.dealer.hand.cards@),
                self.dealer.hand.state == turn_state(
                    self.dealer.hand.cards@,
                    old(self).dealer.hand.state,
                ),
                drawn_from_top(
                    old(self).dealer.shoe@,
                    self.dealer.shoe@,
                    self.dealer.hand.cards@.skip(old(self).dealer.hand.cards@.len() as int),
                ),
                forall|j: int| i <= j < before.len() ==> #[trigger] self.players@[j] == before[j],
                forall|j: int|
                    0 <= j < i && !(#[trigger] before[j]).active ==> self.players@[j] == before[j],
                forall|j: int|
                    0 <= j < i && (#[trigger] before[j]).active ==> {
                        &&& same_seat(before[j], self.players@[j])
                        &&& self.players@[j].hand.cards@ == before[j].hand.cards@
                        &&& self.players@[j].hand.state == settlement(
                            before[j].hand.cards@,
                            self.dealer.hand.cards@,
                        )
                    },
            decreases before.len() - i,
        {
            let ghost prev = self.players@;
            let ghost dealer_before = self.dealer;
            if self.players[i].active {
                let p = &mut self.players[i];
                self.dealer.hand_status(p);
            }
            proof {
                assert(self.dealer == dealer_before);
                assert forall|j: int| 0 <= j < i implies #[trigger] self.players@[j] == prev[j] by {}
            }
            i = i + 1;
        }
        self.state = GameState::Payout;
    }

    /// Settles the money: every active seat is paid by its hand state and its
    /// wager cleared; every hand goes idle.
    pub fn payout(&mut self)
        requires
            old(self).wf(),
            old(self).state == GameState::Payout,
        ensures
            final(self).wf(),
            final(self).state == GameState::RoundEnd,
            final(self).players@.len() == old(self).players@.len(),
            forall|j: int|
                0 <= j < old(self).players@.len() ==> paid(
                    #[trigger] old(self).players@[j],
                    final(self).players@[j],
                ),
            final(self).dealer.hand.state == HandState::Idle,
            final(self).dealer.hand.cards@ == old(self).dealer.hand.cards@,
            final(self).dealer.shoe@ == old(self).dealer.shoe@,
            final(self).dealer.decks_per_shoe == old(self).dealer.decks_per_shoe,
            final(self).round_number == old(self).round_number,
            final(self).floor == old(self).floor,
    {
        let ghost before = self.players@;
        let mut i: usize = 0;
        while i < self.players.len()
            invariant
                self.seats_wf(),
                self.state == old(self).state,
                before == old(self).players@,
                self.players@.len() == before.len(),
                i <= before.len(),
                self.dealer.hand.cards@ == old(self).dealer.hand.cards@,
                self.dealer.shoe@ == old(self).dealer.shoe@,
                self.dealer.decks_per_shoe == old(self).dealer.decks_per_shoe,
                self.round_number == old(self).round_number,
                self.floor == old(self).floor,
                forall|j: int| i <= j < before.len() ==> #[trigger] self.players@[j] == before[j],
                forall|j: int| 0 <= j < i ==> paid(#[trigger] before[j], self.players@[j]),
            decreases before.len() - i,
        {
            let ghost prev = self.players@;
            if self.players[i].active {
                let p = &mut self.players[i];
                self.dealer.payout(p);
            }
            proof {
                assert forall|j: int| 0 <= j < i implies #[trigger] self.players@[j] == prev[j] by {}
            }
            i = i + 1;
        }
        self.dealer.hand.state = HandState::Idle;
        self.state = GameState::RoundEnd;
    }

    /// Closes the round: every seat at or below the floor is eliminated,
    /// every hand is discarded, and the next round starts unless no player is
    /// left active.
    pub fn round_end(&mut self)
        requires
            old(self).wf(),
            old(self).state == GameState::RoundEnd,
        ensures
            final(self).wf(),
            final(self).players@.len() == old(self).players@.len(),
            forall|j: int|
                0 <= j < old(self).players@.len() ==> round_closed(
                    #[trigger] old(self).players@[j],
                    final(self).players@[j],
                    old(self).floor,
                ),
            final(self).state == if any_active(final(self).players@) {
                GameState::RoundStart
            } else {
                GameState::GameOver
            },
            final(self).dealer.hand.cards@ == Seq::<Card>::empty(),
            final(self).dealer.hand.state == old(self).dealer.hand.state,
            final(self).dealer.shoe@ == old(self).dealer.shoe@,
            final(self).dealer.decks_per_shoe == old(self).dealer.decks_per_shoe,
            final(self).round_number == old(self).round_number,
            final(self).floor == old(self).floor,
    {
        let ghost before = self.players@;
        let mut i: usize = 0;
        while i < self.players.len()
            invariant
                self.seats_wf(),
                self.state == old(self).state,
                before == old(self).players@,
                self.players@.len() == before.len(),
                i <= before.len(),
                self.dealer == old(self).dealer,
                self.round_number == old(self).round_number,
                self.floor == old(self).floor,
                forall|j: int| i <= j < before.len() ==> #[trigger] self.players@[j] == before[j],
                forall|j: int|
                    0 <= j < i ==> round_closed(#[trigger] before[j], self.players@[j], self.floor),
            decreases before.len() - i,
        {
            let ghost prev = self.players@;
            let floor = self.floor;
            let p = &mut self.players[i];
            if p.active && p.bankroll <= floor {
                self.dealer.remove_player(p);
            }
            p.hand.clear();
            proof {
                assert forall|j: int| 0 <= j < i implies #[trigger] self.players@[j] == prev[j] by {}
            }
            i = i + 1;
        }
        self.dealer.hand.clear();
        self.state = GameState::RoundStart;
        assert forall|j: int| 0 <= j < self.players@.len() implies (#[trigger] self.players@[j]).hand.cards@.len() == 0 && (self.players@[j].active ==> self.players@[j].bankroll > 0) by {
            assert(round_closed(before[j], self.players@[j], self.floor));
        }
        self.check_players();
    }

    /// Seats `number` new human players, "Player 1" to "Player number", each
    /// active with the starting bankroll.
    pub fn setup_players(&mut self, number: u8)
        requires
            old(self).wf(),
            before_bets(old(self).state),
            old(self).players@.len() + number <= usize::MAX,
        ensures
            final(self).wf(),
            final(self).players@.len() == old(self).players@.len() + number,
            forall|j: int|
                0 <= j < old(self).players@.len() ==> #[trigger] final(self).players@[j] == old(
                    self).players@[j],
            forall|j: int|
                old(self).players@.len() <= j < final(self).players@.len() ==> {
                    let p = #[trigger] final(self).players@[j];
                    &&& p.name@ == numbered_name((j - old(self).players@.len() + 1) as nat)
                    &&& p.human
                    &&& p.active
                    &&& p.bankroll == STARTING_BANKROLL
                    &&& p.wager == 0
                    &&& p.hand.cards@.len() == 0
                    &&& p.hand.state == HandState::Idle
                },
            final(self).state == old(self).state,
            final(self).dealer == old(self).dealer,
            final(self).round_number == old(self).round_number,
            final(self).floor == old(self).floor,
    {
        let ghost start = self.players@.len();
        let mut i: u8 = 0;
        while i < number
            invariant
                self.wf(),
                before_bets(self.state),
                self.state == old(self).state,
                self.dealer == old(self).dealer,
                self.round_number == old(self).round_number,
                self.floor == old(self).floor,
                start == old(self).players@.len(),
                start + number <= usize::MAX,
                i <= number,
                self.players@.len() == start + i,
                forall|j: int| 0 <= j < start ==> #[trigger] self.players@[j] == old(self).players@[j],
                forall|j: int|
                    start <= j < self.players@.len() ==> {
                        let p = #[trigger] self.players@[j];
                        &&& p.name@ == numbered_name((j - start + 1) as nat)
                        &&& p.human
                        &&& p.active
                        &&& p.bankroll == STARTING_BANKROLL
                        &&& p.wager == 0
                        &&& p.hand.cards@.len() == 0
                        &&& p.hand.state == HandState::Idle
                    },
            decreases number - i,
        {
            let player = Player::new(player_name(i + 1));
            self.add_player(player);
            i = i + 1;
        }
    }

    /// Replaces the roster: one seat per entry of `humans`, "Player 1"
    /// onwards, human or automated as the entry says, each active with the
    /// starting bankroll.
    pub fn create_players(&mut self, humans: &Vec<bool>)
        requires
            old(self).wf(),
            before_bets(old(self).state),
            humans@.len() <= 255,
        ensures
            final(self).wf(),
            final(self).players@.len() == humans@.len(),
            forall|k: int|
                0 <= k < humans@.len() ==> {
                    let p = #[trigger] final(self).players@[k];
                    &&& p.name@ == numbered_name((k + 1) as nat)
                    &&& p.human == humans@[k]
                    &&& p.active
                    &&& p.bankroll == STARTING_BANKROLL
                    &&& p.wager == 0
                    &&& p.hand.cards@.len() == 0
                    &&& p.hand.state == HandState::Idle
                },
            final(self).state == old(self).state,
            final(self).dealer == old(self).dealer,
            final(self).round_number == old(self).round_number,
            final(self).floor == old(self).floor,
    {
        self.players = Vec::new();
        let mut i: usize = 0;
        while i < humans.len()
            invariant
                self.wf(),
                before_bets(self.state),
                self.state == old(self).state,
                self.dealer == old(self).dealer,
                self.round_number == old(self).round_number,
                self.floor == old(self).floor,
                humans@.len() <= 255,
                i <= humans@.len(),
                self.players@.len() == i,
                forall|k: int|
                    0 <= k < i ==> {
                        let p = #[trigger] self.players@[k];
                        &&& p.name@ == numbered_name((k + 1) as nat)
                        &&& p.human == humans@[k]
                        &&& p.active
                        &&& p.bankroll == STARTING_BANKROLL
                        &&& p.wager == 0
                        &&& p.hand.cards@.len() == 0
                        &&& p.hand.state == HandState::Idle
                    },
            decreases humans@.len() - i,
        {
            let mut player = Player::new(player_name((i + 1) as u8));
            player.set_human(humans[i]);
            self.add_player(player);
            i = i + 1;
        }
    }

    /// Adds a player at the end of the roster.
    pub fn add_player(&mut self, player: Player)
        requires
            old(self).wf(),
            player.wf(),
            before_deal(old(self).state) ==> player.hand.cards@.len() == 0,
            before_bets(old(self).state) && player.active ==> player.bankroll > 0,
        ensures
            final(self).wf(),
            final(self).players@ == old(self).players@.push(player),
            final(self).state == old(self).state,
            final(self).dealer == old(self).dealer,
            final(self).round_number == old(self).round_number,
            final(self).floor == old(self).floor,
            final(self).current == old(self).current,
    {
        self.players.push(player);
    }
}

/// A game under the canonical rules, started: its shoe built and shuffled,
/// ready for players to be seated and the first round to start.
pub fn go() -> (r: Game)
    ensures
        r.wf(),
        r.state == GameState::RoundStart,
        r.players@.len() == 0,
        r.floor == DEFAULT_ELIMINATION_FLOOR,
        r.dealer.decks_per_shoe == crate::dealer::DECKS_PER_SHOE,
        r.dealer.shoe@.to_multiset() == full_shoe(crate::dealer::DECKS_PER_SHOE as nat).to_multiset(),
        r.dealer.shoe@.len() == 52 * crate::dealer::DECKS_PER_SHOE,
{
    let mut game = Game::new();
    game.run();
    game
}

} // verus!
