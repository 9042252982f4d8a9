//! Players: bankroll and wager bookkeeping, the automated decision and wager
//! policies, and the names given to seated players.
use vstd::prelude::*;

use crate::card::Card;
use crate::hand::{Hand, HandState, MAX_HAND_CARDS, effective_total};
use crate::random::random_in;

verus! {

/// Bankroll a player is seated with.
pub const STARTING_BANKROLL: i64 = 100;

/// Smallest wager the automated policy draws.
pub const MIN_AUTO_WAGER: i64 = 5;

/// Largest wager the automated policy places.
pub const MAX_AUTO_WAGER: i64 = 100;

/// An automated hand hits while its effective total is below this (the dealer's
/// threshold too).
pub const STAND_THRESHOLD: u8 = 17;

/// A decision in a player's turn.
#[derive(Clone, Copy, Debug, PartialEq, Eq, Structural)]
pub enum Action {
    Hit,
    Stand,
}

/// What the automated policy decides on a hand: hit below 17, else stand.
pub open spec fn automated_action(cards: Seq<Card>) -> Action {
    if effective_total(cards) < STAND_THRESHOLD {
        Action::Hit
    } else {
        Action::Stand
    }
}

/// Exclusive upper end of the automated wager draw: a twentieth of the
/// bankroll, raised to 10 when that is 5 or less.
pub open spec fn wager_ceiling(bankroll: int) -> int {
    if bankroll / 20 <= 5 {
        10
    } else {
        bankroll / 20
    }
}

/// The automated wager for a draw: the draw, capped by the bankroll and by 100.
pub open spec fn automated_wager(bankroll: int, draw: int) -> int {
    let w = if draw > bankroll {
        bankroll
    } else {
        draw
    };
    if w > MAX_AUTO_WAGER {
        MAX_AUTO_WAGER as int
    } else {
        w
    }
}

/// The character of a decimal digit.
pub open spec fn digit_char(d: nat) -> char {
    if d == 0 {
        '0'
    } else if d == 1 {
        '1'
    } else if d == 2 {
        '2'
    } else if d == 3 {
        '3'
    } else if d == 4 {
        '4'
    } else if d == 5 {
        '5'
    } else if d == 6 {
        '6'
    } else if d == 7 {
        '7'
    } else if d == 8 {
        '8'
    } else {
        '9'
    }
}

/// Decimal notation of a number, without leading zeros.
pub open spec fn decimal(n: nat) -> Seq<char>
    decreases n,
{
    if n < 10 {
        seq![digit_char(n)]
    } else {
        decimal(n / 10).push(digit_char(n % 10))
    }
}

/// The name of the `n`-th seated player.
pub open spec fn numbered_name(n: nat) -> Seq<char> {
    "Player "@ + decimal(n)
}

fn digit_str(d: u8) -> (r: &'static str)
    requires
        d < 10,
    ensures
        r@ == seq![digit_char(d as nat)],
{
    proof {
        reveal_strlit("0");
        reveal_strlit("1");
        reveal_strlit("2");
        reveal_strlit("3");
        reveal_strlit("4");
        reveal_strlit("5");
        reveal_strlit("6");
        reveal_strlit("7");
        reveal_strlit("8");
        reveal_strlit("9");
    }
    let r = if d == 0 {
        "0"
    } else if d == 1 {
        "1"
    } else if d == 2 {
        "2"
    } else if d == 3 {
        "3"
    } else if d == 4 {
        "4"
    } else if d == 5 {
        "5"
    } else if d == 6 {
        "6"
    } else if d == 7 {
        "7"
    } else if d == 8 {
        "8"
    } else {
        "9"
    };
    assert(r@ =~= seq![digit_char(d as nat)]);
    r
}

fn append_decimal(s: &mut String, n: u8)
    ensures
        final(s)@ == old(s)@ + decimal(n as nat),
    decreases n,
{
    if n >= 10 {
        append_decimal(s, n / 10);
    }
    s.append(digit_str(n % 10));
    assert(old(s)@ + decimal(n as nat) =~= if n >= 10 {
        old(s)@ + decimal((n / 10) as nat) + seq![digit_char((n % 10) as nat)]
    } else {
        old(s)@ + seq![digit_char((n % 10) as nat)]
    });
}

/// "Player n".
pub fn player_name(n: u8) -> (r: String)
    ensures
        r@ == numbered_name(n as nat),
{
    let mut s = String::from_str("Player ");
    append_decimal(&mut s, n);
    s
}

/// A seated player.
pub struct Player {
    pub name: String,
    pub hand: Hand,
    pub human: bool,
    pub bankroll: i64,
    pub wager: i64,
    pub active: bool,
}

impl Player {
    /// Bankroll and wager are never negative and the hand within its bound.
    pub open spec fn wf(&self) -> bool {
        &&& self.hand.wf()
        &&& self.bankroll >= 0
        &&& self.wager >= 0
    }

    /// A human player, active, with an empty idle hand, the starting bankroll
    /// and no wager.
    pub fn new(name: String) -> (r: Player)
        ensures
            r.name@ == name@,
            r.active,
            r.human,
            r.bankroll == STARTING_BANKROLL,
            r.wager == 0,
            r.hand.cards@ == Seq::<Card>::empty(),
            r.hand.state == HandState::Idle,
    {
        Player { active: true, name, hand: Hand::new(), human: true, bankroll: STARTING_BANKROLL, wager: 0 }
    }

    /// Credits `amount` to the bankroll; the bankroll saturates at `i64::MAX`.
    pub fn set_pay(&mut self, amount: i64)
        requires
            amount >= 0,
        ensures
            final(self).bankroll == if old(self).bankroll + amount > i64::MAX {
                i64::MAX as int
            } else {
                old(self).bankroll + amount
            },
            final(self).name == old(self).name,
            final(self).hand == old(self).hand,
            final(self).human == old(self).human,
            final(self).wager == old(self).wager,
            final(self).active == old(self).active,
    {
        if self.bankroll > i64::MAX - amount {
            self.bankroll = i64::MAX;
        } else {
            self.bankroll = self.bankroll + amount;
        }
    }

    /// Places a wager: it is recorded and debited from the bankroll at once.
    pub fn set_wager(&mut self, wager: i64)
        requires
            0 < wager <= old(self).bankroll,
        ensures
            final(self).wager == wager,
            final(self).bankroll == old(self).bankroll - wager,
            final(self).name == old(self).name,
            final(self).hand == old(self).hand,
            final(self).human == old(self).human,
            final(self).active == old(self).active,
    {
        self.bankroll = self.bankroll - wager;
        self.wager = wager;
    }

    /// Clears the wager after settlement.
    pub fn clear_wager(&mut self)
        ensures
            final(self).wager == 0,
            final(self).bankroll == old(self).bankroll,
            final(self).name == old(self).name,
            final(self).hand == old(self).hand,
            final(self).human == old(self).human,
            final(self).active == old(self).active,
    {
        self.wager = 0;
    }

    /// Chooses the decision source: human or automated.
    pub fn set_human(&mut self, is_human: bool)
        ensures
            final(self).human == is_human,
            final(self).name == old(self).name,
            final(self).hand == old(self).hand,
            final(self).bankroll == old(self).bankroll,
            final(self).wager == old(self).wager,
            final(self).active == old(self).active,
    {
        self.human = is_human;
    }

    /// Places the automated wager for a draw from `5..wager_ceiling(bankroll)`.
    pub fn computer_wager_with(&mut self, draw: i64)
        requires
            old(self).bankroll >= 1,
            MIN_AUTO_WAGER <= draw < wager_ceiling(old(self).bankroll as int),
        ensures
            final(self).wager == automated_wager(old(self).bankroll as int, draw as int),
            final(self).bankroll == old(self).bankroll - final(self).wager,
            0 < final(self).wager <= old(self).bankroll,
            final(self).wager <= MAX_AUTO_WAGER,
            final(self).name == old(self).name,
            final(self).hand == old(self).hand,
            final(self).human == old(self).human,
            final(self).active == old(self).active,
    {
        let mut wager = draw;
        if wager > self.bankroll {
            wager = self.bankroll;
        }
        if wager > MAX_AUTO_WAGER {
            wager = MAX_AUTO_WAGER;
        }
        self.set_wager(wager);
    }

    /// Places a random automated wager: a draw from `5..wager_ceiling(bankroll)`
    /// capped by the bankroll and by 100.
    pub fn computer_wager(&mut self)
        requires
            old(self).bankroll >= 1,
        ensures
            exists|draw: int|
                MIN_AUTO_WAGER <= draw < wager_ceiling(old(self).bankroll as int)
                    && final(self).wager == automated_wager(old(self).bankroll as int, draw),
            final(self).bankroll == old(self).bankroll - final(self).wager,
            0 < final(self).wager <= old(self).bankroll,
            final(self).wager <= MAX_AUTO_WAGER,
            final(self).name == old(self).name,
            final(self).hand == old(self).hand,
            final(self).human == old(self).human,
            final(self).active == old(self).active,
    {
        let twentieth = self.bankroll / 20;
        let upper: i64 = if twentieth <= 5 {
            10
        } else {
            twentieth
        };
        let draw = random_in(MIN_AUTO_WAGER as u64, upper as u64) as i64;
        self.computer_wager_with(draw);
    }

    /// The automated decision on the current hand.
    pub fn computer_action(&self) -> (r: Action)
        requires
            self.hand.wf(),
        ensures
            r == automated_action(self.hand.cards@),
    {
        if self.hand.get_total_single() < STAND_THRESHOLD {
            Action::Hit
        } else {
            Action::Stand
        }
    }

    /// Adds a card to the hand.
    pub fn take(&mut self, card: Card)
        requires
            old(self).hand.cards@.len() < MAX_HAND_CARDS,
        ensures
            final(self).hand.cards@ == old(self).hand.cards@.push(card),
            final(self).hand.state == old(self).hand.state,
            final(self).name == old(self).name,
            final(self).human == old(self).human,
            final(self).bankroll == old(self).bankroll,
            final(self).wager == old(self).wager,
            final(self).active == old(self).active,
    {
        self.hand.add(card);
    }
}

} // verus!
