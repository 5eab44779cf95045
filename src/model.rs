use vstd::prelude::*;

use crate::scoring::{hold_legal, hold_points, valid_faces};

verus! {

/// One unit of the wagered token, in its smallest denomination.
pub const ONE_XLM: i128 = 10_000_000;

/// What each player stakes on a match.
pub const COST_TO_PLAY: i128 = 3 * ONE_XLM;

/// Share of each stake, in percent, that goes to the house.
pub const FEE_PERCENT: i128 = 2;

/// Ticks a player may stay idle on their own turn before the opponent may
/// claim the match.
pub const FORFEIT_DURATION: u32 = 180;

/// Banked points that end the match.
pub const WINNING_SCORE: u32 = 2000;

/// Why a call was refused. A refused call changes nothing.
#[derive(Clone, Copy, Debug, PartialEq, Eq, Structural)]
pub enum Error {
    /// A deposit that is not positive, or a stored balance below zero.
    InvalidAmount,
    /// The game has not been set up.
    NotInitialized,
    /// A player of a new match is already in one.
    AlreadyPlaying,
    /// A player cannot afford the wager.
    TooPoor,
    /// Another player is to roll.
    NotYourTurn,
    /// The player is in no match, or stored seats do not form one.
    WrongMatch,
    /// The dice picked to hold are not allowed.
    BadDieHold,
}

/// The house's cut of one stake.
pub open spec fn spec_fee() -> int {
    COST_TO_PLAY * FEE_PERCENT / 100
}

/// What the winner receives: both stakes less the house's cut of each.
pub open spec fn spec_payout() -> int {
    2 * COST_TO_PLAY - 2 * spec_fee()
}

/// The model of a seat: whom the player faces, who may roll, the banked and
/// unbanked points, the roll still to be decided on, and the tick of the last
/// roll.
pub struct SeatView {
    pub opponent: u64,
    pub turn: u64,
    pub score: u32,
    pub turn_score: u32,
    pub dice: Seq<u32>,
    pub last_played: u32,
}

/// A fresh seat facing `opponent`, with `first` to roll.
pub open spec fn new_seat(opponent: u64, first: u64, now: u32) -> SeatView {
    SeatView {
        opponent,
        turn: first,
        score: 0,
        turn_score: 0,
        dice: Seq::empty(),
        last_played: now,
    }
}

/// `save` picks distinct positions of `dice`, each within range.
pub open spec fn valid_save(dice: Seq<u32>, save: Seq<u32>) -> bool {
    &&& forall|i: int| 0 <= i < save.len() ==> #[trigger] save[i] < dice.len()
    &&& forall|i: int, j: int| 0 <= i < j < save.len() ==> save[i] != save[j]
}

/// The dice at the positions that `save` picks, in the order of `save`.
pub open spec fn held_dice(dice: Seq<u32>, save: Seq<u32>) -> Seq<u32> {
    Seq::new(save.len(), |i: int| dice[save[i] as int])
}

/// `x`, or the largest `u32` where `x` does not fit.
pub open spec fn capped(x: int) -> u32 {
    if x > u32::MAX {
        u32::MAX
    } else {
        x as u32
    }
}

/// `s` with new points, dice and time of last roll.
pub open spec fn seat_with(s: SeatView, score: u32, turn_score: u32, dice: Seq<u32>, now: u32) -> SeatView {
    SeatView { opponent: s.opponent, turn: s.turn, score, turn_score, dice, last_played: now }
}

/// `s` once its turn is over: nothing unbanked, no roll pending, the
/// opponent to roll.
pub open spec fn seat_passed(s: SeatView) -> SeatView {
    SeatView {
        opponent: s.opponent,
        turn: s.opponent,
        score: s.score,
        turn_score: 0,
        dice: Seq::empty(),
        last_played: s.last_played,
    }
}

/// `s` with `t` to roll.
pub open spec fn seat_turn(s: SeatView, t: u64) -> SeatView {
    SeatView {
        opponent: s.opponent,
        turn: t,
        score: s.score,
        turn_score: s.turn_score,
        dice: s.dice,
        last_played: s.last_played,
    }
}

/// How a call of `roll` ended: the player rolls on, busted, banked the turn
/// and passed, or won the match and its payout.
#[derive(Clone, Copy, Debug, PartialEq, Eq, Structural)]
pub enum Outcome {
    Continue,
    Bust,
    Pass,
    Win { score: u32, payout: i128 },
}

/// The model of the whole game: the escrowed balance of each player who has
/// deposited, and the seat of each player in a match.
pub struct GameView {
    pub balances: Map<u64, i128>,
    pub seats: Map<u64, SeatView>,
}

impl GameView {
    /// The balance of `p`, or -1 where `p` never deposited.
    pub open spec fn balance_of(self, p: u64) -> int {
        if self.balances.contains_key(p) {
            self.balances[p] as int
        } else {
            -1
        }
    }

    /// The funds of `p`, where a player who never deposited has none.
    pub open spec fn funds(self, p: u64) -> int {
        if self.balances.contains_key(p) {
            self.balances[p] as int
        } else {
            0
        }
    }

    /// The seat of `p` is consistent with that of its opponent.
    pub open spec fn seat_ok(self, p: u64) -> bool {
        let s = self.seats[p];
        let o = s.opponent;
        &&& o != p
        &&& self.seats.contains_key(o)
        &&& self.seats[o].opponent == p
        &&& self.seats[o].turn == s.turn
        &&& (s.turn == p || s.turn == o)
        &&& s.dice.len() <= 6
        &&& valid_faces(s.dice)
        &&& s.score < WINNING_SCORE
    }

    /// No balance is negative, and matches pair players two by two.
    pub open spec fn wf(self) -> bool {
        &&& forall|p: u64| #[trigger] self.balances.contains_key(p) ==> self.balances[p] >= 0
        &&& forall|p: u64| #[trigger] self.seats.contains_key(p) ==> self.seat_ok(p)
    }

    pub open spec fn with_balance(self, p: u64, b: i128) -> GameView {
        GameView { balances: self.balances.insert(p, b), seats: self.seats }
    }

    pub open spec fn without_balance(self, p: u64) -> GameView {
        GameView { balances: self.balances.remove(p), seats: self.seats }
    }

    /// Why `engage(a, b)` is refused, if it is.
    pub open spec fn engage_error(self, a: u64, b: u64) -> Option<Error> {
        if a == b || self.seats.contains_key(a) || self.seats.contains_key(b) {
            Some(Error::AlreadyPlaying)
        } else if self.balance_of(a) < COST_TO_PLAY || self.balance_of(b) < COST_TO_PLAY {
            Some(Error::TooPoor)
        } else {
            None
        }
    }

    /// The game once `a` and `b` have each staked the wager and sat down to a
    /// match in which `first` rolls first.
    pub open spec fn engaged(self, a: u64, b: u64, first: u64, now: u32) -> GameView {
        GameView {
            balances: self.balances.insert(a, (self.balances[a] - COST_TO_PLAY) as i128).insert(
                b,
                (self.balances[b] - COST_TO_PLAY) as i128,
            ),
            seats: self.seats.insert(a, new_seat(b, first, now)).insert(b, new_seat(a, first, now)),
        }
    }

    /// Why `roll(player, save, stop)` is refused, if it is.
    pub open spec fn roll_error(self, player: u64, save: Seq<u32>, stop: bool) -> Option<Error> {
        if !self.seats.contains_key(player) {
            Some(Error::WrongMatch)
        } else if self.seats[player].turn != player {
            Some(Error::NotYourTurn)
        } else {
            let dice = self.seats[player].dice;
            let held = held_dice(dice, save);
            if dice.len() == 0 {
                if save.len() == 0 {
                    None
                } else {
                    Some(Error::BadDieHold)
                }
            } else if save.len() > dice.len() {
                Some(Error::BadDieHold)
            } else if save.len() == 0 && !stop {
                Some(Error::BadDieHold)
            } else if !valid_save(dice, save) {
                Some(Error::BadDieHold)
            } else if !hold_legal(held) {
                Some(Error::BadDieHold)
            } else if hold_points(held) == 0 && !stop {
                Some(Error::BadDieHold)
            } else {
                None
            }
        }
    }

    /// How many fresh dice `roll(player, save, stop)` rolls: six at the start
    /// of a turn or once every die is held, none on stopping, else the dice
    /// not held.
    pub open spec fn dice_to_draw(self, player: u64, save: Seq<u32>, stop: bool) -> nat {
        let dice = self.seats[player].dice;
        if dice.len() == 0 {
            6
        } else if stop {
            0
        } else if save.len() == dice.len() {
            6
        } else {
            (dice.len() - save.len()) as nat
        }
    }

    pub open spec fn put(self, p: u64, s: SeatView) -> GameView {
        GameView { balances: self.balances, seats: self.seats.insert(p, s) }
    }

    /// The game once `p`, now seated as `s`, hands the turn to its opponent.
    pub open spec fn passed(self, p: u64, s: SeatView) -> GameView {
        GameView {
            balances: self.balances,
            seats: self.seats.insert(p, seat_passed(s)).insert(
                s.opponent,
                seat_turn(self.seats[s.opponent], s.opponent),
            ),
        }
    }

    /// The game once the match of `p` is over: both seats are gone.
    pub open spec fn ended(self, p: u64) -> GameView {
        GameView { balances: self.balances, seats: self.seats.remove(p).remove(self.seats[p].opponent) }
    }

    /// The game, and how the call ended, after `roll(player, save, stop)` at
    /// tick `now` with `fresh` as the dice drawn.
    pub open spec fn rolled(
        self,
        player: u64,
        save: Seq<u32>,
        stop: bool,
        now: u32,
        fresh: Seq<u32>,
    ) -> (GameView, Outcome) {
        let s = self.seats[player];
        let hs = hold_points(held_dice(s.dice, save));
        if s.dice.len() > 0 && stop {
            let total = capped(s.score + s.turn_score + hs);
            if total >= WINNING_SCORE {
                (self.ended(player), Outcome::Win { score: total, payout: spec_payout() as i128 })
            } else {
                (self.passed(player, seat_with(s, total, s.turn_score, s.dice, now)), Outcome::Pass)
            }
        } else {
            let ts = if s.dice.len() > 0 {
                capped(s.turn_score + hs)
            } else {
                s.turn_score
            };
            if hold_points(fresh) == 0 {
                (self.passed(player, seat_with(s, s.score, ts, s.dice, now)), Outcome::Bust)
            } else {
                (self.put(player, seat_with(s, s.score, ts, fresh, now)), Outcome::Continue)
            }
        }
    }

    /// `p` has stalled on its own turn for at least the forfeit period.
    pub open spec fn stalled(self, p: u64, now: u32) -> bool {
        &&& self.seats.contains_key(p)
        &&& self.seats[p].turn == p
        &&& now >= self.seats[p].last_played + FORFEIT_DURATION
    }

    /// `sa` and `sb` seat `a` and `b` in one consistent match, and neither
    /// player is in a match yet.
    pub open spec fn can_restore(self, a: u64, sa: SeatView, b: u64, sb: SeatView) -> bool {
        &&& a != b
        &&& !self.seats.contains_key(a)
        &&& !self.seats.contains_key(b)
        &&& sa.opponent == b
        &&& sb.opponent == a
        &&& sa.turn == sb.turn
        &&& (sa.turn == a || sa.turn == b)
        &&& sa.dice.len() <= 6
        &&& valid_faces(sa.dice)
        &&& sa.score < WINNING_SCORE
        &&& sb.dice.len() <= 6
        &&& valid_faces(sb.dice)
        &&& sb.score < WINNING_SCORE
    }
}

} // verus!
