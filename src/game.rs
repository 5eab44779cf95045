use std::collections::HashMap;
use vstd::multiset::Multiset;
use vstd::prelude::*;

use crate::laws::{lemma_ended_wf, lemma_rolled_wf};
use crate::model::{
    held_dice, seat_passed, seat_turn, seat_with, spec_fee, spec_payout, valid_save, Error, GameView,
    Outcome, SeatView, COST_TO_PLAY, FEE_PERCENT, FORFEIT_DURATION, WINNING_SCORE,
};
use crate::scoring::{hold_legal, hold_points, score_turn, valid_faces};

verus! {

broadcast use vstd::std_specs::hash::group_hash_axioms;

/// A player's place in a running match, as stored between calls.
pub struct Seat {
    pub opponent: u64,
    pub turn: u64,
    pub score: u32,
    pub turn_score: u32,
    pub dice: Vec<u32>,
    pub last_played: u32,
}

impl View for Seat {
    type V = SeatView;

    open spec fn view(&self) -> SeatView {
        SeatView {
            opponent: self.opponent,
            turn: self.turn,
            score: self.score,
            turn_score: self.turn_score,
            dice: self.dice@,
            last_played: self.last_played,
        }
    }
}

/// What a call of `roll` did: the dice rolled (none when the player stops),
/// whether a pending roll was decided on, the dice held from it and their
/// points, and how the call ended.
pub struct Roll {
    pub dice: Vec<u32>,
    pub resolved: bool,
    pub held: Vec<u32>,
    pub held_score: u32,
    pub outcome: Outcome,
}

/// A hold that has been checked: the dice held, their points, and how many
/// dice to roll next.
struct Hold {
    held: Vec<u32>,
    score: u32,
    draw: u32,
}

/// Whether every die of `dice` shows a face from 1 to 6.
fn check_faces(dice: &Vec<u32>) -> (r: bool)
    ensures
        r == valid_faces(dice@),
{
    let mut i: usize = 0;
    while i < dice.len()
        invariant
            0 <= i <= dice.len(),
            forall|k: int| 0 <= k < i ==> 1 <= #[trigger] dice@[k] <= 6,
        decreases dice.len() - i,
    {
        if dice[i] < 1 || dice[i] > 6 {
            return false;
        }
        i += 1;
    }
    true
}

/// Whether `seat` faces `q`, holds a valid pending roll and a score below
/// the winning score.
fn check_seat(seat: &Seat, q: u64) -> (r: bool)
    ensures
        r == (seat.opponent == q && seat.dice.len() <= 6 && valid_faces(seat.dice@) && seat.score
            < WINNING_SCORE),
{
    seat.opponent == q && seat.dice.len() <= 6 && check_faces(&seat.dice) && seat.score < WINNING_SCORE
}

/// A copy of `v`.
fn copy_dice(v: &Vec<u32>) -> (r: Vec<u32>)
    ensures
        r@ == v@,
{
    let mut r: Vec<u32> = Vec::new();
    let mut i: usize = 0;
    while i < v.len()
        invariant
            0 <= i <= v.len(),
            r@ == v@.subrange(0, i as int),
        decreases v.len() - i,
    {
        r.push(v[i]);
        assert(v@.subrange(0, i as int + 1) =~= v@.subrange(0, i as int).push(v@[i as int]));
        i += 1;
    }
    assert(v@.subrange(0, v.len() as int) =~= v@);
    r
}

/// The game: escrowed balances, and the state of every running match.
pub struct Farkle {
    balances: HashMap<u64, i128>,
    seats: HashMap<u64, Seat>,
}

impl View for Farkle {
    type V = GameView;

    closed spec fn view(&self) -> GameView {
        GameView { balances: self.balances@, seats: self.seats@.map_values(|s: Seat| s@) }
    }
}

impl Farkle {
    pub open spec fn wf(&self) -> bool {
        self@.wf()
    }

    /// A game with no deposits and no matches.
    pub fn new() -> (r: Farkle)
        ensures
            r.wf(),
            r@.balances.is_empty(),
            r@.seats.is_empty(),
    {
        let r = Farkle { balances: HashMap::new(), seats: HashMap::new() };
        assert(r@.seats =~= Map::empty());
        r
    }

    /// The version of the game's rules and interface.
    pub fn version() -> (r: u32)
        ensures
            r == 1,
    {
        1
    }

    /// What each player stakes on a match.
    pub fn wager() -> (r: i128)
        ensures
            r == COST_TO_PLAY,
    {
        COST_TO_PLAY
    }

    /// The house's cut of one stake, paid out when the stake is held.
    pub fn fee() -> (r: i128)
        ensures
            r == spec_fee(),
    {
        COST_TO_PLAY * FEE_PERCENT / 100
    }

    /// What the winner of a match receives.
    pub fn get_payout() -> (r: i128)
        ensures
            r == spec_payout(),
    {
        2 * COST_TO_PLAY - 2 * Self::fee()
    }

    /// The balance that `player` holds in the game, or -1 where the player
    /// never deposited.
    pub fn balance(&self, player: u64) -> (r: i128)
        requires
            self.wf(),
        ensures
            r == self@.balance_of(player),
    {
        match self.balances.get(&player) {
            Some(b) => *b,
            None => -1,
        }
    }

    /// Credits `amount`, which the player has transferred in, to the balance
    /// of `by`, and returns the new balance. A non-positive amount is refused.
    pub fn deposit(&mut self, by: u64, amount: i128) -> (r: Result<i128, Error>)
        requires
            old(self).wf(),
            old(self)@.funds(by) + amount <= i128::MAX,
        ensures
            final(self).wf(),
            amount <= 0 ==> r == Err::<i128, Error>(Error::InvalidAmount) && final(self)@
                == old(self)@,
            amount > 0 ==> r == Ok::<i128, Error>((old(self)@.funds(by) + amount) as i128)
                && final(self)@ == old(self)@.with_balance(by, (old(self)@.funds(by) + amount) as i128),
    {
        if amount <= 0 {
            return Err(Error::InvalidAmount);
        }
        let current: i128 = match self.balances.get(&by) {
            Some(b) => *b,
            None => 0,
        };
        let balance = current + amount;
        self.balances.insert(by, balance);
        proof {
            assert(self@.balances =~= old(self)@.balances.insert(by, balance));
            assert(self@.seats =~= old(self)@.seats);
        }
        Ok(balance)
    }

    /// Pays out the whole balance of `from` and clears the entry; returns the
    /// amount paid out, which is zero where there is nothing to pay.
    pub fn withdraw(&mut self, from: u64) -> (r: i128)
        requires
            old(self).wf(),
        ensures
            final(self).wf(),
            r == if old(self)@.balance_of(from) > 0 {
                old(self)@.balance_of(from)
            } else {
                0
            },
            final(self)@ == if old(self)@.balance_of(from) > 0 {
                old(self)@.without_balance(from)
            } else {
                old(self)@
            },
    {
        let balance = self.balance(from);
        if balance > 0 {
            self.balances.remove(&from);
            proof {
                assert(self@.balances =~= old(self)@.balances.remove(from));
                assert(self@.seats =~= old(self)@.seats);
            }
            balance
        } else {
            0
        }
    }

    /// Takes the wager out of the balance of `player`, who can afford it.
    fn hold_balance(&mut self, player: u64)
        requires
            old(self).wf(),
            old(self)@.balance_of(player) >= COST_TO_PLAY,
        ensures
            final(self)@ == old(self)@.with_balance(
                player,
                (old(self)@.balances[player] - COST_TO_PLAY) as i128,
            ),
            final(self).wf(),
    {
        let balance = self.balance(player);
        self.balances.insert(player, balance - COST_TO_PLAY);
        proof {
            assert(self@.balances =~= old(self)@.balances.insert(player, (balance - COST_TO_PLAY) as i128));
            assert(self@.seats =~= old(self)@.seats);
        }
    }

    /// Starts a match between `a` and `b`: both stakes are held, and the
    /// player that the random bit `a_first` picks rolls first. Returns that
    /// player. Refused, with nothing changed, where either player is already
    /// in a match or cannot afford the wager.
    pub fn engage(&mut self, a: u64, b: u64, now: u32, a_first: bool) -> (r: Result<u64, Error>)
        requires
            old(self).wf(),
        ensures
            final(self).wf(),
            match old(self)@.engage_error(a, b) {
                Some(e) => r == Err::<u64, Error>(e) && final(self)@ == old(self)@,
                None => r == Ok::<u64, Error>(if a_first { a } else { b }) && final(self)@
                    == old(self)@.engaged(a, b, if a_first { a } else { b }, now),
            },
    {
        if a == b || self.seats.contains_key(&a) || self.seats.contains_key(&b) {
            return Err(Error::AlreadyPlaying);
        }
        if self.balance(a) < COST_TO_PLAY || self.balance(b) < COST_TO_PLAY {
            return Err(Error::TooPoor);
        }
        self.hold_balance(a);
        self.hold_balance(b);
        let first = if a_first { a } else { b };
        let ghost before = self@;
        self.seats.insert(
            a,
            Seat { opponent: b, turn: first, score: 0, turn_score: 0, dice: Vec::new(), last_played: now },
        );
        self.seats.insert(
            b,
            Seat { opponent: a, turn: first, score: 0, turn_score: 0, dice: Vec::new(), last_played: now },
        );
        proof {
            let target = old(self)@.engaged(a, b, first, now);
            assert(self@.seats =~= target.seats);
            assert(self@.balances =~= target.balances);
            assert forall|p: u64| #[trigger] self@.seats.contains_key(p) implies self@.seat_ok(p) by {
                if p != a && p != b {
                    assert(old(self)@.seat_ok(p));
                }
            }
        }
        Ok(first)
    }

    /// Checks a hold against the pending roll of `player`.
    fn check_roll(&self, player: u64, save: &Vec<u32>, stop: bool) -> (r: Result<Hold, Error>)
        requires
            self.wf(),
        ensures
            match r {
                Err(e) => self@.roll_error(player, save@, stop) == Some(e),
                Ok(h) => {
                    let dice = self@.seats[player].dice;
                    &&& self@.roll_error(player, save@, stop) is None
                    &&& h.draw == self@.dice_to_draw(player, save@, stop)
                    &&& h.held@ == if dice.len() > 0 {
                        held_dice(dice, save@)
                    } else {
                        Seq::empty()
                    }
                    &&& h.score == hold_points(h.held@)
                },
            },
    {
        let seat = match self.seats.get(&player) {
            Some(s) => s,
            None => {
                return Err(Error::WrongMatch);
            },
        };
        if seat.turn != player {
            return Err(Error::NotYourTurn);
        }
        let n = seat.dice.len();
        if n == 0 {
            if save.len() == 0 {
                let held: Vec<u32> = Vec::new();
                proof {
                    held@.to_multiset_ensures();
                    assert(held@.to_multiset() =~= Multiset::empty());
                }
                return Ok(Hold { held, score: 0, draw: 6 });
            } else {
                return Err(Error::BadDieHold);
            }
        }
        if save.len() > n {
            return Err(Error::BadDieHold);
        }
        if save.len() == 0 && !stop {
            return Err(Error::BadDieHold);
        }
        let ghost dice = seat.dice@;
        assert(self@.seats[player].dice == dice);
        let ghost verdict = if !valid_save(dice, save@) {
            Some(Error::BadDieHold)
        } else if !hold_legal(held_dice(dice, save@)) {
            Some(Error::BadDieHold)
        } else if hold_points(held_dice(dice, save@)) == 0 && !stop {
            Some(Error::BadDieHold)
        } else {
            None
        };
        assert(self@.roll_error(player, save@, stop) == verdict);
        let mut held: Vec<u32> = Vec::new();
        let mut i: usize = 0;
        while i < save.len()
            invariant
                self@.roll_error(player, save@, stop) == verdict,
                verdict == if !valid_save(dice, save@) {
                    Some(Error::BadDieHold)
                } else if !hold_legal(held_dice(dice, save@)) {
                    Some(Error::BadDieHold)
                } else if hold_points(held_dice(dice, save@)) == 0 && !stop {
                    Some(Error::BadDieHold)
                } else {
                    None
                },
                dice == seat.dice@,
                n == dice.len(),
                n <= 6,
                valid_faces(dice),
                save.len() <= n,
                0 <= i <= save.len(),
                held@ == held_dice(dice, save@.subrange(0, i as int)),
                forall|k: int| 0 <= k < i ==> #[trigger] save@[k] < n,
                forall|k: int, l: int| 0 <= k < l < i ==> save@[k] != save@[l],
            decreases save.len() - i,
        {
            let idx = save[i];
            if idx as usize >= n {
                assert(!valid_save(dice, save@));
                return Err(Error::BadDieHold);
            }
            let mut j: usize = 0;
            while j < i
                invariant
                    self@.roll_error(player, save@, stop) == verdict,
                    !valid_save(dice, save@) ==> verdict == Some(Error::BadDieHold),
                    0 <= j <= i,
                    i < save.len(),
                    idx == save@[i as int],
                    forall|k: int| 0 <= k < j ==> #[trigger] save@[k] != idx,
                decreases i - j,
            {
                if save[j] == idx {
                    assert(save@[j as int] == save@[i as int]);
                    assert(!valid_save(dice, save@));
                    return Err(Error::BadDieHold);
                }
                j += 1;
            }
            held.push(seat.dice[idx as usize]);
            assert(held_dice(dice, save@.subrange(0, i as int + 1)) =~= held_dice(
                dice,
                save@.subrange(0, i as int),
            ).push(dice[idx as int]));
            i += 1;
        }
        assert(save@.subrange(0, save.len() as int) =~= save@);
        let (points, legal) = score_turn(&held);
        if !legal {
            return Err(Error::BadDieHold);
        }
        if points == 0 && !stop {
            return Err(Error::BadDieHold);
        }
        let draw: u32 = if stop {
            0
        } else if save.len() == n {
            6
        } else {
            (n - save.len()) as u32
        };
        Ok(Hold { held, score: points, draw })
    }

    /// How many fresh dice `roll(player, save, stop)` needs, or why it will
    /// be refused.
    pub fn dice_needed(&self, player: u64, save: &Vec<u32>, stop: bool) -> (r: Result<u32, Error>)
        requires
            self.wf(),
        ensures
            match r {
                Err(e) => self@.roll_error(player, save@, stop) == Some(e),
                Ok(n) => self@.roll_error(player, save@, stop) is None && n == self@.dice_to_draw(
                    player,
                    save@,
                    stop,
                ),
            },
    {
        match self.check_roll(player, save, stop) {
            Ok(h) => Ok(h.draw),
            Err(e) => Err(e),
        }
    }

    /// Seats `seat`, the player `from` whose turn is over, and gives the turn
    /// to its opponent.
    fn pass_turn(&mut self, from: u64, seat: Seat)
        requires
            !old(self)@.seats.contains_key(from),
            old(self)@.seats.contains_key(seat@.opponent),
        ensures
            final(self)@ == (GameView {
                balances: old(self)@.balances,
                seats: old(self)@.seats.insert(from, seat_passed(seat@)).insert(
                    seat@.opponent,
                    seat_turn(old(self)@.seats[seat@.opponent], seat@.opponent),
                ),
            }),
    {
        let to = seat.opponent;
        let ghost passed = seat_passed(seat@);
        let mut seat = seat;
        seat.turn = to;
        seat.turn_score = 0;
        seat.dice = Vec::new();
        assert(seat@ == passed);
        self.seats.insert(from, seat);
        let ghost mid = self.seats@;
        let mut other = match self.seats.remove(&to) {
            Some(t) => t,
            None => {
                return;
            },
        };
        other.turn = to;
        self.seats.insert(to, other);
        proof {
            assert(self.seats@ == mid.insert(to, other));
            assert(self@.seats =~= old(self)@.seats.insert(from, passed).insert(
                to,
                seat_turn(old(self)@.seats[to], to),
            ));
        }
    }

    /// Takes one step of the turn of `player`. With no roll pending, `save`
    /// must be empty and six fresh dice are rolled. Otherwise `save` picks
    /// the dice to hold from the pending roll; every held die must score.
    /// Stopping banks the turn, which wins the match at the winning score
    /// and else passes the turn; going on rolls the dice not held, or six
    /// fresh ones once all are held. A fresh roll that scores nothing is a
    /// bust: the unbanked points are lost and the turn passes. `fresh` holds
    /// the dice drawn for this call, as many as `dice_needed` says.
    pub fn roll(&mut self, player: u64, save: &Vec<u32>, stop: bool, now: u32, fresh: &Vec<u32>) -> (r:
        Result<Roll, Error>)
        requires
            old(self).wf(),
            valid_faces(fresh@),
            old(self)@.roll_error(player, save@, stop) is None ==> fresh@.len() == old(
                self,
            )@.dice_to_draw(player, save@, stop),
        ensures
            final(self).wf(),
            match r {
                Err(e) => old(self)@.roll_error(player, save@, stop) == Some(e) && final(self)@
                    == old(self)@,
                Ok(roll) => {
                    let s = old(self)@.seats[player];
                    let held = held_dice(s.dice, save@);
                    &&& old(self)@.roll_error(player, save@, stop) is None
                    &&& (final(self)@, roll.outcome) == old(self)@.rolled(
                        player,
                        save@,
                        stop,
                        now,
                        fresh@,
                    )
                    &&& roll.resolved == (s.dice.len() > 0)
                    &&& roll.dice@ == if s.dice.len() > 0 && stop {
                        Seq::empty()
                    } else {
                        fresh@
                    }
                    &&& roll.held@ == if s.dice.len() > 0 {
                        held
                    } else {
                        Seq::empty()
                    }
                    &&& roll.held_score == hold_points(roll.held@)
                },
            },
    {
        let hold = match self.check_roll(player, save, stop) {
            Ok(h) => h,
            Err(e) => {
                return Err(e);
            },
        };
        let ghost v = self@;
        proof {
            lemma_rolled_wf(v, player, save@, stop, now, fresh@);
        }
        let mut seat = match self.seats.remove(&player) {
            Some(s) => s,
            None => {
                return Err(Error::WrongMatch);
            },
        };
        let ghost s = seat@;
        assert(s == v.seats[player]);
        assert(v.seat_ok(player));
        let o = seat.opponent;
        let resolved = seat.dice.len() > 0;
        seat.last_played = now;
        if resolved && stop {
            let total64: u64 = seat.score as u64 + seat.turn_score as u64 + hold.score as u64;
            let total: u32 = if total64 > u32::MAX as u64 {
                u32::MAX
            } else {
                total64 as u32
            };
            if total >= WINNING_SCORE {
                self.seats.remove(&o);
                proof {
                    assert(self@.seats =~= v.ended(player).seats);
                }
                let outcome = Outcome::Win { score: total, payout: Self::get_payout() };
                return Ok(Roll { dice: Vec::new(), resolved, held: hold.held, held_score: hold.score, outcome });
            } else {
                seat.score = total;
                self.pass_turn(player, seat);
                proof {
                    assert(self@.seats =~= v.passed(player, seat_with(s, total, s.turn_score, s.dice, now)).seats);
                }
                return Ok(Roll { dice: Vec::new(), resolved, held: hold.held, held_score: hold.score, outcome: Outcome::Pass });
            }
        }
        if resolved {
            let ts64: u64 = seat.turn_score as u64 + hold.score as u64;
            seat.turn_score = if ts64 > u32::MAX as u64 {
                u32::MAX
            } else {
                ts64 as u32
            };
        }
        let ghost ts = seat.turn_score;
        let (points, _) = score_turn(fresh);
        if points == 0 {
            self.pass_turn(player, seat);
            proof {
                assert(self@.seats =~= v.passed(player, seat_with(s, s.score, ts, s.dice, now)).seats);
            }
            Ok(Roll { dice: copy_dice(fresh), resolved, held: hold.held, held_score: hold.score, outcome: Outcome::Bust })
        } else {
            seat.dice = copy_dice(fresh);
            let ghost placed = seat@;
            self.seats.insert(player, seat);
            proof {
                assert(placed == seat_with(s, s.score, ts, fresh@, now));
                assert(self@.seats =~= v.put(player, placed).seats);
            }
            Ok(Roll { dice: copy_dice(fresh), resolved, held: hold.held, held_score: hold.score, outcome: Outcome::Continue })
        }
    }

    /// The opponent of `player`, where the player is in a match.
    pub fn opponent(&self, player: u64) -> (r: Option<u64>)
        requires
            self.wf(),
        ensures
            r == if self@.seats.contains_key(player) {
                Some(self@.seats[player].opponent)
            } else {
                None::<u64>
            },
    {
        match self.seats.get(&player) {
            Some(s) => Some(s.opponent),
            None => None,
        }
    }

    /// Ends the match of `player` and `opp`, with no payout; returns whether
    /// the two were in a match together.
    pub fn end_match(&mut self, player: u64, opp: u64) -> (r: bool)
        requires
            old(self).wf(),
        ensures
            final(self).wf(),
            r == (old(self)@.seats.contains_key(player) && old(self)@.seats[player].opponent == opp),
            r ==> final(self)@ == old(self)@.ended(player),
            !r ==> final(self)@ == old(self)@,
    {
        let paired = match self.seats.get(&player) {
            Some(s) => s.opponent == opp,
            None => false,
        };
        if paired {
            self.remove_match(player, opp);
        }
        paired
    }

    /// Removes both seats of the match of `player` and `opp`.
    fn remove_match(&mut self, player: u64, opp: u64)
        requires
            old(self).wf(),
            old(self)@.seats.contains_key(player),
            old(self)@.seats[player].opponent == opp,
        ensures
            final(self).wf(),
            final(self)@ == old(self)@.ended(player),
    {
        self.seats.remove(&player);
        self.seats.remove(&opp);
        proof {
            assert(self@.seats =~= old(self)@.ended(player).seats);
            lemma_ended_wf(old(self)@, player);
        }
    }

    /// Awards the match to the opponent of `player` where `player` has
    /// stalled on its own turn for at least the forfeit period, as of tick
    /// `now`; returns whether it did. The opponent is then owed the payout.
    /// Otherwise nothing changes.
    pub fn forfeit(&mut self, player: u64, now: u32) -> (r: bool)
        requires
            old(self).wf(),
        ensures
            final(self).wf(),
            r == old(self)@.stalled(player, now),
            r ==> final(self)@ == old(self)@.ended(player),
            !r ==> final(self)@ == old(self)@,
    {
        let (opp, turn, last) = match self.seats.get(&player) {
            Some(s) => (s.opponent, s.turn, s.last_played),
            None => {
                return false;
            },
        };
        if turn != player {
            return false;
        }
        if now < last || now - last < FORFEIT_DURATION {
            return false;
        }
        self.remove_match(player, opp);
        true
    }

    /// A copy of the seat of `player`, where the player is in a match.
    pub fn seat(&self, player: u64) -> (r: Option<Seat>)
        requires
            self.wf(),
        ensures
            match r {
                Some(s) => self@.seats.contains_key(player) && s@ == self@.seats[player],
                None => !self@.seats.contains_key(player),
            },
    {
        match self.seats.get(&player) {
            Some(s) => Some(
                Seat {
                    opponent: s.opponent,
                    turn: s.turn,
                    score: s.score,
                    turn_score: s.turn_score,
                    dice: copy_dice(&s.dice),
                    last_played: s.last_played,
                },
            ),
            None => None,
        }
    }

    /// Puts back a stored balance. A negative amount is refused.
    pub fn restore_balance(&mut self, player: u64, amount: i128) -> (r: Result<(), Error>)
        requires
            old(self).wf(),
        ensures
            final(self).wf(),
            amount < 0 ==> r == Err::<(), Error>(Error::InvalidAmount) && final(self)@ == old(self)@,
            amount >= 0 ==> r == Ok::<(), Error>(()) && final(self)@ == old(self)@.with_balance(player, amount),
    {
        if amount < 0 {
            return Err(Error::InvalidAmount);
        }
        self.balances.insert(player, amount);
        proof {
            assert(self@.balances =~= old(self)@.balances.insert(player, amount));
            assert(self@.seats =~= old(self)@.seats);
        }
        Ok(())
    }

    /// Puts back the stored seats of a running match between `a` and `b`.
    /// Seats that do not form one consistent match, or a player already in
    /// a match, are refused.
    pub fn restore_match(&mut self, a: u64, sa: Seat, b: u64, sb: Seat) -> (r: Result<(), Error>)
        requires
            old(self).wf(),
        ensures
            final(self).wf(),
            old(self)@.can_restore(a, sa@, b, sb@) ==> r == Ok::<(), Error>(()) && final(self)@
                == (GameView {
                    balances: old(self)@.balances,
                    seats: old(self)@.seats.insert(a, sa@).insert(b, sb@),
                }),
            !old(self)@.can_restore(a, sa@, b, sb@) ==> r == Err::<(), Error>(Error::WrongMatch)
                && final(self)@ == old(self)@,
    {
        if a == b || self.seats.contains_key(&a) || self.seats.contains_key(&b) {
            return Err(Error::WrongMatch);
        }
        if sa.turn != sb.turn || (sa.turn != a && sa.turn != b) {
            return Err(Error::WrongMatch);
        }
        if !check_seat(&sa, b) || !check_seat(&sb, a) {
            return Err(Error::WrongMatch);
        }
        let ghost va = sa@;
        let ghost vb = sb@;
        self.seats.insert(a, sa);
        self.seats.insert(b, sb);
        proof {
            let target = old(self)@.seats.insert(a, va).insert(b, vb);
            assert(self@.seats =~= target);
            assert(self@.balances =~= old(self)@.balances);
            assert forall|p: u64| #[trigger] self@.seats.contains_key(p) implies self@.seat_ok(p) by {
                if p != a && p != b {
                    assert(old(self)@.seat_ok(p));
                }
            }
        }
        Ok(())
    }

    /// The banked points of `player` in their match, or 0 outside a match.
    pub fn score(&self, player: u64) -> (r: u32)
        requires
            self.wf(),
        ensures
            r == if self@.seats.contains_key(player) {
                self@.seats[player].score
            } else {
                0
            },
    {
        match self.seats.get(&player) {
            Some(s) => s.score,
            None => 0,
        }
    }
}

} // verus!
