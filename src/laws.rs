use vstd::multiset::Multiset;
use vstd::prelude::*;

use crate::model::{held_dice, spec_payout, Error, GameView, Outcome, WINNING_SCORE};
use crate::scoring::{hold_legal, hold_points, valid_faces};

verus! {

/// Every call of `roll` that is not refused leaves a well-formed game: in
/// particular no running match holds a banked score of the winning score or
/// more.
pub proof fn lemma_rolled_wf(
    v: GameView,
    player: u64,
    save: Seq<u32>,
    stop: bool,
    now: u32,
    fresh: Seq<u32>,
)
    requires
        v.wf(),
        v.roll_error(player, save, stop) is None,
        valid_faces(fresh),
        fresh.len() == v.dice_to_draw(player, save, stop),
    ensures
        v.rolled(player, save, stop, now, fresh).0.wf(),
{
    let s = v.seats[player];
    let o = s.opponent;
    assert(v.seat_ok(player));
    assert(v.seat_ok(o));
    let w = v.rolled(player, save, stop, now, fresh).0;
    assert forall|p: u64| #[trigger] w.seats.contains_key(p) implies w.seat_ok(p) by {
        if p != player && p != o {
            assert(v.seat_ok(p));
            let q = v.seats[p].opponent;
            assert(v.seat_ok(q));
        }
    }
}

/// Ending a match keeps the game well-formed.
pub proof fn lemma_ended_wf(v: GameView, p: u64)
    requires
        v.wf(),
        v.seats.contains_key(p),
    ensures
        v.ended(p).wf(),
{
    let o = v.seats[p].opponent;
    assert(v.seat_ok(p));
    let w = v.ended(p);
    assert forall|q: u64| #[trigger] w.seats.contains_key(q) implies w.seat_ok(q) by {
        assert(v.seat_ok(q));
        let r = v.seats[q].opponent;
        assert(v.seat_ok(r));
    }
}

/// A step of a turn that is not refused ends in exactly one way. A win
/// pays the fixed payout, and the match is over for both players. A bust
/// or a pass hands the turn to the opponent. Otherwise the player rolls on
/// with the fresh dice pending. In every case no running match holds the
/// winning score.
pub proof fn lemma_turn_outcome(
    v: GameView,
    player: u64,
    save: Seq<u32>,
    stop: bool,
    now: u32,
    fresh: Seq<u32>,
)
    requires
        v.wf(),
        v.roll_error(player, save, stop) is None,
        valid_faces(fresh),
        fresh.len() == v.dice_to_draw(player, save, stop),
    ensures
        ({
            let (w, out) = v.rolled(player, save, stop, now, fresh);
            let o = v.seats[player].opponent;
            &&& w.wf()
            &&& forall|p: u64| #[trigger] w.seats.contains_key(p) ==> w.seats[p].score < WINNING_SCORE
            &&& w.balances == v.balances
            &&& match out {
                Outcome::Win { score, payout } => {
                    &&& score >= WINNING_SCORE
                    &&& payout == spec_payout()
                    &&& !w.seats.contains_key(player)
                    &&& !w.seats.contains_key(o)
                },
                Outcome::Pass => {
                    &&& w.seats[player].turn == o
                    &&& w.seats[o].turn == o
                    &&& w.seats[player].turn_score == 0
                    &&& w.seats[player].dice.len() == 0
                },
                Outcome::Bust => {
                    &&& hold_points(fresh) == 0
                    &&& w.seats[player].score == v.seats[player].score
                    &&& w.seats[player].turn == o
                    &&& w.seats[o].turn == o
                    &&& w.seats[player].turn_score == 0
                    &&& w.seats[player].dice.len() == 0
                },
                Outcome::Continue => {
                    &&& hold_points(fresh) > 0
                    &&& w.seats[player].turn == player
                    &&& w.seats[player].dice == fresh
                },
            }
        }),
{
    lemma_rolled_wf(v, player, save, stop, now, fresh);
    let w = v.rolled(player, save, stop, now, fresh).0;
    assert forall|p: u64| #[trigger] w.seats.contains_key(p) implies w.seats[p].score
        < WINNING_SCORE by {
        assert(w.seat_ok(p));
    }
    assert(v.seat_ok(player));
}

/// Once a step of a turn wins the match, neither of its players can roll
/// until they are matched again.
pub proof fn lemma_no_roll_after_win(
    v: GameView,
    player: u64,
    save: Seq<u32>,
    stop: bool,
    now: u32,
    fresh: Seq<u32>,
    p: u64,
    next_save: Seq<u32>,
    next_stop: bool,
)
    requires
        v.wf(),
        v.roll_error(player, save, stop) is None,
        v.rolled(player, save, stop, now, fresh).1 is Win,
        p == player || p == v.seats[player].opponent,
    ensures
        v.rolled(player, save, stop, now, fresh).0.roll_error(p, next_save, next_stop) == Some(
            Error::WrongMatch,
        ),
{
}

/// Holding a die that does not score is refused, whatever else is held.
pub proof fn lemma_non_scoring_hold_refused(v: GameView, player: u64, save: Seq<u32>, stop: bool)
    requires
        v.seats.contains_key(player),
        v.seats[player].turn == player,
        v.seats[player].dice.len() > 0,
        !hold_legal(held_dice(v.seats[player].dice, save)),
    ensures
        v.roll_error(player, save, stop) == Some(Error::BadDieHold),
{
    if save.len() == 0 {
        let held = held_dice(v.seats[player].dice, save);
        held.to_multiset_ensures();
        assert(held.to_multiset() =~= Multiset::empty());
    }
}

/// With nothing held before, withdrawing right after a deposit of `amount`
/// pays out exactly `amount` and leaves no balance entry.
pub proof fn lemma_deposit_withdraw_round_trip(v: GameView, p: u64, amount: i128)
    requires
        v.wf(),
        amount > 0,
        v.funds(p) == 0,
    ensures
        ({
            let w = v.with_balance(p, (v.funds(p) + amount) as i128);
            &&& w.balance_of(p) == amount
            &&& w.balance_of(p) > 0
            &&& !w.without_balance(p).balances.contains_key(p)
            &&& w.without_balance(p).seats == v.seats
            &&& w.without_balance(p).balances == v.balances.remove(p)
        }),
{
    let w = v.with_balance(p, (v.funds(p) + amount) as i128);
    assert(w.without_balance(p).balances =~= v.balances.remove(p));
}

} // verus!
