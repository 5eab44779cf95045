use farkle::{Error, Farkle, Outcome};

const ALICE: u64 = 1;
const BOB: u64 = 2;
const CAROL: u64 = 3;

fn funded() -> Farkle {
    let mut g = Farkle::new();
    let stake = Farkle::wager();
    assert_eq!(g.deposit(ALICE, 2 * stake), Ok(2 * stake));
    assert_eq!(g.deposit(BOB, stake), Ok(stake));
    g
}

fn matched() -> Farkle {
    let mut g = funded();
    assert_eq!(g.engage(ALICE, BOB, 100, true), Ok(ALICE));
    g
}

#[test]
fn constants_of_the_game() {
    assert_eq!(Farkle::version(), 1);
    assert_eq!(Farkle::wager(), 30_000_000);
    assert_eq!(Farkle::fee(), 600_000);
    assert_eq!(Farkle::get_payout(), 58_800_000);
}

#[test]
fn deposit_accumulates() {
    let mut g = Farkle::new();
    assert_eq!(g.balance(ALICE), -1);
    assert_eq!(g.deposit(ALICE, 1000), Ok(1000));
    assert_eq!(g.deposit(ALICE, 1000), Ok(2000));
    assert_eq!(g.balance(ALICE), 2000);
}

#[test]
fn deposit_refuses_non_positive_amounts() {
    let mut g = Farkle::new();
    assert_eq!(g.deposit(ALICE, 0), Err(Error::InvalidAmount));
    assert_eq!(g.deposit(ALICE, -5), Err(Error::InvalidAmount));
    assert_eq!(g.balance(ALICE), -1);
}

#[test]
fn withdraw_after_deposit_round_trips() {
    let mut g = Farkle::new();
    assert_eq!(g.deposit(CAROL, 500), Ok(500));
    assert_eq!(g.withdraw(CAROL), 500);
    assert_eq!(g.balance(CAROL), -1);
    assert_eq!(g.withdraw(CAROL), 0);
}

#[test]
fn withdraw_without_deposit_pays_nothing() {
    let mut g = Farkle::new();
    assert_eq!(g.withdraw(ALICE), 0);
    assert_eq!(g.balance(ALICE), -1);
}

#[test]
fn engage_holds_both_stakes() {
    let g = matched();
    let stake = Farkle::wager();
    assert_eq!(g.balance(ALICE), stake);
    assert_eq!(g.balance(BOB), 0);
    assert_eq!(g.opponent(ALICE), Some(BOB));
    assert_eq!(g.opponent(BOB), Some(ALICE));
    assert_eq!(g.score(ALICE), 0);
}

#[test]
fn engage_picks_second_player_on_other_bit() {
    let mut g = funded();
    assert_eq!(g.engage(ALICE, BOB, 0, false), Ok(BOB));
    assert_eq!(g.dice_needed(ALICE, &vec![], false), Err(Error::NotYourTurn));
    assert_eq!(g.dice_needed(BOB, &vec![], false), Ok(6));
}

#[test]
fn engage_is_all_or_nothing() {
    let mut g = Farkle::new();
    let stake = Farkle::wager();
    assert_eq!(g.deposit(ALICE, stake), Ok(stake));
    assert_eq!(g.deposit(BOB, stake - 1), Ok(stake - 1));
    assert_eq!(g.engage(ALICE, BOB, 0, true), Err(Error::TooPoor));
    assert_eq!(g.balance(ALICE), stake);
    assert_eq!(g.balance(BOB), stake - 1);
    assert_eq!(g.opponent(ALICE), None);
    assert_eq!(g.opponent(BOB), None);
    assert_eq!(g.engage(ALICE, CAROL, 0, true), Err(Error::TooPoor));
    assert_eq!(g.balance(ALICE), stake);
}

#[test]
fn engage_refuses_players_in_a_match() {
    let mut g = matched();
    assert_eq!(g.deposit(CAROL, Farkle::wager()), Ok(Farkle::wager()));
    assert_eq!(g.engage(CAROL, BOB, 0, true), Err(Error::AlreadyPlaying));
    assert_eq!(g.engage(ALICE, CAROL, 0, true), Err(Error::AlreadyPlaying));
    assert_eq!(g.engage(CAROL, CAROL, 0, true), Err(Error::AlreadyPlaying));
    assert_eq!(g.balance(CAROL), Farkle::wager());
}

#[test]
fn roll_outside_a_match_is_refused() {
    let mut g = funded();
    assert_eq!(g.roll(ALICE, &vec![], false, 0, &vec![1, 1, 1, 1, 1, 1]).err(), Some(Error::WrongMatch));
}

#[test]
fn roll_out_of_turn_is_refused() {
    let mut g = matched();
    assert_eq!(g.roll(BOB, &vec![], false, 0, &vec![1, 1, 1, 1, 1, 1]).err(), Some(Error::NotYourTurn));
}

#[test]
fn first_roll_of_a_turn_holds_nothing() {
    let mut g = matched();
    assert_eq!(g.dice_needed(ALICE, &vec![0], false), Err(Error::BadDieHold));
    assert_eq!(g.roll(ALICE, &vec![0], false, 0, &vec![1, 1, 1, 1, 1, 1]).err(), Some(Error::BadDieHold));
}

#[test]
fn fresh_roll_then_reroll_of_the_rest() {
    let mut g = matched();
    assert_eq!(g.dice_needed(ALICE, &vec![], false), Ok(6));
    let r = g.roll(ALICE, &vec![], false, 101, &vec![1, 2, 2, 3, 4, 6]).unwrap();
    assert_eq!(r.outcome, Outcome::Continue);
    assert_eq!(r.dice, vec![1, 2, 2, 3, 4, 6]);
    assert!(!r.resolved);
    assert_eq!(g.dice_needed(ALICE, &vec![0], false), Ok(5));
    let r = g.roll(ALICE, &vec![0], false, 102, &vec![5, 2, 3, 4, 6]).unwrap();
    assert_eq!(r.outcome, Outcome::Continue);
    assert!(r.resolved);
    assert_eq!(r.held, vec![1]);
    assert_eq!(r.held_score, 100);
    assert_eq!(r.dice, vec![5, 2, 3, 4, 6]);
    // all five dice held: hot dice, six fresh ones
    assert_eq!(g.dice_needed(ALICE, &vec![0, 1, 2, 3, 4], false), Ok(6));
    assert_eq!(g.dice_needed(ALICE, &vec![0, 1, 2, 3, 4], true), Ok(0));
    let r = g.roll(ALICE, &vec![0, 1, 2, 3, 4], true, 103, &vec![]).unwrap();
    assert_eq!(r.outcome, Outcome::Pass);
    assert_eq!(r.held_score, 750);
    assert!(r.dice.is_empty());
    assert_eq!(g.score(ALICE), 850);
    assert_eq!(g.dice_needed(ALICE, &vec![], false), Err(Error::NotYourTurn));
    assert_eq!(g.dice_needed(BOB, &vec![], false), Ok(6));
}

#[test]
fn holding_a_non_scoring_die_is_refused() {
    let mut g = matched();
    g.roll(ALICE, &vec![], false, 101, &vec![1, 2, 2, 3, 4, 6]).unwrap();
    for bad in [vec![1], vec![0, 1], vec![3], vec![0, 5], vec![1, 2]] {
        assert_eq!(g.dice_needed(ALICE, &bad, false), Err(Error::BadDieHold));
        assert_eq!(g.dice_needed(ALICE, &bad, true), Err(Error::BadDieHold));
        assert_eq!(g.roll(ALICE, &bad, true, 102, &vec![]).err(), Some(Error::BadDieHold));
    }
    assert_eq!(g.score(ALICE), 0);
    assert_eq!(g.dice_needed(ALICE, &vec![0], false), Ok(5));
}

#[test]
fn bad_indices_are_refused() {
    let mut g = matched();
    g.roll(ALICE, &vec![], false, 101, &vec![1, 5, 2, 2, 3, 4]).unwrap();
    // a die picked twice
    assert_eq!(g.dice_needed(ALICE, &vec![0, 0], false), Err(Error::BadDieHold));
    // a position past the roll
    assert_eq!(g.dice_needed(ALICE, &vec![6], false), Err(Error::BadDieHold));
    // more picks than dice
    assert_eq!(g.dice_needed(ALICE, &vec![0, 1, 0, 1, 0, 1, 0], false), Err(Error::BadDieHold));
    // holding nothing without stopping
    assert_eq!(g.dice_needed(ALICE, &vec![], false), Err(Error::BadDieHold));
    assert_eq!(g.dice_needed(ALICE, &vec![0, 1], false), Ok(4));
}

#[test]
fn stopping_with_nothing_held_banks_the_turn() {
    let mut g = matched();
    g.roll(ALICE, &vec![], false, 101, &vec![1, 5, 2, 2, 3, 4]).unwrap();
    g.roll(ALICE, &vec![0, 1], false, 102, &vec![2, 2, 3, 1]).unwrap();
    let r = g.roll(ALICE, &vec![], true, 103, &vec![]).unwrap();
    assert_eq!(r.outcome, Outcome::Pass);
    assert!(r.resolved);
    assert_eq!(r.held_score, 0);
    assert_eq!(g.score(ALICE), 150);
}

#[test]
fn bust_passes_the_turn_and_loses_the_turn_points() {
    let mut g = matched();
    g.roll(ALICE, &vec![], false, 101, &vec![1, 5, 2, 2, 3, 4]).unwrap();
    let r = g.roll(ALICE, &vec![0, 1], false, 102, &vec![2, 2, 3, 4]).unwrap();
    assert_eq!(r.outcome, Outcome::Bust);
    assert_eq!(r.dice, vec![2, 2, 3, 4]);
    assert_eq!(g.score(ALICE), 0);
    assert_eq!(g.dice_needed(ALICE, &vec![], false), Err(Error::NotYourTurn));
    let r = g.roll(BOB, &vec![], false, 103, &vec![2, 3, 4, 6, 2, 3]).unwrap();
    assert_eq!(r.outcome, Outcome::Bust);
    assert_eq!(g.dice_needed(ALICE, &vec![], false), Ok(6));
}

#[test]
fn reaching_2000_wins_and_ends_the_match() {
    let mut g = matched();
    let stake = Farkle::wager();
    let r = g.roll(ALICE, &vec![], false, 101, &vec![1, 1, 1, 5, 5, 5]).unwrap();
    assert_eq!(r.outcome, Outcome::Continue);
    assert_eq!(g.dice_needed(ALICE, &vec![0, 1, 2, 3, 4, 5], false), Ok(6));
    let r = g.roll(ALICE, &vec![0, 1, 2, 3, 4, 5], false, 102, &vec![1, 1, 1, 1, 2, 3]).unwrap();
    assert_eq!(r.outcome, Outcome::Continue);
    assert_eq!(r.held_score, 1500);
    let r = g.roll(ALICE, &vec![0, 1, 2, 3], true, 103, &vec![]).unwrap();
    assert_eq!(r.outcome, Outcome::Win { score: 3500, payout: 58_800_000 });
    assert!(r.dice.is_empty());
    assert_eq!(g.opponent(ALICE), None);
    assert_eq!(g.opponent(BOB), None);
    assert_eq!(g.score(ALICE), 0);
    assert_eq!(g.score(BOB), 0);
    assert_eq!(g.balance(ALICE), stake);
    assert_eq!(g.balance(BOB), 0);
    assert_eq!(g.roll(ALICE, &vec![], false, 104, &vec![1, 1, 1, 1, 1, 1]).err(), Some(Error::WrongMatch));
    assert_eq!(g.roll(BOB, &vec![], false, 104, &vec![1, 1, 1, 1, 1, 1]).err(), Some(Error::WrongMatch));
    assert_eq!(g.withdraw(BOB), 0);
    assert_eq!(g.withdraw(ALICE), stake);
}

#[test]
fn banked_points_below_2000_pass_the_turn() {
    let mut g = matched();
    g.roll(ALICE, &vec![], false, 101, &vec![1, 1, 1, 5, 5, 5]).unwrap();
    let r = g.roll(ALICE, &vec![0, 1, 2], true, 102, &vec![]).unwrap();
    assert_eq!(r.outcome, Outcome::Pass);
    assert_eq!(g.score(ALICE), 1000);
    g.roll(BOB, &vec![], false, 103, &vec![2, 2, 2, 3, 4, 6]).unwrap();
    g.roll(BOB, &vec![0, 1, 2], true, 104, &vec![]).unwrap();
    assert_eq!(g.score(BOB), 200);
    g.roll(ALICE, &vec![], false, 105, &vec![5, 5, 5, 5, 2, 3]).unwrap();
    let r = g.roll(ALICE, &vec![0, 1, 2, 3], true, 106, &vec![]).unwrap();
    assert_eq!(r.outcome, Outcome::Win { score: 2000, payout: Farkle::get_payout() });
}

#[test]
fn forfeit_needs_a_stall_on_own_turn() {
    let mut g = matched();
    assert!(!g.forfeit(ALICE, 279));
    assert!(!g.forfeit(ALICE, 50));
    assert!(!g.forfeit(BOB, 10_000));
    assert!(!g.forfeit(CAROL, 10_000));
    assert_eq!(g.opponent(ALICE), Some(BOB));
    assert!(g.forfeit(ALICE, 280));
    assert_eq!(g.opponent(ALICE), None);
    assert_eq!(g.opponent(BOB), None);
}

#[test]
fn rolling_resets_the_forfeit_clock() {
    let mut g = matched();
    g.roll(ALICE, &vec![], false, 200, &vec![1, 2, 2, 3, 4, 6]).unwrap();
    assert!(!g.forfeit(ALICE, 379));
    assert!(g.forfeit(ALICE, 380));
}

#[test]
fn end_match_needs_the_right_pair() {
    let mut g = matched();
    assert!(!g.end_match(ALICE, CAROL));
    assert!(!g.end_match(CAROL, ALICE));
    assert_eq!(g.opponent(ALICE), Some(BOB));
    assert!(g.end_match(BOB, ALICE));
    assert_eq!(g.opponent(ALICE), None);
    assert_eq!(g.opponent(BOB), None);
}

#[test]
fn full_match_replay() {
    let mut g = Farkle::new();
    let balance: i128 = 1000 * 10_000_000;
    assert_eq!(g.deposit(ALICE, balance), Ok(balance));
    assert_eq!(g.deposit(ALICE, balance), Ok(balance * 2));
    assert_eq!(g.deposit(BOB, balance), Ok(balance));
    assert_eq!(g.balance(ALICE), balance * 2);
    assert_eq!(g.balance(BOB), balance);

    assert_eq!(g.engage(ALICE, BOB, 1, true), Ok(ALICE));
    assert_eq!(g.balance(ALICE), balance * 2 - Farkle::wager());

    let steps: [(u64, Vec<u32>, bool, Vec<u32>); 15] = [
        (ALICE, vec![], false, vec![6, 1, 6, 2, 4, 5]),
        (ALICE, vec![1, 5], false, vec![1, 1, 5, 5]),
        (ALICE, vec![0, 1, 2, 3], false, vec![5, 4, 5, 5, 6, 4]),
        (ALICE, vec![0, 2, 3], false, vec![6, 6, 5]),
        (ALICE, vec![2], false, vec![3, 1]),
        (ALICE, vec![1], true, vec![]),
        (BOB, vec![], false, vec![3, 1, 5, 3, 4, 3]),
        (BOB, vec![0, 1, 2, 3, 5], true, vec![]),
        (ALICE, vec![], false, vec![6, 5, 5, 5, 2, 6]),
        (ALICE, vec![1, 2, 3], false, vec![1, 3, 2]),
        (ALICE, vec![0], true, vec![]),
        (BOB, vec![], true, vec![2, 3, 6, 6, 6, 4]),
        (BOB, vec![2, 3, 4], true, vec![]),
        (ALICE, vec![], false, vec![1, 2, 3, 1, 1, 5]),
        (ALICE, vec![0, 3, 4, 5], true, vec![]),
    ];
    let mut now: u32 = 1;
    let mut lens = Vec::new();
    for (player, save, stop, fresh) in steps.iter() {
        now += 1;
        assert_eq!(g.dice_needed(*player, save, *stop), Ok(fresh.len() as u32));
        let r = g.roll(*player, save, *stop, now, fresh).unwrap();
        lens.push(r.dice.len());
        if now == 7 {
            assert_eq!(g.score(ALICE), 1100);
        }
        if now == 9 {
            assert_eq!(g.score(BOB), 450);
        }
        if now == 12 {
            assert_eq!(g.score(ALICE), 1100 + 600);
        }
        if now == 14 {
            assert_eq!(g.score(BOB), 450 + 600);
        }
        if now == 16 {
            assert_eq!(r.outcome, Outcome::Win { score: 2750, payout: Farkle::get_payout() });
        }
    }
    assert_eq!(lens, vec![6, 4, 6, 3, 2, 0, 6, 0, 6, 3, 0, 6, 0, 6, 0]);
    assert_eq!(g.score(ALICE), 0);
    assert_eq!(g.score(BOB), 0);
    assert_eq!(g.opponent(ALICE), None);
    assert_eq!(g.withdraw(BOB), balance - Farkle::wager());
    assert_eq!(g.balance(BOB), -1);
}
