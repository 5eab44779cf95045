use vstd::multiset::Multiset;
use vstd::prelude::*;

verus! {

/// Every die of `s` shows a face from 1 to 6.
pub open spec fn valid_faces(s: Seq<u32>) -> bool {
    forall|i: int| 0 <= i < s.len() ==> 1 <= #[trigger] s[i] <= 6
}

/// At least one die of `m` shows face `f`.
pub open spec fn present(m: Multiset<u32>, f: u32) -> bool {
    m.count(f) >= 1
}

/// Each of the six faces shows exactly once.
pub open spec fn is_six_straight(m: Multiset<u32>) -> bool {
    &&& m.count(1) == 1
    &&& m.count(2) == 1
    &&& m.count(3) == 1
    &&& m.count(4) == 1
    &&& m.count(5) == 1
    &&& m.count(6) == 1
}

/// Faces 1 to 5 all show, and the six-dice straight does not apply.
pub open spec fn is_low_straight(m: Multiset<u32>) -> bool {
    &&& !is_six_straight(m)
    &&& present(m, 1)
    &&& present(m, 2)
    &&& present(m, 3)
    &&& present(m, 4)
    &&& present(m, 5)
}

/// Faces 2 to 6 all show, and neither other straight applies.
pub open spec fn is_high_straight(m: Multiset<u32>) -> bool {
    &&& !is_six_straight(m)
    &&& !is_low_straight(m)
    &&& present(m, 2)
    &&& present(m, 3)
    &&& present(m, 4)
    &&& present(m, 5)
    &&& present(m, 6)
}

/// Points from the straight that the dice form, if any.
pub open spec fn straight_points(m: Multiset<u32>) -> nat {
    if is_six_straight(m) {
        1500
    } else if is_low_straight(m) {
        500
    } else if is_high_straight(m) {
        750
    } else {
        0
    }
}

/// How many dice of face `f` are left once the straight has taken its dice.
pub open spec fn left_over(m: Multiset<u32>, f: u32) -> nat {
    if is_six_straight(m) {
        0
    } else if is_low_straight(m) && 1 <= f <= 5 {
        (m.count(f) - 1) as nat
    } else if is_high_straight(m) && 2 <= f <= 6 {
        (m.count(f) - 1) as nat
    } else {
        m.count(f)
    }
}

/// Two to the power `n`.
pub open spec fn doubling(n: nat) -> nat
    decreases n,
{
    if n == 0 {
        1
    } else {
        2 * doubling((n - 1) as nat)
    }
}

/// Value of three of a kind of face `f`.
pub open spec fn triple_base(f: u32) -> nat {
    if f == 1 {
        1000
    } else {
        (100 * f) as nat
    }
}

/// Points from `c` left-over dice of face `f`: a set of three or more
/// doubles its base for each die beyond three; otherwise ones and fives
/// count on their own.
pub open spec fn face_points(f: u32, c: nat) -> nat {
    if c >= 3 {
        triple_base(f) * doubling((c - 3) as nat)
    } else if f == 1 {
        100 * c
    } else if f == 5 {
        50 * c
    } else {
        0
    }
}

/// `c` left-over dice of face `f` all take part in some scoring combination.
pub open spec fn face_scores(f: u32, c: nat) -> bool {
    c == 0 || c >= 3 || f == 1 || f == 5
}

/// The points of a set of dice; the order of the dice plays no part.
pub open spec fn hold_points(s: Seq<u32>) -> nat {
    let m = s.to_multiset();
    straight_points(m) + face_points(1, left_over(m, 1)) + face_points(2, left_over(m, 2))
        + face_points(3, left_over(m, 3)) + face_points(4, left_over(m, 4)) + face_points(
        5,
        left_over(m, 5),
    ) + face_points(6, left_over(m, 6))
}

/// Every die of the set takes part in a scoring combination.
pub open spec fn hold_legal(s: Seq<u32>) -> bool {
    let m = s.to_multiset();
    &&& face_scores(1, left_over(m, 1))
    &&& face_scores(2, left_over(m, 2))
    &&& face_scores(3, left_over(m, 3))
    &&& face_scores(4, left_over(m, 4))
    &&& face_scores(5, left_over(m, 5))
    &&& face_scores(6, left_over(m, 6))
}

/// Scoring looks at which faces show and how often, never at their order.
pub proof fn lemma_score_ignores_order(a: Seq<u32>, b: Seq<u32>)
    requires
        a.to_multiset() == b.to_multiset(),
    ensures
        hold_points(a) == hold_points(b),
        hold_legal(a) == hold_legal(b),
{
}

/// Counts how many dice show each face; entry `f` holds the count of face `f`.
fn count_faces(dice: &Vec<u32>) -> (counts: Vec<u32>)
    requires
        dice.len() <= 6,
        valid_faces(dice@),
    ensures
        counts.len() == 7,
        forall|f: int| 1 <= f <= 6 ==> #[trigger] counts@[f] == dice@.to_multiset().count(f as u32),
        forall|f: int| 1 <= f <= 6 ==> #[trigger] counts@[f] <= 6,
{
    let mut counts: Vec<u32> = vec![0, 0, 0, 0, 0, 0, 0];
    let mut i: usize = 0;
    proof {
        let none = dice@.subrange(0, 0);
        assert(none =~= Seq::<u32>::empty());
        none.to_multiset_ensures();
    }
    while i < dice.len()
        invariant
            0 <= i <= dice.len(),
            dice.len() <= 6,
            valid_faces(dice@),
            counts.len() == 7,
            forall|f: int|
                1 <= f <= 6 ==> #[trigger] counts@[f] == dice@.subrange(0, i as int).to_multiset().count(
                    f as u32,
                ),
            forall|f: int| 1 <= f <= 6 ==> #[trigger] counts@[f] <= i,
        decreases dice.len() - i,
    {
        let d = dice[i];
        proof {
            let s = dice@.subrange(0, i as int);
            assert(dice@.subrange(0, i as int + 1) =~= s.push(d));
            s.to_multiset_ensures();
        }
        let c = counts[d as usize];
        counts.set(d as usize, c + 1);
        i += 1;
    }
    assert(dice@.subrange(0, dice.len() as int) =~= dice@);
    counts
}

/// Points and legality of `c` left-over dice of face `f`.
fn face_value(f: u32, c: u32) -> (r: (u32, bool))
    requires
        1 <= f <= 6,
        c <= 6,
    ensures
        r.0 == face_points(f, c as nat),
        r.1 == face_scores(f, c as nat),
        r.0 <= 8000,
{
    proof {
        reveal_with_fuel(doubling, 4);
    }
    let points: u32 = if c >= 3 {
        let base: u32 = if f == 1 {
            1000
        } else {
            100 * f
        };
        let times: u32 = if c == 3 {
            1
        } else if c == 4 {
            2
        } else if c == 5 {
            4
        } else {
            8
        };
        base * times
    } else if f == 1 {
        100 * c
    } else if f == 5 {
        50 * c
    } else {
        0
    };
    (points, c == 0 || c >= 3 || f == 1 || f == 5)
}

/// Scores a set of dice: the total points, and whether every die takes part
/// in a scoring combination (a hold that a player may set aside).
pub fn score_turn(dice: &Vec<u32>) -> (r: (u32, bool))
    requires
        dice.len() <= 6,
        valid_faces(dice@),
    ensures
        r.0 == hold_points(dice@),
        r.1 == hold_legal(dice@),
{
    let ghost m = dice@.to_multiset();
    let counts = count_faces(dice);
    let six = counts[1] == 1 && counts[2] == 1 && counts[3] == 1 && counts[4] == 1 && counts[5]
        == 1 && counts[6] == 1;
    let low = !six && counts[1] >= 1 && counts[2] >= 1 && counts[3] >= 1 && counts[4] >= 1
        && counts[5] >= 1;
    let high = !six && !low && counts[2] >= 1 && counts[3] >= 1 && counts[4] >= 1 && counts[5]
        >= 1 && counts[6] >= 1;
    assert(six == is_six_straight(m));
    assert(low == is_low_straight(m));
    assert(high == is_high_straight(m));
    let bonus: u32 = if six {
        1500
    } else if low {
        500
    } else if high {
        750
    } else {
        0
    };
    let mut total: u32 = bonus;
    let mut legal: bool = true;
    let mut f: u32 = 1;
    while f <= 6
        invariant
            1 <= f <= 7,
            counts.len() == 7,
            forall|g: int| 1 <= g <= 6 ==> #[trigger] counts@[g] == m.count(g as u32),
            forall|g: int| 1 <= g <= 6 ==> #[trigger] counts@[g] <= 6,
            six == is_six_straight(m),
            low == is_low_straight(m),
            high == is_high_straight(m),
            total <= 1500 + 8000 * (f - 1),
            total == straight_points(m) + points_below(m, f),
            legal == legal_below(m, f),
        decreases 7 - f,
    {
        let c = counts[f as usize];
        let left: u32 = if six {
            0
        } else if (low && f <= 5) || (high && f >= 2) {
            c - 1
        } else {
            c
        };
        assert(left == left_over(m, f));
        let (p, ok) = face_value(f, left);
        total = total + p;
        legal = legal && ok;
        f = f + 1;
    }
    proof {
        reveal_with_fuel(points_below, 7);
        reveal_with_fuel(legal_below, 7);
    }
    (total, legal)
}

/// Points of the left-over dice of the faces below `f`.
pub open spec fn points_below(m: Multiset<u32>, f: u32) -> nat
    decreases f,
{
    if f <= 1 {
        0
    } else {
        points_below(m, (f - 1) as u32) + face_points((f - 1) as u32, left_over(m, (f - 1) as u32))
    }
}

/// The left-over dice of the faces below `f` all score.
pub open spec fn legal_below(m: Multiset<u32>, f: u32) -> bool
    decreases f,
{
    if f <= 1 {
        true
    } else {
        legal_below(m, (f - 1) as u32) && face_scores((f - 1) as u32, left_over(m, (f - 1) as u32))
    }
}

} // verus!
