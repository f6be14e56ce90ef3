use vstd::prelude::*;

use crate::color::{color_at, color_index, Color};

verus! {

/// The share, in percent, that each color should hold of the circulating
/// non-fungibles: 42, 30, 16, 8 and 4 for Green, Blue, Red, Orange and Purple.
pub open spec fn target_percent(i: int) -> int {
    if i == 0 {
        42
    } else if i == 1 {
        30
    } else if i == 2 {
        16
    } else if i == 3 {
        8
    } else {
        4
    }
}

/// The number of circulating non-fungibles: the sum of the five color supplies.
pub open spec fn circulating(s: Seq<int>) -> int {
    s[0] + s[1] + s[2] + s[3] + s[4]
}

/// How far color `i` lags behind its target share, in hundredths of a token:
/// its target `circulating * percent / 100` minus its supply, times one hundred.
pub open spec fn deficit(s: Seq<int>, i: int) -> int {
    let c = circulating(s);
    let target = if i == 0 {
        42 * c
    } else if i == 1 {
        30 * c
    } else if i == 2 {
        16 * c
    } else if i == 3 {
        8 * c
    } else {
        4 * c
    };
    target - 100 * s[i]
}

/// `k` is the last of the positions whose deficit is the largest.
pub open spec fn is_last_max(s: Seq<int>, k: int) -> bool {
    &&& 0 <= k < 5
    &&& forall|j: int| 0 <= j < 5 ==> #[trigger] deficit(s, j) <= deficit(s, k)
    &&& forall|j: int| k < j < 5 ==> #[trigger] deficit(s, j) < deficit(s, k)
}

/// The position that the rarity rule picks: the last one of largest deficit.
pub open spec fn last_max_index(s: Seq<int>) -> int {
    choose|k: int| is_last_max(s, k)
}

/// The color of the next non-fungible minted from supplies `s`: Green while
/// nothing circulates, otherwise the color that lags furthest behind its
/// target share, the later color among equals.
pub open spec fn next_color(s: Seq<int>) -> Color {
    if circulating(s) == 0 {
        Color::Green
    } else {
        color_at(last_max_index(s))
    }
}

/// The supplies held in an array of five `i64`, as integers.
pub open spec fn supplies_of(a: Seq<i64>) -> Seq<int> {
    a.map_values(|x: i64| x as int)
}

/// Exactly one position is the last of largest deficit.
pub proof fn lemma_last_max_unique(s: Seq<int>)
    ensures
        is_last_max(s, last_max_index(s)),
        forall|k: int| is_last_max(s, k) ==> k == last_max_index(s),
{
    let d0 = deficit(s, 0);
    let d1 = deficit(s, 1);
    let d2 = deficit(s, 2);
    let d3 = deficit(s, 3);
    let d4 = deficit(s, 4);
    let mut k: int = 0;
    if d1 >= deficit(s, k) {
        k = 1;
    }
    if d2 >= deficit(s, k) {
        k = 2;
    }
    if d3 >= deficit(s, k) {
        k = 3;
    }
    if d4 >= deficit(s, k) {
        k = 4;
    }
    assert(is_last_max(s, k));
    assert forall|a: int, b: int| is_last_max(s, a) && is_last_max(s, b) implies a == b by {
        if a < b {
            assert(deficit(s, b) < deficit(s, a));
            assert(deficit(s, a) <= deficit(s, b));
        } else if b < a {
            assert(deficit(s, a) < deficit(s, b));
            assert(deficit(s, b) <= deficit(s, a));
        }
    }
}

/// Each color's target share in percent, as used by the rarity rule.
fn target_percent_of(i: usize) -> (p: i128)
    ensures
        p == target_percent(i as int),
{
    if i == 0 {
        42
    } else if i == 1 {
        30
    } else if i == 2 {
        16
    } else if i == 3 {
        8
    } else {
        4
    }
}

/// The color of the next non-fungible minted while the color supplies are
/// `supplies` (Green, Blue, Red, Orange, Purple).
pub fn pick_color(supplies: &[i64; 5]) -> (c: Color)
    ensures
        c == next_color(supplies_of(supplies@)),
{
    let ghost s = supplies_of(supplies@);
    assert(s.len() == 5);
    let circ: i128 = supplies[0] as i128 + supplies[1] as i128 + supplies[2] as i128
        + supplies[3] as i128 + supplies[4] as i128;
    assert(circ == circulating(s));
    proof {
        lemma_last_max_unique(s);
    }
    if circ == 0 {
        return Color::Green;
    }
    let mut best: usize = 0;
    let mut best_deficit: i128 = circ * 42 - 100 * (supplies[0] as i128);
    let mut i: usize = 1;
    while i < 5
        invariant
            1 <= i <= 5,
            best < i,
            s == supplies_of(supplies@),
            s.len() == 5,
            circ == circulating(s),
            best_deficit == deficit(s, best as int),
            forall|j: int| 0 <= j < i ==> #[trigger] deficit(s, j) <= best_deficit,
            forall|j: int| best < j < i ==> #[trigger] deficit(s, j) < best_deficit,
            -10000000000000000000000 <= circ <= 10000000000000000000000,
        decreases 5 - i,
    {
        let d: i128 = circ * target_percent_of(i) - 100 * (supplies[i] as i128);
        assert(d == deficit(s, i as int));
        if d >= best_deficit {
            best = i;
            best_deficit = d;
        }
        i = i + 1;
    }
    assert(is_last_max(s, best as int));
    Color::from_index(best)
}

/// Whenever anything circulates, or no supply is negative, the color picked
/// for the next non-fungible holds no more than its target share: its deficit
/// is not negative, since the five deficits add up to zero.
pub proof fn lemma_next_color_within_target(s: Seq<int>)
    requires
        s.len() == 5,
        circulating(s) != 0 || (forall|i: int| 0 <= i < 5 ==> s[i] >= 0),
    ensures
        100 * s[color_index(next_color(s))] <= circulating(s) * target_percent(
            color_index(next_color(s)),
        ),
        deficit(s, color_index(next_color(s))) >= 0,
{
    lemma_last_max_unique(s);
    let k = last_max_index(s);
    assert(deficit(s, 0) + deficit(s, 1) + deficit(s, 2) + deficit(s, 3) + deficit(s, 4) == 0);
    if circulating(s) == 0 {
        assert(s[0] == 0);
    } else {
        assert(deficit(s, 0) <= deficit(s, k));
        assert(deficit(s, 1) <= deficit(s, k));
        assert(deficit(s, 2) <= deficit(s, k));
        assert(deficit(s, 3) <= deficit(s, k));
        assert(deficit(s, 4) <= deficit(s, k));
        assert(color_index(color_at(k)) == k);
    }
}

} // verus!
