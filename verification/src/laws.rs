use vstd::prelude::*;

use crate::color::{color_index, Color};
use crate::rarity::{circulating, lemma_next_color_within_target, next_color, target_percent};
use crate::time::{minute_of, utc_supported};
use crate::rrc404::{cooled_down, 
    color_count, lemma_color_count_bounds, lemma_mint_n, melt_all, mint_one,
    minted_colors, mint_n, Rrc404View, ONE_TOKEN,
};

verus! {

/// Freezing keeps the supply whole: fungibles and non-fungibles together make
/// up the same amount as before, the maximum supply does not change, and a
/// reachable state stays reachable.
pub proof fn lemma_freeze_conserves_supply(v: Rrc404View, n: nat)
    requires
        v.wf(),
    ensures
        mint_n(v, n).wf(),
        mint_n(v, n).total_supply() == v.total_supply(),
        mint_n(v, n).max_supply == v.max_supply,
{
    lemma_mint_n(v, n);
}

/// Melting keeps the supply whole: fungibles and non-fungibles together make
/// up the same amount as before, the maximum supply does not change, and a
/// reachable state stays reachable.
pub proof fn lemma_melt_conserves_supply(v: Rrc404View, cs: Seq<Color>)
    requires
        v.wf(),
    ensures
        melt_all(v, cs).wf(),
        melt_all(v, cs).total_supply() == v.total_supply(),
        melt_all(v, cs).max_supply == v.max_supply,
{
    lemma_color_count_bounds(cs);
}

/// In every reachable state the circulating supply, fungibles and
/// non-fungibles together, never exceeds the maximum supply.
pub proof fn lemma_supply_within_max(v: Rrc404View)
    requires
        v.wf(),
    ensures
        v.fungible_supply + ONE_TOKEN * circulating(v.supplies) <= v.max_supply,
{
}

/// Melting the non-fungibles that a freeze minted undoes that freeze: every
/// color supply and the fungible supply are back where they were; only the id
/// counter stays advanced, so ids are never reused.
pub proof fn lemma_melt_undoes_freeze(v: Rrc404View, n: nat)
    requires
        v.supplies.len() == 5,
    ensures
        melt_all(mint_n(v, n), minted_colors(v, n)) == (Rrc404View {
            nft_counter: v.nft_counter + n,
            ..v
        }),
{
    lemma_mint_n(v, n);
    lemma_color_count_bounds(minted_colors(v, n));
    let back = melt_all(mint_n(v, n), minted_colors(v, n));
    assert(back.supplies =~= v.supplies);
}

/// Every non-fungible that a freeze mints from a state without negative supplies
/// takes a color that holds no more than its target share at that moment.
pub proof fn lemma_freeze_respects_targets(v: Rrc404View, n: nat, i: int)
    requires
        v.supplies.len() == 5,
        forall|k: int| 0 <= k < 5 ==> v.supplies[k] >= 0,
        0 <= i < n,
    ensures
        ({
            let s = mint_n(v, i as nat).supplies;
            let k = color_index(minted_colors(v, n)[i]);
            100 * s[k] <= circulating(s) * target_percent(k)
        }),
{
    lemma_mint_n(v, i as nat);
    lemma_color_count_bounds(minted_colors(v, i as nat));
    let s = mint_n(v, i as nat).supplies;
    assert forall|k: int| 0 <= k < 5 implies s[k] >= 0 by {
        assert(color_count(minted_colors(v, i as nat), k) >= 0);
    }
    lemma_next_color_within_target(s);
}

/// Ids only move forward: a freeze of `n` advances the id counter by exactly
/// `n` and a melt leaves it alone, so the ids that one freeze mints (from the
/// counter before it up to the counter after it) are never handed out again.
pub proof fn lemma_id_counter_only_advances(v: Rrc404View, n: nat, cs: Seq<Color>)
    requires
        v.supplies.len() == 5,
    ensures
        mint_n(v, n).nft_counter == v.nft_counter + n,
        melt_all(v, cs).nft_counter == v.nft_counter,
{
    lemma_mint_n(v, n);
}

/// Neither the fungible supply nor any color supply is negative.
pub open spec fn nonnegative(v: Rrc404View) -> bool {
    &&& v.fungible_supply >= 0
    &&& forall|k: int| 0 <= k < 5 ==> #[trigger] v.supplies[k] >= 0
}

/// Every color holds at most one non-fungible more than its target share:
/// `100 * supply <= circulating * percent + 100`.
pub open spec fn within_share(s: Seq<int>) -> bool {
    forall|j: int| 0 <= j < 5 ==> 100 * #[trigger] s[j] <= circulating(s) * target_percent(j) + 100
}

/// Freezing no more whole tokens than the fungible supply holds keeps every
/// supply non-negative.
pub proof fn lemma_freeze_keeps_nonnegative(v: Rrc404View, n: nat)
    requires
        v.supplies.len() == 5,
        nonnegative(v),
        ONE_TOKEN * n <= v.fungible_supply,
    ensures
        nonnegative(mint_n(v, n)),
{
    lemma_mint_n(v, n);
    lemma_color_count_bounds(minted_colors(v, n));
}

/// Melting non-fungibles of which each color supply counts at least as many
/// as are melted keeps every supply non-negative.
pub proof fn lemma_melt_keeps_nonnegative(v: Rrc404View, cs: Seq<Color>)
    requires
        v.supplies.len() == 5,
        nonnegative(v),
        forall|k: int| 0 <= k < 5 ==> color_count(cs, k) <= #[trigger] v.supplies[k],
    ensures
        nonnegative(melt_all(v, cs)),
{
    lemma_color_count_bounds(cs);
}

/// Freezing `a` tokens and then `b` tokens is freezing `a + b` tokens: the
/// same state, the same colors in the same order, and (by the id counter) the
/// same ids.
pub proof fn lemma_freeze_in_two_steps(v: Rrc404View, a: nat, b: nat)
    ensures
        mint_n(mint_n(v, a), b) == mint_n(v, a + b),
        minted_colors(v, a + b) == minted_colors(v, a) + minted_colors(mint_n(v, a), b),
{
    lemma_mint_n_add(v, a, b);
    assert forall|i: int| a <= i < a + b implies mint_n(mint_n(v, a), (i - a) as nat) == #[trigger] mint_n(v, i as nat) by {
        lemma_mint_n_add(v, a, (i - a) as nat);
    }
    assert(minted_colors(v, a + b) =~= minted_colors(v, a) + minted_colors(mint_n(v, a), b));
}

proof fn lemma_mint_n_add(v: Rrc404View, a: nat, b: nat)
    ensures
        mint_n(mint_n(v, a), b) == mint_n(v, a + b),
    decreases b,
{
    if b > 0 {
        lemma_mint_n_add(v, a, (b - 1) as nat);
        assert((a + b - 1) as nat == a + (b - 1) as nat);
    }
}

/// One mint from non-negative supplies within their shares keeps them
/// non-negative and within their shares.
proof fn lemma_mint_one_within_share(v: Rrc404View)
    requires
        v.supplies.len() == 5,
        forall|k: int| 0 <= k < 5 ==> #[trigger] v.supplies[k] >= 0,
        within_share(v.supplies),
    ensures
        forall|k: int| 0 <= k < 5 ==> #[trigger] mint_one(v).supplies[k] >= 0,
        within_share(mint_one(v).supplies),
        mint_one(v).supplies.len() == 5,
{
    let s = v.supplies;
    let k = color_index(next_color(s));
    lemma_next_color_within_target(s);
    let t = mint_one(v).supplies;
    assert(circulating(t) == circulating(s) + 1);
    assert forall|j: int| 0 <= j < 5 implies 100 * #[trigger] t[j] <= circulating(t) * target_percent(j) + 100 by {
        assert(100 * s[j] <= circulating(s) * target_percent(j) + 100);
        assert(circulating(t) * target_percent(j) == circulating(s) * target_percent(j) + target_percent(j)) by (nonlinear_arith)
            requires circulating(t) == circulating(s) + 1;
        assert(target_percent(j) >= 0);
    }
}

/// After freezes alone, starting from non-negative supplies within their
/// shares (such as the empty supplies of a new component), every color holds
/// at most one non-fungible more than its target share.
pub proof fn lemma_freeze_keeps_shares_bounded(v: Rrc404View, n: nat)
    requires
        v.supplies.len() == 5,
        forall|k: int| 0 <= k < 5 ==> #[trigger] v.supplies[k] >= 0,
        within_share(v.supplies),
    ensures
        within_share(mint_n(v, n).supplies),
        forall|k: int| 0 <= k < 5 ==> #[trigger] mint_n(v, n).supplies[k] >= 0,
    decreases n,
{
    if n > 0 {
        lemma_freeze_keeps_shares_bounded(v, (n - 1) as nat);
        lemma_mint_n(v, (n - 1) as nat);
        lemma_mint_one_within_share(mint_n(v, (n - 1) as nat));
    }
}

/// A new component, whose supplies are all zero, starts within its shares.
pub proof fn lemma_empty_within_share(s: Seq<int>)
    requires
        s == seq![0int, 0int, 0int, 0int, 0int],
    ensures
        within_share(s),
{
    assert(circulating(s) == 0);
}

/// A melt of a non-fungible minted at `t` is allowed exactly from the minute in
/// which `t + 4 hours` falls: any earlier minute is refused, whatever the time
/// of day of the mint.
pub proof fn lemma_melt_waits_four_hours(t: i64, now: i64)
    requires
        utc_supported(t as int),
        utc_supported(t + 14400),
    ensures
        cooled_down(t, now) <==> minute_of(now as int) >= minute_of(t + 14400),
        minute_of(now as int) < minute_of(t + 14400) ==> !cooled_down(t, now),
{
}

} // verus!
