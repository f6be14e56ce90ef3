use vstd::prelude::*;

use crate::color::{color_index, color_url, lemma_color_index_roundtrip, Color};
use crate::rarity::{circulating, next_color, pick_color, supplies_of};
use crate::time::{cooldown_end, cooldown_end_spec, is_at_or_after_minute, minute_of};

verus! {

/// The number of attos (units of 10^-18) in one whole token; amounts of tokens
/// are counted in attos, as scrypto's `Decimal` stores them.
pub const ONE_TOKEN: i128 = 1000000000000000000;

/// The data that each Ice non-fungible carries.
#[derive(Clone, Debug)]
pub struct Rrc404NFT {
    /// The image of the non-fungible's color.
    pub key_image_url: String,
    pub color: Color,
    /// The address of the fungible resource it was frozen from.
    pub fungible_address: Vec<u8>,
    /// When it was minted, in Unix seconds rounded down to the minute.
    pub last_roll: i64,
}

/// A non-fungible to mint: its integer local id and its data.
#[derive(Clone, Debug)]
pub struct MintedNft {
    pub id: u64,
    pub data: Rrc404NFT,
}

/// What a successful freeze hands back: the non-fungibles to mint, the amount
/// of the deposit to burn and the change to return, in attos.
#[derive(Clone, Debug)]
pub struct FreezeReceipt {
    pub nfts: Vec<MintedNft>,
    pub burned: i128,
    pub change: i128,
}

/// Why a conversion is refused.
#[derive(PartialEq, Eq, Structural, Clone, Copy, Debug)]
pub enum Rrc404Error {
    /// The tokens handed in are not of the component's resource.
    IncorrectResourceAddress,
    /// A non-fungible handed in to melt was minted less than
    /// `COOLDOWN_HOURS` ago.
    CooldownNotOver,
}

/// The state of an Ice component: the two resources it converts between and
/// the supplies it tracks.
pub struct Rrc404 {
    rrc404_fungible: Vec<u8>,
    rrc404_nft: Vec<u8>,
    nft_counter: u64,
    max_supply: i128,
    fungible_supply: i128,
    color_supplies: [i64; 5],
}

/// The abstract state of an Ice component. Amounts are in attos; the color
/// supplies count non-fungibles, in the order Green, Blue, Red, Orange, Purple.
pub struct Rrc404View {
    pub fungible_address: Seq<u8>,
    pub nft_address: Seq<u8>,
    pub nft_counter: int,
    pub max_supply: int,
    pub fungible_supply: int,
    pub supplies: Seq<int>,
}

impl View for Rrc404 {
    type V = Rrc404View;

    closed spec fn view(&self) -> Rrc404View {
        Rrc404View {
            fungible_address: self.rrc404_fungible@,
            nft_address: self.rrc404_nft@,
            nft_counter: self.nft_counter as int,
            max_supply: self.max_supply as int,
            fungible_supply: self.fungible_supply as int,
            supplies: supplies_of(self.color_supplies@),
        }
    }
}

impl Rrc404View {
    /// Fungibles and non-fungibles together: one token per non-fungible plus the
    /// fungible supply, in attos.
    pub open spec fn total_supply(self) -> int {
        self.fungible_supply + ONE_TOKEN * circulating(self.supplies)
    }

    /// A consistent state: five color supplies, ids start at 1, and fungibles
    /// and non-fungibles together make up exactly the maximum supply. Every
    /// state that the component reaches is consistent; that its supplies also
    /// stay non-negative is stated by the laws on freezing and melting.
    pub open spec fn wf(self) -> bool {
        &&& self.supplies.len() == 5
        &&& self.nft_counter >= 1
        &&& self.total_supply() == self.max_supply
    }
}

/// The state after minting one more non-fungible: the color that the rarity
/// rule picks gains one, the id counter moves on and one fungible token is
/// taken out of the fungible supply.
pub open spec fn mint_one(v: Rrc404View) -> Rrc404View {
    let k = color_index(next_color(v.supplies));
    Rrc404View {
        fungible_address: v.fungible_address,
        nft_address: v.nft_address,
        nft_counter: v.nft_counter + 1,
        max_supply: v.max_supply,
        fungible_supply: v.fungible_supply - ONE_TOKEN,
        supplies: v.supplies.update(k, v.supplies[k] + 1),
    }
}

/// The state after minting `n` non-fungibles one after another.
pub open spec fn mint_n(v: Rrc404View, n: nat) -> Rrc404View
    decreases n,
{
    if n == 0 {
        v
    } else {
        mint_one(mint_n(v, (n - 1) as nat))
    }
}

/// The colors of the first `n` non-fungibles minted from state `v`, in order.
pub open spec fn minted_colors(v: Rrc404View, n: nat) -> Seq<Color> {
    Seq::new(n, |i: int| next_color(mint_n(v, i as nat).supplies))
}

/// How many of `cs` have the color at position `k`.
pub open spec fn color_count(cs: Seq<Color>, k: int) -> int
    decreases cs.len(),
{
    if cs.len() == 0 {
        0
    } else {
        color_count(cs.drop_last(), k) + if color_index(cs.last()) == k {
            1int
        } else {
            0int
        }
    }
}

/// The colors of a list of non-fungibles.
pub open spec fn colors_of(nfts: Seq<Rrc404NFT>) -> Seq<Color> {
    nfts.map_values(|n: Rrc404NFT| n.color)
}

/// The state after melting non-fungibles of colors `cs`: each color loses
/// as many as `cs` holds of it, and one fungible token comes back per
/// non-fungible.
pub open spec fn melt_all(v: Rrc404View, cs: Seq<Color>) -> Rrc404View {
    Rrc404View {
        fungible_address: v.fungible_address,
        nft_address: v.nft_address,
        nft_counter: v.nft_counter,
        max_supply: v.max_supply,
        fungible_supply: v.fungible_supply + ONE_TOKEN * cs.len(),
        supplies: Seq::new(5, |k: int| v.supplies[k] - color_count(cs, k)),
    }
}

/// The state that a component's stored fields describe.
pub open spec fn stored_view(
    fungible_address: &Vec<u8>,
    nft_address: &Vec<u8>,
    nft_counter: u64,
    max_supply: i128,
    fungible_supply: i128,
    color_supplies: [i64; 5],
) -> Rrc404View {
    Rrc404View {
        fungible_address: fungible_address@,
        nft_address: nft_address@,
        nft_counter: nft_counter as int,
        max_supply: max_supply as int,
        fungible_supply: fungible_supply as int,
        supplies: supplies_of(color_supplies@),
    }
}

/// The `i`-th non-fungible minted by a freeze from state `v` at time `now`.
pub open spec fn is_minted(m: MintedNft, v: Rrc404View, i: int, now: i64) -> bool {
    &&& m.id == v.nft_counter + i
    &&& m.data.color == next_color(mint_n(v, i as nat).supplies)
    &&& m.data.key_image_url@ == color_url(m.data.color)
    &&& m.data.fungible_address@ == v.fungible_address
    &&& m.data.last_roll == now
}

/// A non-fungible minted at `last_roll` may be melted at `now`: the minute of
/// `now` is at or after the minute in which its cooldown ends.
pub open spec fn cooled_down(last_roll: i64, now: i64) -> bool {
    match cooldown_end_spec(last_roll as int) {
        Some(end) => minute_of(now as int) >= minute_of(end),
        None => false,
    }
}

/// The calendar can express when each of `nfts` cools down.
pub open spec fn cooldowns_defined(nfts: Seq<Rrc404NFT>) -> bool {
    forall|i: int| 0 <= i < nfts.len() ==> (#[trigger] cooldown_end_spec(nfts[i].last_roll as int)) is Some
}

/// Counting by color: adding one color to a list adds one to its count.
proof fn lemma_color_count_push(cs: Seq<Color>, c: Color, k: int)
    ensures
        color_count(cs.push(c), k) == color_count(cs, k) + if color_index(c) == k {
            1int
        } else {
            0int
        },
{
    assert(cs.push(c).drop_last() =~= cs);
}

/// Counting by color over a prefix never gives more than over the whole list.
proof fn lemma_color_count_prefix(cs: Seq<Color>, i: int)
    requires
        0 <= i <= cs.len(),
    ensures
        forall|k: int| #[trigger] color_count(cs.take(i), k) <= color_count(cs, k),
    decreases cs.len() - i,
{
    if i < cs.len() {
        lemma_color_count_prefix(cs, i + 1);
        assert forall|k: int| #[trigger] color_count(cs.take(i), k) <= color_count(cs, k) by {
            assert(cs.take(i + 1) =~= cs.take(i).push(cs[i]));
            lemma_color_count_push(cs.take(i), cs[i], k);
        }
    } else {
        assert(cs.take(i) =~= cs);
    }
}

/// A count by color lies between nought and the length of the list, and the
/// five counts add up to the length.
pub proof fn lemma_color_count_bounds(cs: Seq<Color>)
    ensures
        forall|k: int| 0 <= #[trigger] color_count(cs, k) <= cs.len(),
        color_count(cs, 0) + color_count(cs, 1) + color_count(cs, 2) + color_count(cs, 3)
            + color_count(cs, 4) == cs.len(),
    decreases cs.len(),
{
    if cs.len() > 0 {
        lemma_color_count_bounds(cs.drop_last());
        lemma_color_index_roundtrip(cs.last());
        assert forall|k: int| 0 <= #[trigger] color_count(cs, k) <= cs.len() by {
            assert(0 <= color_count(cs.drop_last(), k) <= cs.drop_last().len());
        }
    }
}

/// Minting `n` from `v`: the counter moves on by `n`, `n` tokens leave the
/// fungible supply, and each color gains as many as were minted of it.
pub proof fn lemma_mint_n(v: Rrc404View, n: nat)
    requires
        v.supplies.len() == 5,
    ensures
        mint_n(v, n).fungible_address == v.fungible_address,
        mint_n(v, n).nft_address == v.nft_address,
        mint_n(v, n).max_supply == v.max_supply,
        mint_n(v, n).nft_counter == v.nft_counter + n,
        mint_n(v, n).fungible_supply == v.fungible_supply - ONE_TOKEN * n,
        mint_n(v, n).supplies.len() == 5,
        forall|k: int|
            0 <= k < 5 ==> #[trigger] mint_n(v, n).supplies[k] == v.supplies[k] + color_count(
                minted_colors(v, n),
                k,
            ),
        circulating(mint_n(v, n).supplies) == circulating(v.supplies) + n,
    decreases n,
{
    if n > 0 {
        let m = (n - 1) as nat;
        lemma_mint_n(v, m);
        let prev = mint_n(v, m);
        let c = next_color(prev.supplies);
        lemma_color_index_roundtrip(c);
        assert(minted_colors(v, n) =~= minted_colors(v, m).push(c));
        assert forall|k: int| 0 <= k < 5 implies #[trigger] mint_n(v, n).supplies[k]
            == v.supplies[k] + color_count(minted_colors(v, n), k) by {
            lemma_color_count_push(minted_colors(v, m), c, k);
        }
        let s = mint_n(v, n).supplies;
        assert(s[0] + s[1] + s[2] + s[3] + s[4] == circulating(prev.supplies) + 1);
    }
}

/// Byte strings compared one byte at a time.
fn bytes_equal(a: &Vec<u8>, b: &Vec<u8>) -> (r: bool)
    ensures
        r == (a@ == b@),
{
    if a.len() != b.len() {
        return false;
    }
    let mut i: usize = 0;
    while i < a.len()
        invariant
            a.len() == b.len(),
            i <= a.len(),
            forall|j: int| 0 <= j < i ==> a@[j] == b@[j],
        decreases a.len() - i,
    {
        if a[i] != b[i] {
            return false;
        }
        i = i + 1;
    }
    assert(a@ =~= b@);
    true
}

/// A copy of a byte string.
fn copy_bytes(a: &Vec<u8>) -> (r: Vec<u8>)
    ensures
        r@ == a@,
{
    let mut r: Vec<u8> = Vec::new();
    let mut i: usize = 0;
    while i < a.len()
        invariant
            i <= a.len(),
            r@ == a@.take(i as int),
        decreases a.len() - i,
    {
        r.push(a[i]);
        i = i + 1;
        assert(r@ =~= a@.take(i as int));
    }
    assert(a@.take(a.len() as int) =~= a@);
    r
}

impl Rrc404 {
    /// A new component over the fungible resource at `fungible_address`, of
    /// which `max_supply` attos have been minted, and the non-fungible resource
    /// at `nft_address`: all of the supply is fungible, no non-fungible exists
    /// yet, and the first id to mint is 1. A negative maximum supply cannot be
    /// minted, so it is no input.
    pub fn instantiate_rrc404(max_supply: i128, fungible_address: Vec<u8>, nft_address: Vec<u8>) -> (s: Rrc404)
        requires
            max_supply >= 0,
        ensures
            s@.wf(),
            s@.fungible_address == fungible_address@,
            s@.nft_address == nft_address@,
            s@.nft_counter == 1,
            s@.max_supply == max_supply,
            s@.fungible_supply == max_supply,
            s@.supplies == seq![0int, 0int, 0int, 0int, 0int],
    {
        let s = Rrc404 {
            rrc404_fungible: fungible_address,
            rrc404_nft: nft_address,
            nft_counter: 1,
            max_supply,
            fungible_supply: max_supply,
            color_supplies: [0, 0, 0, 0, 0],
        };
        assert(s@.supplies =~= seq![0int, 0int, 0int, 0int, 0int]);
        s
    }

    /// Converts whole fungible tokens into non-fungibles. `deposit_resource`
    /// and `deposit_amount` (in attos) describe the bucket handed in; `now` is
    /// the current time, in Unix seconds rounded down to the minute (a multiple
    /// of 60), as the ledger's clock gives it.
    ///
    /// A deposit of another resource is refused and changes nothing. Otherwise
    /// each whole token of the deposit becomes one non-fungible, minted one
    /// after another under consecutive ids from the id counter, each of the
    /// color that the rarity rule picks at that moment; the whole tokens are
    /// burned and the fraction of a token left over is handed back. The
    /// fungible supply drops by one token per non-fungible, so fungibles and
    /// non-fungibles together still make up the maximum supply.
    pub fn freeze(&mut self, deposit_resource: &Vec<u8>, deposit_amount: i128, now: i64) -> (r: Result<FreezeReceipt, Rrc404Error>)
        requires
            old(self)@.wf(),
            deposit_amount >= 0,
            now % 60 == 0,
            deposit_amount / ONE_TOKEN <= u64::MAX,
            old(self)@.nft_counter + deposit_amount / ONE_TOKEN <= u64::MAX,
            forall|k: int| 0 <= k < 5 ==> #[trigger] old(self)@.supplies[k] + color_count(
                minted_colors(old(self)@, (deposit_amount / ONE_TOKEN) as nat),
                k,
            ) <= i64::MAX,
            old(self)@.fungible_supply - ONE_TOKEN * (deposit_amount / ONE_TOKEN) >= i128::MIN,
        ensures
            final(self)@.wf(),
            r is Err <==> deposit_resource@ != old(self)@.fungible_address,
            r is Err ==> r == Err::<FreezeReceipt, Rrc404Error>(Rrc404Error::IncorrectResourceAddress)
                && final(self)@ == old(self)@,
            r matches Ok(receipt) ==> {
                let n = deposit_amount / ONE_TOKEN;
                &&& final(self)@ == mint_n(old(self)@, n as nat)
                &&& receipt.burned == ONE_TOKEN * n
                &&& receipt.change == deposit_amount - ONE_TOKEN * n
                &&& receipt.nfts.len() == n
                &&& forall|i: int| 0 <= i < n ==> #[trigger] is_minted(receipt.nfts[i], old(self)@, i, now)
            },
    {
        if !bytes_equal(deposit_resource, &self.rrc404_fungible) {
            return Err(Rrc404Error::IncorrectResourceAddress);
        }
        let whole_tokens: i128 = deposit_amount.checked_div_euclid(ONE_TOKEN).unwrap();
        let n: u64 = whole_tokens as u64;
        let ghost v0 = self@;
        let mut nfts: Vec<MintedNft> = Vec::new();
        let mut i: u64 = 0;
        while i < n
            invariant
                v0 == old(self)@,
                v0.wf(),
                n == deposit_amount / ONE_TOKEN,
                i <= n,
                v0.nft_counter + n <= u64::MAX,
                forall|k: int| 0 <= k < 5 ==> #[trigger] v0.supplies[k] + color_count(minted_colors(v0, n as nat), k) <= i64::MAX,
                v0.fungible_supply - ONE_TOKEN * n >= i128::MIN,
                self@ == mint_n(v0, i as nat),
                nfts.len() == i,
                forall|j: int| 0 <= j < i ==> #[trigger] is_minted(nfts[j], v0, j, now),
            decreases n - i,
        {
            proof {
                lemma_mint_n(v0, i as nat);
                lemma_mint_n(v0, (i + 1) as nat);
                lemma_color_count_bounds(minted_colors(v0, i as nat));
            }
            let color = pick_color(&self.color_supplies);
            let k = color.index();
            proof {
                lemma_color_index_roundtrip(color);
                let all = minted_colors(v0, n as nat);
                assert(all.take(i + 1) =~= minted_colors(v0, (i + 1) as nat));
                lemma_color_count_prefix(all, i + 1);
                lemma_color_count_push(minted_colors(v0, i as nat), color, k as int);
                assert(minted_colors(v0, (i + 1) as nat) =~= minted_colors(v0, i as nat).push(color));
                assert(color_count(minted_colors(v0, (i + 1) as nat), k as int) <= color_count(all, k as int));
            }
            let id = self.nft_counter;
            self.color_supplies[k] = self.color_supplies[k] + 1;
            self.nft_counter = self.nft_counter + 1;
            self.fungible_supply = self.fungible_supply - ONE_TOKEN;
            let data = Rrc404NFT {
                key_image_url: color.url().to_owned(),
                color,
                fungible_address: copy_bytes(&self.rrc404_fungible),
                last_roll: now,
            };
            nfts.push(MintedNft { id, data });
            proof {
                assert(self@.supplies =~= mint_n(v0, (i + 1) as nat).supplies);
            }
            i = i + 1;
        }
        proof {
            lemma_mint_n(v0, n as nat);
        }
        Ok(FreezeReceipt { nfts, burned: whole_tokens * ONE_TOKEN, change: deposit_amount - whole_tokens * ONE_TOKEN })
    }

    /// Converts non-fungibles back into fungible tokens. `nft_resource` is the
    /// resource of the bucket handed in, `nfts` the data of the non-fungibles in
    /// it, and `now` the current time in Unix seconds.
    ///
    /// A bucket of another resource is refused, and so is one that holds a
    /// non-fungible whose cooldown of `COOLDOWN_HOURS` has not ended by the
    /// minute of `now`; a refusal changes nothing. Otherwise each non-fungible
    /// is taken off the supply of its color, and as many whole fungible tokens
    /// as there are non-fungibles are returned to the fungible supply; the
    /// result is that amount, in attos, to mint.
    pub fn melt(&mut self, nft_resource: &Vec<u8>, nfts: &Vec<Rrc404NFT>, now: i64) -> (r: Result<i128, Rrc404Error>)
        requires
            old(self)@.wf(),
            cooldowns_defined(nfts@),
            forall|k: int| 0 <= k < 5 ==> #[trigger] old(self)@.supplies[k] - color_count(colors_of(nfts@), k) >= i64::MIN,
            old(self)@.fungible_supply + ONE_TOKEN * nfts.len() <= i128::MAX,
        ensures
            final(self)@.wf(),
            r == Err::<i128, Rrc404Error>(Rrc404Error::IncorrectResourceAddress)
                <==> nft_resource@ != old(self)@.nft_address,
            r == Err::<i128, Rrc404Error>(Rrc404Error::CooldownNotOver) <==> {
                &&& nft_resource@ == old(self)@.nft_address
                &&& exists|i: int| 0 <= i < nfts.len() && !cooled_down(#[trigger] nfts@[i].last_roll, now)
            },
            r is Err ==> final(self)@ == old(self)@,
            r matches Ok(amount) ==> {
                &&& amount == ONE_TOKEN * nfts.len()
                &&& final(self)@ == melt_all(old(self)@, colors_of(nfts@))
            },
    {
        if !bytes_equal(nft_resource, &self.rrc404_nft) {
            return Err(Rrc404Error::IncorrectResourceAddress);
        }
        let mut i: usize = 0;
        while i < nfts.len()
            invariant
                i <= nfts.len(),
                self@ == old(self)@,
                old(self)@.wf(),
                nft_resource@ == old(self)@.nft_address,
                cooldowns_defined(nfts@),
                forall|j: int| 0 <= j < i ==> cooled_down(#[trigger] nfts@[j].last_roll, now),
            decreases nfts.len() - i,
        {
            let last_roll = nfts[i].last_roll;
            assert(cooldown_end_spec(nfts@[i as int].last_roll as int) is Some);
            let next_roll = cooldown_end(last_roll).unwrap();
            if !is_at_or_after_minute(now, next_roll) {
                assert(!cooled_down(nfts@[i as int].last_roll, now));
                return Err(Rrc404Error::CooldownNotOver);
            }
            i = i + 1;
        }
        let ghost v0 = self@;
        let ghost cs = colors_of(nfts@);
        proof {
            lemma_color_count_bounds(cs);
            assert(cs.take(0) =~= Seq::<Color>::empty());
            assert(self@.supplies =~= melt_all(v0, cs.take(0)).supplies);
        }
        let mut i: usize = 0;
        while i < nfts.len()
            invariant
                v0 == old(self)@,
                v0.wf(),
                cs == colors_of(nfts@),
                i <= nfts.len(),
                forall|k: int| 0 <= k < 5 ==> #[trigger] v0.supplies[k] - color_count(cs, k) >= i64::MIN,
                v0.fungible_supply + ONE_TOKEN * nfts.len() <= i128::MAX,
                self@ == melt_all(v0, cs.take(i as int)),
            decreases nfts.len() - i,
        {
            let color = nfts[i].color;
            let k = color.index();
            proof {
                lemma_color_index_roundtrip(color);
                assert(cs.take(i + 1) =~= cs.take(i as int).push(color));
                lemma_color_count_push(cs.take(i as int), color, k as int);
                lemma_color_count_prefix(cs, i + 1);
                lemma_color_count_bounds(cs.take(i as int));
                assert(self@.supplies[k as int] == v0.supplies[k as int] - color_count(cs.take(i as int), k as int));
                assert(color_count(cs.take(i + 1), k as int) <= color_count(cs, k as int));
                assert(v0.supplies[k as int] - color_count(cs, k as int) >= i64::MIN);
                assert(self.color_supplies[k as int] as int == self@.supplies[k as int]);
            }
            let ghost prev = self@;
            self.color_supplies[k] = self.color_supplies[k] - 1;
            self.fungible_supply = self.fungible_supply + ONE_TOKEN;
            proof {
                assert(self@.supplies =~= prev.supplies.update(k as int, prev.supplies[k as int] - 1));
                assert forall|m: int| 0 <= m < 5 implies #[trigger] self@.supplies[m]
                    == melt_all(v0, cs.take(i + 1)).supplies[m] by {
                    lemma_color_count_push(cs.take(i as int), color, m);
                }
                assert(self@.supplies =~= melt_all(v0, cs.take(i + 1)).supplies);
            }
            i = i + 1;
        }
        proof {
            assert(cs.take(nfts.len() as int) =~= cs);
            lemma_color_count_bounds(cs);
        }
        Ok(ONE_TOKEN * (nfts.len() as i128))
    }

    /// The id that the next minted non-fungible gets.
    pub fn nft_counter(&self) -> (r: u64)
        ensures
            r == self@.nft_counter,
    {
        self.nft_counter
    }

    /// The maximum supply, in attos.
    pub fn max_supply(&self) -> (r: i128)
        ensures
            r == self@.max_supply,
    {
        self.max_supply
    }

    /// The fungible supply, in attos.
    pub fn fungible_supply(&self) -> (r: i128)
        ensures
            r == self@.fungible_supply,
    {
        self.fungible_supply
    }

    /// How many non-fungibles of color `c` circulate.
    pub fn supply_of(&self, c: Color) -> (r: i64)
        ensures
            r == self@.supplies[color_index(c)],
    {
        proof {
            lemma_color_index_roundtrip(c);
        }
        self.color_supplies[c.index()]
    }

    /// The address of the fungible resource.
    pub fn fungible_address(&self) -> (r: &Vec<u8>)
        ensures
            r@ == self@.fungible_address,
    {
        &self.rrc404_fungible
    }

    /// The address of the non-fungible resource.
    pub fn nft_address(&self) -> (r: &Vec<u8>)
        ensures
            r@ == self@.nft_address,
    {
        &self.rrc404_nft
    }

    /// Rebuilds a component from the fields it was stored as. `None` unless
    /// they describe a reachable state: ids start at 1 and fungibles and
    /// non-fungibles together make up exactly the maximum supply.
    pub fn from_parts(
        fungible_address: Vec<u8>,
        nft_address: Vec<u8>,
        nft_counter: u64,
        max_supply: i128,
        fungible_supply: i128,
        color_supplies: [i64; 5],
    ) -> (r: Option<Rrc404>)
        ensures
            r is Some <==> stored_view(&fungible_address, &nft_address, nft_counter, max_supply, fungible_supply, color_supplies).wf(),
            r matches Some(s) ==> s@ == stored_view(&fungible_address, &nft_address, nft_counter, max_supply, fungible_supply, color_supplies),
    {
        let circ: i128 = color_supplies[0] as i128 + color_supplies[1] as i128 + color_supplies[2] as i128
            + color_supplies[3] as i128 + color_supplies[4] as i128;
        assert(circulating(supplies_of(color_supplies@)) == circ);
        let nft_attos: i128 = ONE_TOKEN * circ;
        let total = fungible_supply.checked_add(nft_attos);
        match total {
            Some(t) => {
                if nft_counter >= 1 && t == max_supply {
                    Some(Rrc404 {
                        rrc404_fungible: fungible_address,
                        rrc404_nft: nft_address,
                        nft_counter,
                        max_supply,
                        fungible_supply,
                        color_supplies,
                    })
                } else {
                    None
                }
            },
            None => None,
        }
    }

    /// The color supplies, in the order Green, Blue, Red, Orange, Purple.
    pub fn color_supplies(&self) -> (r: [i64; 5])
        ensures
            supplies_of(r@) == self@.supplies,
    {
        self.color_supplies
    }
}

} // verus!
