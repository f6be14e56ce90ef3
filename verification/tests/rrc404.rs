use rrc404::color::Color;
use rrc404::rarity::pick_color;
use rrc404::rrc404::{FreezeReceipt, Rrc404, Rrc404Error, Rrc404NFT, ONE_TOKEN};
use rrc404::time::{cooldown_end, is_at_or_after_minute, COOLDOWN_HOURS};

const FUNGIBLE: [u8; 4] = [0x5d, 1, 2, 3];
const NFT: [u8; 4] = [0x9a, 4, 5, 6];
const NOW: i64 = 1_700_000_040;

fn fresh(max_tokens: i128) -> Rrc404 {
    Rrc404::instantiate_rrc404(max_tokens * ONE_TOKEN, FUNGIBLE.to_vec(), NFT.to_vec())
}

fn supplies(s: &Rrc404) -> [i64; 5] {
    [
        s.supply_of(Color::Green),
        s.supply_of(Color::Blue),
        s.supply_of(Color::Red),
        s.supply_of(Color::Orange),
        s.supply_of(Color::Purple),
    ]
}

fn circulating_attos(s: &Rrc404) -> i128 {
    s.fungible_supply() + ONE_TOKEN * supplies(s).iter().map(|x| *x as i128).sum::<i128>()
}

fn nft_data(receipt: &FreezeReceipt) -> Vec<Rrc404NFT> {
    receipt.nfts.iter().map(|m| m.data.clone()).collect()
}

#[test]
fn instantiate_test() {
    let s = fresh(100);
    assert_eq!(s.max_supply(), 100 * ONE_TOKEN);
    assert_eq!(s.fungible_supply(), 100 * ONE_TOKEN);
    assert_eq!(s.nft_counter(), 1);
    assert_eq!(supplies(&s), [0, 0, 0, 0, 0]);
    assert_eq!(s.fungible_address(), &FUNGIBLE.to_vec());
    assert_eq!(s.nft_address(), &NFT.to_vec());
}

#[test]
fn convert_fungibles_to_nfts() {
    let mut s = fresh(100);
    let receipt = s.freeze(&FUNGIBLE.to_vec(), 100 * ONE_TOKEN, NOW).unwrap();
    assert_eq!(receipt.nfts.len(), 100);
    assert_eq!(receipt.burned, 100 * ONE_TOKEN);
    assert_eq!(receipt.change, 0);
    for (i, m) in receipt.nfts.iter().enumerate() {
        assert_eq!(m.id, 1 + i as u64);
        assert_eq!(m.data.last_roll, NOW);
        assert_eq!(m.data.fungible_address, FUNGIBLE.to_vec());
        assert_eq!(m.data.key_image_url, m.data.color.url());
    }
    assert_eq!(supplies(&s), [42, 30, 16, 8, 4]);
    assert_eq!(s.fungible_supply(), 0);
    assert_eq!(s.nft_counter(), 101);
    assert_eq!(circulating_attos(&s), 100 * ONE_TOKEN);
}

#[test]
fn convert_nfts_to_fungibles() {
    let mut s = fresh(100);
    let deposit = 50 * ONE_TOKEN + 9 * ONE_TOKEN / 10;
    let receipt = s.freeze(&FUNGIBLE.to_vec(), deposit, NOW).unwrap();
    assert_eq!(receipt.nfts.len(), 50);
    assert_eq!(receipt.burned, 50 * ONE_TOKEN);
    assert_eq!(receipt.change, 9 * ONE_TOKEN / 10);
    assert_eq!(supplies(&s), [21, 15, 8, 4, 2]);
    assert_eq!(s.fungible_supply(), 50 * ONE_TOKEN);

    let forty: Vec<Rrc404NFT> = nft_data(&receipt).into_iter().take(40).collect();
    // Melting in the same minute as the mint is refused and changes nothing.
    assert_eq!(s.melt(&NFT.to_vec(), &forty, NOW), Err(Rrc404Error::CooldownNotOver));
    assert_eq!(supplies(&s), [21, 15, 8, 4, 2]);
    assert_eq!(s.fungible_supply(), 50 * ONE_TOKEN);

    let later = NOW + 3600 * COOLDOWN_HOURS;
    assert_eq!(s.melt(&NFT.to_vec(), &forty, later), Ok(40 * ONE_TOKEN));
    assert_eq!(s.fungible_supply(), 90 * ONE_TOKEN);
    assert_eq!(supplies(&s).iter().sum::<i64>(), 10);
    assert_eq!(circulating_attos(&s), 100 * ONE_TOKEN);
    assert_eq!(s.nft_counter(), 51);
}

#[test]
fn multiple_swaps() {
    let mut s = fresh(100);
    let deposit = 50 * ONE_TOKEN + 9 * ONE_TOKEN / 10;
    let receipt = s.freeze(&FUNGIBLE.to_vec(), deposit, NOW).unwrap();
    assert_eq!(receipt.nfts.len(), 50);
    let forty: Vec<Rrc404NFT> = nft_data(&receipt).into_iter().take(40).collect();
    assert_eq!(s.melt(&NFT.to_vec(), &forty, NOW), Err(Rrc404Error::CooldownNotOver));
    let later = NOW + 3600 * COOLDOWN_HOURS;
    assert_eq!(s.melt(&NFT.to_vec(), &forty, later), Ok(40 * ONE_TOKEN));
    // Freeze again: ids continue where they stopped.
    let again = s.freeze(&FUNGIBLE.to_vec(), 5 * ONE_TOKEN, later).unwrap();
    let ids: Vec<u64> = again.nfts.iter().map(|m| m.id).collect();
    assert_eq!(ids, vec![51, 52, 53, 54, 55]);
    assert_eq!(circulating_attos(&s), 100 * ONE_TOKEN);
}

#[test]
fn rarity_sequence_from_empty() {
    let mut s = fresh(20);
    let receipt = s.freeze(&FUNGIBLE.to_vec(), 20 * ONE_TOKEN, NOW).unwrap();
    let colors: Vec<usize> = receipt.nfts.iter().map(|m| m.data.color.index()).collect();
    assert_eq!(colors, vec![0, 1, 2, 0, 3, 1, 0, 4, 1, 0, 2, 0, 1, 0, 2, 1, 0, 3, 0, 1]);
}

#[test]
fn pick_color_rules() {
    // Nothing circulates: Green.
    assert_eq!(pick_color(&[0, 0, 0, 0, 0]), Color::Green);
    // Deficits -58, 30, 16, 8, 4: Blue.
    assert_eq!(pick_color(&[1, 0, 0, 0, 0]), Color::Blue);
    // Deficits -16, -40, 32, 16, 8: Red.
    assert_eq!(pick_color(&[1, 1, 0, 0, 0]), Color::Red);
    // Equal deficits: the later color wins. circulating 50 at exact targets: all 0.
    assert_eq!(pick_color(&[21, 15, 8, 4, 2]), Color::Purple);
    // Supplies that cancel out count as nothing circulating.
    assert_eq!(pick_color(&[1, -1, 0, 0, 0]), Color::Green);
}

#[test]
fn freeze_refuses_wrong_resource() {
    let mut s = fresh(10);
    assert!(matches!(
        s.freeze(&NFT.to_vec(), 3 * ONE_TOKEN, NOW),
        Err(Rrc404Error::IncorrectResourceAddress)
    ));
    assert_eq!(s.fungible_supply(), 10 * ONE_TOKEN);
    assert_eq!(s.nft_counter(), 1);
}

#[test]
fn freeze_of_less_than_a_token_mints_nothing() {
    let mut s = fresh(10);
    let receipt = s.freeze(&FUNGIBLE.to_vec(), ONE_TOKEN - 1, NOW).unwrap();
    assert_eq!(receipt.nfts.len(), 0);
    assert_eq!(receipt.burned, 0);
    assert_eq!(receipt.change, ONE_TOKEN - 1);
    assert_eq!(s.fungible_supply(), 10 * ONE_TOKEN);
    assert_eq!(s.nft_counter(), 1);
}

#[test]
fn melt_refuses_wrong_resource() {
    let mut s = fresh(10);
    let receipt = s.freeze(&FUNGIBLE.to_vec(), 2 * ONE_TOKEN, NOW).unwrap();
    let nfts = nft_data(&receipt);
    let later = NOW + 3600 * COOLDOWN_HOURS;
    assert_eq!(
        s.melt(&FUNGIBLE.to_vec(), &nfts, later),
        Err(Rrc404Error::IncorrectResourceAddress)
    );
    assert_eq!(s.fungible_supply(), 8 * ONE_TOKEN);
}

#[test]
fn melt_undoes_freeze() {
    let mut s = fresh(30);
    s.freeze(&FUNGIBLE.to_vec(), 4 * ONE_TOKEN, NOW).unwrap();
    let before = supplies(&s);
    let before_fungible = s.fungible_supply();
    let receipt = s.freeze(&FUNGIBLE.to_vec(), 17 * ONE_TOKEN + 3, NOW).unwrap();
    let later = NOW + 3600 * COOLDOWN_HOURS + 59;
    assert_eq!(s.melt(&NFT.to_vec(), &nft_data(&receipt), later), Ok(17 * ONE_TOKEN));
    assert_eq!(supplies(&s), before);
    assert_eq!(s.fungible_supply(), before_fungible);
    assert_eq!(s.nft_counter(), 22);
}

#[test]
fn melt_of_nothing_returns_nothing() {
    let mut s = fresh(5);
    assert_eq!(s.melt(&NFT.to_vec(), &Vec::new(), NOW), Ok(0));
    assert_eq!(s.fungible_supply(), 5 * ONE_TOKEN);
}

#[test]
fn cooldown_is_counted_in_minutes() {
    // Minted at 12:00:30; the cooldown ends at 16:00:30, which lies in the
    // minute starting 16:00:00, so 16:00:00 already counts as cooled down.
    let minted = 43_230;
    assert_eq!(cooldown_end(minted), Some(minted + 14_400));
    let nft = Rrc404NFT {
        key_image_url: Color::Green.url().to_string(),
        color: Color::Green,
        fungible_address: FUNGIBLE.to_vec(),
        last_roll: minted,
    };
    let mut s = fresh(5);
    s.freeze(&FUNGIBLE.to_vec(), ONE_TOKEN, 43_200).unwrap();
    let just_before = 43_200 + 14_400 - 1;
    assert_eq!(
        s.melt(&NFT.to_vec(), &vec![nft.clone()], just_before),
        Err(Rrc404Error::CooldownNotOver)
    );
    assert_eq!(s.melt(&NFT.to_vec(), &vec![nft], 43_200 + 14_400), Ok(ONE_TOKEN));
    assert_eq!(s.supply_of(Color::Green), 0);
}

#[test]
fn minute_comparison() {
    assert!(is_at_or_after_minute(120, 179));
    assert!(!is_at_or_after_minute(119, 120));
    assert!(is_at_or_after_minute(-60, -1));
    assert!(!is_at_or_after_minute(-61, -60));
}

#[test]
fn cooldown_end_range() {
    assert_eq!(cooldown_end(0), Some(14_400));
    assert_eq!(cooldown_end(-62_135_596_800), Some(-62_135_596_800 + 14_400));
    assert_eq!(cooldown_end(-62_135_596_801), None);
    assert_eq!(cooldown_end(135_536_014_634_284_799 - 14_400), Some(135_536_014_634_284_799));
    assert_eq!(cooldown_end(135_536_014_634_284_799 - 14_399), None);
}

#[test]
fn color_urls() {
    assert_eq!(
        Color::Green.url(),
        "https://bafybeib6euav3xgpncqjtwmpz7ebckh37gccu3bvrnvyx3376dc57v6nyi.ipfs.w3s.link/ice_green.png"
    );
    assert_eq!(
        Color::Purple.url(),
        "https://bafybeib5ox4fdopvdcsonov6zwlbsy772fgwj6ufk6uq27rnrqfqtma4ri.ipfs.w3s.link/ice_purple.png"
    );
    for i in 0..5 {
        assert_eq!(Color::from_index(i).index(), i);
    }
}

#[test]
fn freezing_in_two_steps_equals_one_freeze() {
    let mut split = fresh(40);
    let first = split.freeze(&FUNGIBLE.to_vec(), 13 * ONE_TOKEN, NOW).unwrap();
    let second = split.freeze(&FUNGIBLE.to_vec(), 9 * ONE_TOKEN, NOW).unwrap();
    let mut whole = fresh(40);
    let once = whole.freeze(&FUNGIBLE.to_vec(), 22 * ONE_TOKEN, NOW).unwrap();
    let split_nfts: Vec<(u64, usize)> = first
        .nfts
        .iter()
        .chain(second.nfts.iter())
        .map(|m| (m.id, m.data.color.index()))
        .collect();
    let whole_nfts: Vec<(u64, usize)> = once.nfts.iter().map(|m| (m.id, m.data.color.index())).collect();
    assert_eq!(split_nfts, whole_nfts);
    assert_eq!(supplies(&split), supplies(&whole));
    assert_eq!(split.fungible_supply(), whole.fungible_supply());
    assert_eq!(split.nft_counter(), whole.nft_counter());
}

#[test]
fn every_color_stays_within_one_of_its_share() {
    let percents: [i64; 5] = [42, 30, 16, 8, 4];
    let mut s = fresh(200);
    for _ in 0..200 {
        s.freeze(&FUNGIBLE.to_vec(), ONE_TOKEN, NOW).unwrap();
        let c = supplies(&s);
        let circulating: i64 = c.iter().sum();
        for j in 0..5 {
            assert!(c[j] >= 0);
            assert!(100 * c[j] <= circulating * percents[j] + 100);
        }
    }
    assert_eq!(s.fungible_supply(), 0);
}
