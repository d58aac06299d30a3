use system_pallet::counter::Counter;
use system_pallet::system::{Config, Pallet};

struct TestConfig;

impl Config for TestConfig {
    type AccountId = String;
    type BlockNumber = u32;
    type Nonce = u32;
}

#[derive(Debug)]
struct NarrowConfig;

impl Config for NarrowConfig {
    type AccountId = u64;
    type BlockNumber = u8;
    type Nonce = u16;
}

struct WideConfig;

impl Config for WideConfig {
    type AccountId = (u32, u32);
    type BlockNumber = u128;
    type Nonce = u64;
}

struct WordConfig;

impl Config for WordConfig {
    type AccountId = &'static str;
    type BlockNumber = usize;
    type Nonce = usize;
}

fn alice() -> String {
    "alice".to_string()
}

fn bob() -> String {
    "bob".to_string()
}

#[test]
fn init_system() {
    let mut system = Pallet::<TestConfig>::new();

    assert_eq!(system.block_number(), 0);

    system.inc_block_number();

    assert_eq!(system.block_number(), 1);

    assert_eq!(system.nonce(&"alice".to_string()), 0);

    system.inc_nonce(&"alice".to_string());

    assert_eq!(system.nonce(&"alice".to_string()), 1);

    assert_eq!(system.nonce(&"bob".to_string()), 0);
}

#[test]
fn fresh_pallet_starts_at_zero() {
    let system = Pallet::<TestConfig>::new();
    assert_eq!(system.block_number(), 0);
    assert_eq!(system.nonce(&alice()), 0);
    assert_eq!(system.nonce(&bob()), 0);
    assert_eq!(system.nonce(&String::new()), 0);
}

#[test]
fn one_block_increment_gives_height_one() {
    let mut system = Pallet::<TestConfig>::new();
    system.inc_block_number();
    assert_eq!(system.block_number(), 1);
}

#[test]
fn unknown_account_has_nonce_zero() {
    let mut system = Pallet::<TestConfig>::new();
    system.inc_block_number();
    assert_eq!(system.nonce(&alice()), 0);
}

#[test]
fn first_increment_enters_account_at_one() {
    let mut system = Pallet::<TestConfig>::new();
    system.inc_nonce(&alice());
    assert_eq!(system.nonce(&alice()), 1);
}

#[test]
fn untouched_account_is_unaffected() {
    let mut system = Pallet::<TestConfig>::new();
    system.inc_nonce(&alice());
    assert_eq!(system.nonce(&alice()), 1);
    assert_eq!(system.nonce(&bob()), 0);
}

#[test]
fn three_increments_give_nonce_three() {
    let mut system = Pallet::<TestConfig>::new();
    system.inc_block_number();
    system.inc_nonce(&alice());
    assert_eq!(system.nonce(&alice()), 1);
    system.inc_nonce(&alice());
    system.inc_nonce(&alice());
    assert_eq!(system.nonce(&alice()), 3);
    assert_eq!(system.nonce(&bob()), 0);
    assert_eq!(system.block_number(), 1);
}

#[test]
fn block_number_counts_its_increments() {
    let mut system = Pallet::<TestConfig>::new();
    for n in 0..1000u32 {
        assert_eq!(system.block_number(), n);
        system.inc_block_number();
    }
    assert_eq!(system.block_number(), 1000);
}

#[test]
fn nonce_counts_its_increments() {
    let mut system = Pallet::<TestConfig>::new();
    for n in 0..250u32 {
        assert_eq!(system.nonce(&alice()), n);
        system.inc_nonce(&alice());
    }
    assert_eq!(system.nonce(&alice()), 250);
    assert_eq!(system.nonce(&bob()), 0);
}

#[test]
fn incrementing_one_nonce_keeps_the_others() {
    let mut system = Pallet::<NarrowConfig>::new();
    system.inc_nonce(&1);
    system.inc_nonce(&2);
    system.inc_nonce(&2);
    let before = (system.nonce(&1), system.nonce(&2), system.nonce(&3));
    assert_eq!(before, (1, 2, 0));
    system.inc_nonce(&3);
    assert_eq!(system.nonce(&1), 1);
    assert_eq!(system.nonce(&2), 2);
    assert_eq!(system.nonce(&3), 1);
}

#[test]
fn nonce_increments_keep_the_block_number() {
    let mut system = Pallet::<TestConfig>::new();
    system.inc_block_number();
    system.inc_block_number();
    for _ in 0..10 {
        system.inc_nonce(&alice());
        system.inc_nonce(&bob());
        assert_eq!(system.block_number(), 2);
    }
}

#[test]
fn block_increments_keep_the_nonces() {
    let mut system = Pallet::<TestConfig>::new();
    system.inc_nonce(&alice());
    system.inc_nonce(&alice());
    system.inc_nonce(&bob());
    for _ in 0..10 {
        system.inc_block_number();
        assert_eq!(system.nonce(&alice()), 2);
        assert_eq!(system.nonce(&bob()), 1);
        assert_eq!(system.nonce(&"carol".to_string()), 0);
    }
    assert_eq!(system.block_number(), 10);
}

#[test]
fn interleaved_increments_equal_grouped_ones() {
    let mut interleaved = Pallet::<TestConfig>::new();
    interleaved.inc_nonce(&bob());
    interleaved.inc_nonce(&alice());
    interleaved.inc_nonce(&bob());
    interleaved.inc_nonce(&bob());
    interleaved.inc_nonce(&alice());

    let mut grouped = Pallet::<TestConfig>::new();
    grouped.inc_nonce(&alice());
    grouped.inc_nonce(&alice());
    grouped.inc_nonce(&bob());
    grouped.inc_nonce(&bob());
    grouped.inc_nonce(&bob());

    assert_eq!(interleaved.nonce(&alice()), 2);
    assert_eq!(interleaved.nonce(&bob()), 3);
    assert_eq!(interleaved.nonce(&alice()), grouped.nonce(&alice()));
    assert_eq!(interleaved.nonce(&bob()), grouped.nonce(&bob()));
}

#[test]
fn accounts_are_found_by_equality_not_by_insertion_order() {
    let mut system = Pallet::<WideConfig>::new();
    system.inc_nonce(&(9, 9));
    system.inc_nonce(&(0, 1));
    system.inc_nonce(&(5, 0));
    system.inc_nonce(&(0, 1));
    assert_eq!(system.nonce(&(0, 1)), 2);
    assert_eq!(system.nonce(&(5, 0)), 1);
    assert_eq!(system.nonce(&(9, 9)), 1);
    assert_eq!(system.nonce(&(1, 0)), 0);
    assert_eq!(system.block_number(), 0);
}

#[test]
fn narrow_counters_reach_their_maximum() {
    let mut system = Pallet::<NarrowConfig>::new();
    for _ in 0..255 {
        system.inc_block_number();
    }
    assert_eq!(system.block_number(), u8::MAX);
    for _ in 0..65535u32 {
        system.inc_nonce(&7);
    }
    assert_eq!(system.nonce(&7), u16::MAX);
    assert_eq!(system.nonce(&8), 0);
}

#[test]
fn wide_and_word_sized_counters_count() {
    let mut wide = Pallet::<WideConfig>::new();
    assert_eq!(wide.block_number(), 0u128);
    wide.inc_block_number();
    wide.inc_block_number();
    wide.inc_nonce(&(1, 2));
    assert_eq!(wide.block_number(), 2u128);
    assert_eq!(wide.nonce(&(1, 2)), 1u64);

    let mut word = Pallet::<WordConfig>::new();
    assert_eq!(word.block_number(), 0usize);
    word.inc_block_number();
    word.inc_nonce(&"alice");
    word.inc_nonce(&"alice");
    assert_eq!(word.block_number(), 1usize);
    assert_eq!(word.nonce(&"alice"), 2usize);
    assert_eq!(word.nonce(&"bob"), 0usize);
}

#[test]
fn pallet_has_a_debug_form() {
    let mut system = Pallet::<NarrowConfig>::new();
    system.inc_block_number();
    system.inc_nonce(&5);
    assert_eq!(format!("{:?}", system), "Pallet { block_number: 1, nonce: {5: 1} }");
}

#[test]
fn zero_is_zero_for_every_counter() {
    assert_eq!(<u8 as Counter>::zero(), 0u8);
    assert_eq!(<u16 as Counter>::zero(), 0u16);
    assert_eq!(<u32 as Counter>::zero(), 0u32);
    assert_eq!(<u64 as Counter>::zero(), 0u64);
    assert_eq!(<u128 as Counter>::zero(), 0u128);
    assert_eq!(<usize as Counter>::zero(), 0usize);
}

#[test]
fn one_is_one_for_every_counter() {
    assert_eq!(<u8 as Counter>::one(), 1u8);
    assert_eq!(<u16 as Counter>::one(), 1u16);
    assert_eq!(<u32 as Counter>::one(), 1u32);
    assert_eq!(<u64 as Counter>::one(), 1u64);
    assert_eq!(<u128 as Counter>::one(), 1u128);
    assert_eq!(<usize as Counter>::one(), 1usize);
}

#[test]
fn plus_adds_exactly() {
    assert_eq!(Counter::plus(200u8, 55u8), 255u8);
    assert_eq!(Counter::plus(0u16, 0u16), 0u16);
    assert_eq!(Counter::plus(65_000u16, 535u16), u16::MAX);
    assert_eq!(Counter::plus(4_000_000_000u32, 294_967_295u32), u32::MAX);
    assert_eq!(Counter::plus(u64::MAX - 1, 1u64), u64::MAX);
    assert_eq!(Counter::plus(1u128 << 100, 1u128 << 100), 1u128 << 101);
    assert_eq!(Counter::plus(41usize, 1usize), 42usize);
}

#[test]
fn zero_is_neutral_and_one_is_the_step() {
    let z = <u32 as Counter>::zero();
    let u = <u32 as Counter>::one();
    assert_eq!(Counter::plus(17u32, z), 17);
    assert_eq!(Counter::plus(z, 17u32), 17);
    assert_eq!(Counter::plus(17u32, u), 18);
    assert_eq!(Counter::plus(z, u), 1);
}

#[derive(Clone, Debug, PartialEq, Eq, PartialOrd, Ord)]
struct Address {
    shard: u8,
    key: [u8; 4],
}

struct StructuredConfig;

impl Config for StructuredConfig {
    type AccountId = Address;
    type BlockNumber = u64;
    type Nonce = u32;
}

#[test]
fn structured_identifiers_can_be_configured() {
    let treasury = Address { shard: 0, key: [1, 2, 3, 4] };
    let faucet = Address { shard: 1, key: [1, 2, 3, 4] };
    let mut system = Pallet::<StructuredConfig>::new();
    assert_eq!(system.block_number(), 0u64);
    assert_eq!(system.nonce(&treasury), 0u32);
    system.inc_block_number();
    system.inc_nonce(&treasury);
    system.inc_nonce(&treasury);
    assert_eq!(system.block_number(), 1u64);
    assert_eq!(system.nonce(&treasury), 2u32);
    assert_eq!(system.nonce(&faucet), 0u32);
}
