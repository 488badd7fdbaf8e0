use dex::seed::derive_pool_address;
use dex::state::{AssetId, LiquidityPool};

fn asset_with_last_byte(last: u8) -> AssetId {
    let mut bytes = [0u8; 32];
    bytes[31] = last;
    AssetId { bytes }
}

#[test]
fn asset_id_equality_is_byte_equality() {
    let a = asset_with_last_byte(0);
    let b = asset_with_last_byte(1);
    assert!(a == a);
    assert!(a != b);
    assert!(b == AssetId { bytes: b.bytes });
}

#[test]
fn seed_renders_base58_larger_first() {
    let zero = asset_with_last_byte(0);
    let one = asset_with_last_byte(1);
    // base58 of 32 zero bytes is "1" repeated 32 times; base58 of
    // 31 zero bytes then 0x01 is "1" repeated 31 times then "2".
    let zero58: String = std::iter::repeat('1').take(32).collect();
    let mut one58: String = std::iter::repeat('1').take(31).collect();
    one58.push('2');
    let seed = LiquidityPool::generate_seed(zero, one);
    assert_eq!(seed, format!("{}{}", one58, zero58));
}

#[test]
fn seed_is_order_independent() {
    let a = AssetId { bytes: [9u8; 32] };
    let mut bytes = [9u8; 32];
    bytes[0] = 8;
    let b = AssetId { bytes };
    assert_eq!(
        LiquidityPool::generate_seed(a, b),
        LiquidityPool::generate_seed(b, a)
    );
    // the larger identity comes first
    let a58 = anchor_lang::prelude::Pubkey::new_from_array(a.bytes).to_string();
    let b58 = anchor_lang::prelude::Pubkey::new_from_array(b.bytes).to_string();
    assert_eq!(LiquidityPool::generate_seed(a, b), format!("{}{}", a58, b58));
}

#[test]
fn pool_address_is_order_independent() {
    let program = AssetId { bytes: [7u8; 32] };
    let a = asset_with_last_byte(3);
    let b = asset_with_last_byte(4);
    let r1 = derive_pool_address(&program, a, b);
    let r2 = derive_pool_address(&program, b, a);
    assert!(r1.is_some());
    let (addr1, bump1) = r1.unwrap();
    let (addr2, bump2) = r2.unwrap();
    assert!(addr1 == addr2);
    assert_eq!(bump1, bump2);
}

#[test]
fn pool_address_matches_the_host_derivation() {
    let program = AssetId { bytes: [7u8; 32] };
    let a = asset_with_last_byte(3);
    let b = asset_with_last_byte(4);
    let (addr, bump) = derive_pool_address(&program, a, b).unwrap();
    // b is the byte-wise larger identity, so its bytes lead the seed
    let program_key = anchor_lang::prelude::Pubkey::new_from_array(program.bytes);
    let expected = anchor_lang::prelude::Pubkey::try_find_program_address(
        &[b"liquidity_pool", &b.bytes, &a.bytes],
        &program_key,
    )
    .unwrap();
    assert_eq!(expected.0.to_bytes(), addr.bytes);
    assert_eq!(expected.1, bump);
}

#[test]
fn distinct_pairs_get_distinct_addresses() {
    let program = AssetId { bytes: [7u8; 32] };
    let a = asset_with_last_byte(3);
    let b = asset_with_last_byte(4);
    let c = asset_with_last_byte(5);
    let (addr_ab, _) = derive_pool_address(&program, a, b).unwrap();
    let (addr_ac, _) = derive_pool_address(&program, a, c).unwrap();
    assert!(addr_ab != addr_ac);
}
