use dex_state::error::DexError;
use dex_state::state::{
    AccountTag, DexState, UserAccount, UserAccountHeader, HEADER_LEN, ORDER_LEN,
};

fn sample_header(number_of_orders: u32) -> UserAccountHeader {
    UserAccountHeader {
        tag: AccountTag::UserAccount,
        market: [5u8; 32],
        owner: [6u8; 32],
        base_token_free: 11,
        base_token_locked: 22,
        quote_token_free: 33,
        quote_token_locked: 44,
        accumulated_rebates: 55,
        number_of_orders,
    }
}

fn account_with_capacity(capacity: usize) -> UserAccount {
    let data = vec![0u8; HEADER_LEN + capacity * ORDER_LEN];
    UserAccount::new(data, sample_header(0))
}

#[test]
fn header_pack_unpack_round_trip() {
    let header = UserAccountHeader {
        tag: AccountTag::UserAccount,
        market: [0xAA; 32],
        owner: [0xBB; 32],
        base_token_free: 0x0102030405060708,
        base_token_locked: u64::MAX,
        quote_token_free: 0,
        quote_token_locked: 1,
        accumulated_rebates: 0xDEADBEEF,
        number_of_orders: 0x01020304,
    };
    let mut buf = vec![0u8; HEADER_LEN];
    header.pack_into_slice(&mut buf);
    let back = UserAccountHeader::unpack_from_slice(&buf).unwrap();
    assert_eq!(back, header);
}

#[test]
fn header_layout_is_little_endian() {
    let header = sample_header(7);
    let mut buf = vec![0u8; HEADER_LEN];
    header.pack_into_slice(&mut buf);
    assert_eq!(buf[0], 2); // user-account tag byte
    assert_eq!(&buf[1..33], &[5u8; 32]);
    assert_eq!(&buf[33..65], &[6u8; 32]);
    assert_eq!(&buf[65..73], &11u64.to_le_bytes());
    assert_eq!(&buf[105..109], &7u32.to_le_bytes());
}

#[test]
fn pack_leaves_trailing_bytes_alone() {
    let mut buf = vec![0xCC; HEADER_LEN + 5];
    sample_header(0).pack_into_slice(&mut buf);
    assert_eq!(&buf[HEADER_LEN..], &[0xCC; 5]);
}

#[test]
fn unpack_rejects_short_buffer() {
    let buf = vec![0u8; HEADER_LEN - 1];
    assert_eq!(
        UserAccountHeader::unpack_from_slice(&buf),
        Err(DexError::InvalidAccountData)
    );
}

#[test]
fn unpack_rejects_meaningless_tag() {
    let mut buf = vec![0u8; HEADER_LEN];
    buf[0] = 9;
    assert_eq!(
        UserAccountHeader::unpack_from_slice(&buf),
        Err(DexError::InvalidAccountData)
    );
}

#[test]
fn is_initialized_reports_tag() {
    assert!(sample_header(0).is_initialized());
    let mut h = sample_header(0);
    h.tag = AccountTag::Uninitialized;
    assert!(!h.is_initialized());
}

#[test]
fn dex_state_check_accepts_market_tag() {
    let state = DexState {
        tag: AccountTag::DexState,
        signer_nonce: 1,
        base_mint: [1; 32],
        quote_mint: [2; 32],
        base_vault: [3; 32],
        quote_vault: [4; 32],
        orderbook: [5; 32],
        aaob_program: [6; 32],
        admin: [7; 32],
        creation_timestamp: -1,
        base_volume: 8,
        quote_volume: 9,
        accumulated_fees: 10,
        min_base_order_size: 11,
    };
    assert!(state.check().is_ok());
}

#[test]
fn dex_state_check_rejects_other_tags() {
    let state = DexState {
        tag: AccountTag::UserAccount,
        signer_nonce: 0,
        base_mint: [0; 32],
        quote_mint: [0; 32],
        base_vault: [0; 32],
        quote_vault: [0; 32],
        orderbook: [0; 32],
        aaob_program: [0; 32],
        admin: [0; 32],
        creation_timestamp: 0,
        base_volume: 0,
        quote_volume: 0,
        accumulated_fees: 0,
        min_base_order_size: 0,
    };
    match state.check() {
        Err(e) => assert_eq!(e, DexError::InvalidAccountData),
        Ok(_) => panic!("tag mismatch must be rejected"),
    }
}

#[test]
fn add_orders_then_overflow_capacity() {
    // Capacity for three orders: the fourth is rejected and the count and
    // contents stay as they were.
    let mut ua = account_with_capacity(3);
    assert_eq!(ua.add_order(0xA), Ok(()));
    assert_eq!(ua.add_order(0xB), Ok(()));
    assert_eq!(ua.add_order(0xC), Ok(()));
    assert_eq!(ua.header.number_of_orders, 3);
    assert_eq!(ua.add_order(0xD), Err(DexError::UserAccountFull));
    assert_eq!(ua.header.number_of_orders, 3);
    assert_eq!(ua.read_order(0), Ok(0xA));
    assert_eq!(ua.read_order(1), Ok(0xB));
    assert_eq!(ua.read_order(2), Ok(0xC));
}

#[test]
fn swap_removal_moves_last_into_hole() {
    let mut ua = account_with_capacity(3);
    ua.add_order(0xA).unwrap();
    ua.add_order(0xB).unwrap();
    ua.add_order(0xC).unwrap();
    ua.remove_order(0).unwrap();
    assert_eq!(ua.header.number_of_orders, 2);
    assert_eq!(ua.read_order(0), Ok(0xC));
    assert_eq!(ua.read_order(1), Ok(0xB));
}

#[test]
fn removing_last_slot_pops() {
    let mut ua = account_with_capacity(2);
    ua.add_order(1).unwrap();
    ua.add_order(2).unwrap();
    ua.remove_order(1).unwrap();
    assert_eq!(ua.header.number_of_orders, 1);
    assert_eq!(ua.read_order(0), Ok(1));
}

#[test]
fn remove_on_empty_account_fails() {
    let mut ua = account_with_capacity(2);
    let before = ua.data.clone();
    assert_eq!(ua.remove_order(0), Err(DexError::InvalidOrderIndex));
    assert_eq!(ua.header.number_of_orders, 0);
    assert_eq!(ua.data, before);
}

#[test]
fn remove_past_count_fails() {
    let mut ua = account_with_capacity(3);
    ua.add_order(1).unwrap();
    let before = ua.data.clone();
    assert_eq!(ua.remove_order(1), Err(DexError::InvalidOrderIndex));
    assert_eq!(ua.remove_order(usize::MAX), Err(DexError::InvalidOrderIndex));
    assert_eq!(ua.header.number_of_orders, 1);
    assert_eq!(ua.data, before);
}

#[test]
fn read_order_checks_bounds() {
    let mut ua = account_with_capacity(2);
    ua.add_order(77).unwrap();
    assert_eq!(ua.read_order(0), Ok(77));
    assert_eq!(ua.read_order(1), Err(DexError::InvalidOrderIndex));
}

#[test]
fn add_then_find_returns_new_slot() {
    let mut ua = account_with_capacity(4);
    ua.add_order(100).unwrap();
    ua.add_order(200).unwrap();
    assert_eq!(ua.find_order_index(200), Ok(1));
    ua.add_order(300).unwrap();
    assert_eq!(
        ua.find_order_index(300),
        Ok(ua.header.number_of_orders as usize - 1)
    );
}

#[test]
fn find_reports_lowest_match_or_absence() {
    let mut ua = account_with_capacity(3);
    ua.add_order(9).unwrap();
    ua.add_order(8).unwrap();
    ua.add_order(9).unwrap();
    assert_eq!(ua.find_order_index(9), Ok(0));
    assert_eq!(ua.find_order_index(8), Ok(1));
    assert_eq!(ua.find_order_index(7), Err(DexError::OrderNotFound));
}

#[test]
fn write_persists_header_into_buffer() {
    let mut ua = account_with_capacity(2);
    ua.add_order(0x112233445566778899AABBCCDDEEFF00).unwrap();
    // Until write() the buffer still holds the stale order count.
    let stale = UserAccountHeader::unpack_from_slice(&ua.data).unwrap();
    assert_eq!(stale.number_of_orders, 0);
    ua.write();
    let fresh = UserAccountHeader::unpack_from_slice(&ua.data).unwrap();
    assert_eq!(fresh.number_of_orders, 1);
    assert_eq!(fresh, ua.header);
}

#[test]
fn parse_round_trips_through_buffer() {
    let mut ua = account_with_capacity(2);
    ua.add_order(41).unwrap();
    ua.add_order(42).unwrap();
    ua.write();
    let reparsed = UserAccount::parse(ua.data.clone()).unwrap();
    assert_eq!(reparsed.header, ua.header);
    assert_eq!(reparsed.read_order(0), Ok(41));
    assert_eq!(reparsed.read_order(1), Ok(42));
}

#[test]
fn parse_rejects_short_or_foreign_buffers() {
    assert_eq!(
        UserAccount::parse(vec![0u8; 10]).err(),
        Some(DexError::InvalidAccountData)
    );
    // A market-state tag is not a user account.
    let mut buf = vec![0u8; HEADER_LEN];
    buf[0] = 1;
    assert_eq!(
        UserAccount::parse(buf).err(),
        Some(DexError::InvalidAccountData)
    );
}

#[test]
fn parse_rejects_overclaimed_order_count() {
    // The header claims two orders but the buffer only has room for one.
    let mut ua = account_with_capacity(2);
    ua.add_order(1).unwrap();
    ua.add_order(2).unwrap();
    ua.write();
    let mut buf = ua.data.clone();
    buf.truncate(HEADER_LEN + ORDER_LEN);
    assert_eq!(
        UserAccount::parse(buf).err(),
        Some(DexError::InvalidAccountData)
    );
}
