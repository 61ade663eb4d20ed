use geyser_indexer::config::{Amqp, Config};
use geyser_indexer::decode::{
    decode_close_listing, decode_token_account, decode_token_instruction, DecodeError,
    TokenInstructionAction,
};
use geyser_indexer::dispatch::{
    consume_message, handle_instruction, process_instruction, ConsumeError, DecoderKind, Outcome,
    Registry,
};
use geyser_indexer::listing::{
    AmountError, Bid, Listing, ListingError, CHRONO_MAX_SECS, CHRONO_MIN_SECS,
};
use geyser_indexer::selector::{
    AccountSelector, InstructionSelector, Selector, SelectorConfigError,
};
use geyser_indexer::store::{ApplyError, Store};
use geyser_indexer::table::Table;
use geyser_indexer::transport::{
    decode_event, encode_event, forward_account, forward_instruction, Network, RawEvent,
    TransportError,
};

const SYSTEM: &str = "11111111111111111111111111111111";
const TOKEN: &str = "TokenkegQfeZyiNwAJbNbGKPFXCWuBvf9Ss623VQ5DA";

fn addr(b: u8) -> Vec<u8> {
    vec![b; 32]
}

fn close_accounts() -> Vec<Vec<u8>> {
    (0u8..11).map(|i| addr(100 + i)).collect()
}

fn token_size_bytes(v: u64) -> Vec<u8> {
    v.to_le_bytes().to_vec()
}

#[test]
fn selector_accepts_only_members() {
    let sel = AccountSelector::from_config(&vec![SYSTEM.to_string()]).ok().unwrap();
    assert!(sel.accepts_account(&[0u8; 32]));
    assert!(!sel.accepts_account(&[1u8; 32]));
}

#[test]
fn selector_decodes_base58_program() {
    let sel = InstructionSelector::from_config(&vec![TOKEN.to_string()]).ok().unwrap();
    let token_bytes: [u8; 32] = [
        6, 221, 246, 225, 215, 101, 161, 147, 217, 203, 225, 70, 206, 235, 121, 172, 28, 180, 133,
        237, 95, 91, 55, 145, 58, 140, 245, 133, 126, 255, 0, 169,
    ];
    assert!(sel.accepts_instruction(&token_bytes));
    assert!(!sel.accepts_instruction(&[0u8; 32]));
}

#[test]
fn empty_selector_rejects_everything() {
    let sel = InstructionSelector::from_config(&vec![]).ok().unwrap();
    assert!(!sel.accepts_instruction(&[0u8; 32]));
    assert!(!sel.accepts_instruction(&[]));
}

#[test]
fn selector_rejects_invalid_address() {
    let r = AccountSelector::from_config(&vec![SYSTEM.to_string(), "not-an-address".to_string()]);
    assert!(matches!(r, Err(SelectorConfigError::InvalidAddress(ref t)) if t == "not-an-address"));
    let short = AccountSelector::from_config(&vec!["1111".to_string()]);
    assert!(short.is_err());
}

#[test]
fn config_splits_into_parts() {
    let cfg = Config {
        amqp: Amqp { address: "amqp://localhost".to_string(), network: Network::Devnet },
        account_owners: vec![TOKEN.to_string()],
        instruction_programs: vec![],
    };
    let (amqp, acct, ins) = cfg.into_parts().ok().unwrap();
    assert_eq!(amqp.address, "amqp://localhost");
    assert_eq!(amqp.network, Network::Devnet);
    assert!(!acct.accepts_account(&[0u8; 32]));
    assert!(!ins.accepts_instruction(&[0u8; 32]));
    let bad = Config {
        amqp: Amqp { address: String::new(), network: Network::Mainnet },
        account_owners: vec![],
        instruction_programs: vec!["zz".to_string()],
    };
    assert!(matches!(bad.into_parts(), Err(SelectorConfigError::InvalidAddress(ref t)) if t == "zz"));
}

#[test]
fn instruction_round_trips_through_transport() {
    let e = RawEvent::Instruction {
        program: addr(7),
        data: vec![1, 2, 3, 4, 5],
        accounts: vec![addr(1), addr(2), addr(3)],
        slot: 123_456_789,
    };
    let bytes = encode_event(&e, Network::Mainnet);
    assert_eq!(bytes.len(), 10 + 32 + 8 + 96 + 5);
    match decode_event(&bytes, Network::Mainnet) {
        Ok(RawEvent::Instruction { program, data, accounts, slot }) => {
            assert_eq!(program, addr(7));
            assert_eq!(data, vec![1, 2, 3, 4, 5]);
            assert_eq!(accounts, vec![addr(1), addr(2), addr(3)]);
            assert_eq!(slot, 123_456_789);
        },
        _ => panic!("instruction did not round-trip"),
    }
}

#[test]
fn account_round_trips_through_transport() {
    let e = RawEvent::AccountUpdate { address: addr(9), owner: addr(8), data: vec![], slot: u64::MAX };
    let bytes = encode_event(&e, Network::Testnet);
    assert_eq!(bytes[0], 2);
    assert_eq!(bytes[1], 0);
    match decode_event(&bytes, Network::Testnet) {
        Ok(RawEvent::AccountUpdate { address, owner, data, slot }) => {
            assert_eq!(address, addr(9));
            assert_eq!(owner, addr(8));
            assert!(data.is_empty());
            assert_eq!(slot, u64::MAX);
        },
        _ => panic!("account update did not round-trip"),
    }
}

#[test]
fn message_of_other_network_is_rejected() {
    let e = RawEvent::AccountUpdate { address: addr(9), owner: addr(8), data: vec![1], slot: 5 };
    let bytes = encode_event(&e, Network::Devnet);
    assert!(matches!(decode_event(&bytes, Network::Mainnet), Err(TransportError::WrongNetwork)));
}

#[test]
fn truncated_messages_are_malformed() {
    let e = RawEvent::Instruction {
        program: addr(7),
        data: vec![],
        accounts: vec![addr(1), addr(2)],
        slot: 1,
    };
    let bytes = encode_event(&e, Network::Mainnet);
    for keep in 0..bytes.len() {
        assert!(
            matches!(decode_event(&bytes[..keep], Network::Mainnet), Err(TransportError::Malformed)),
            "prefix of {} bytes",
            keep
        );
    }
    let mut bad_kind = bytes.clone();
    bad_kind[1] = 7;
    assert!(matches!(decode_event(&bad_kind, Network::Mainnet), Err(TransportError::Malformed)));
    let mut huge_count = bytes.clone();
    huge_count[42 + 7] = 0xff;
    assert!(matches!(decode_event(&huge_count, Network::Mainnet), Err(TransportError::Malformed)));
}

#[test]
fn producer_forwards_only_selected_events() {
    let acct = AccountSelector::from_config(&vec![SYSTEM.to_string()]).ok().unwrap();
    let kept = RawEvent::AccountUpdate { address: addr(1), owner: addr(0), data: vec![4], slot: 3 };
    let dropped = RawEvent::AccountUpdate { address: addr(1), owner: addr(5), data: vec![4], slot: 3 };
    assert_eq!(forward_account(&acct, &kept, Network::Mainnet), Some(encode_event(&kept, Network::Mainnet)));
    assert_eq!(forward_account(&acct, &dropped, Network::Mainnet), None);
    let ins = InstructionSelector::from_config(&vec![]).ok().unwrap();
    let i = RawEvent::Instruction { program: addr(0), data: vec![], accounts: vec![], slot: 1 };
    assert_eq!(forward_instruction(&ins, &i, Network::Mainnet), None);
}

#[test]
fn close_listing_decodes_all_accounts() {
    let accts = close_accounts();
    let row = decode_close_listing(&token_size_bytes(3), &accts, 1000, 1_700_000_000).ok().unwrap();
    assert_eq!(row.wallet, accts[0]);
    assert_eq!(row.listing, accts[1]);
    assert_eq!(row.metadata, accts[2]);
    assert_eq!(row.token_account, accts[3]);
    assert_eq!(row.token_mint, accts[4]);
    assert_eq!(row.authority, accts[5]);
    assert_eq!(row.reward_center, accts[6]);
    assert_eq!(row.auction_house, accts[7]);
    assert_eq!(row.auction_house_fee_account, accts[8]);
    assert_eq!(row.trade_state, accts[9]);
    assert_eq!(row.ah_auctioneer_pda, accts[10]);
    assert_eq!(row.token_size, 3);
    assert_eq!(row.closed_at, 1_700_000_000);
    assert_eq!(row.slot, 1000);
}

#[test]
fn close_listing_malformed_inputs() {
    let accts = close_accounts();
    let data = token_size_bytes(1);
    for keep in 0..data.len() {
        assert!(matches!(decode_close_listing(&data[..keep], &accts, 1, 0), Err(DecodeError::Malformed)));
    }
    let mut longer = data.clone();
    longer.push(0);
    assert!(matches!(decode_close_listing(&longer, &accts, 1, 0), Err(DecodeError::Malformed)));
    for keep in 0..11 {
        let few = accts[..keep].to_vec();
        assert!(matches!(decode_close_listing(&data, &few, 1, 0), Err(DecodeError::Malformed)));
    }
}

#[test]
fn close_listing_overflow() {
    let accts = close_accounts();
    assert!(matches!(
        decode_close_listing(&token_size_bytes(1), &accts, u64::MAX, 0),
        Err(DecodeError::Overflow)
    ));
    assert!(matches!(
        decode_close_listing(&token_size_bytes(1u64 << 63), &accts, 1, 0),
        Err(DecodeError::Overflow)
    ));
    let ok = decode_close_listing(&token_size_bytes(i64::MAX as u64), &accts, i64::MAX as u64, 0);
    assert!(ok.is_ok());
}

#[test]
fn close_listing_scenario_at_slot_1000_then_999() {
    let accts = close_accounts();
    let mut store = Store::new();
    let row = decode_close_listing(&token_size_bytes(1), &accts, 1000, 1_650_000_000).ok().unwrap();
    store.apply_close_listing(&row);
    assert_eq!(store.listings.get(&accts[9]), Some((1000, Some(1_650_000_000))));
    assert_eq!(store.rewards_listings.get(&accts[1]), Some((1000, Some(1_650_000_000))));
    let late = decode_close_listing(&token_size_bytes(1), &accts, 999, 1_660_000_000).ok().unwrap();
    store.apply_close_listing(&late);
    assert_eq!(store.listings.get(&accts[9]), Some((1000, Some(1_650_000_000))));
    assert_eq!(store.rewards_listings.get(&accts[1]), Some((1000, Some(1_650_000_000))));
}

#[test]
fn interrupted_close_listing_changes_neither_table() {
    let accts = close_accounts();
    let mut store = Store::new();
    let first = decode_close_listing(&token_size_bytes(1), &accts, 10, 100).ok().unwrap();
    store.apply_close_listing(&first);
    let second = decode_close_listing(&token_size_bytes(1), &accts, 20, 200).ok().unwrap();
    assert_eq!(store.transact_close_listing(&second, true), Err(ApplyError::RolledBack));
    assert_eq!(store.listings.get(&accts[9]), Some((10, Some(100))));
    assert_eq!(store.rewards_listings.get(&accts[1]), Some((10, Some(100))));
    let other: Vec<Vec<u8>> = (0u8..11).map(|i| addr(200 + i)).collect();
    let fresh = decode_close_listing(&token_size_bytes(1), &other, 20, 200).ok().unwrap();
    assert_eq!(store.transact_close_listing(&fresh, true), Err(ApplyError::RolledBack));
    assert_eq!(store.listings.get(&other[9]), None);
    assert_eq!(store.rewards_listings.get(&other[1]), None);
    assert_eq!(store.transact_close_listing(&second, false), Ok(()));
    assert_eq!(store.listings.get(&accts[9]), Some((20, Some(200))));
    assert_eq!(store.rewards_listings.get(&accts[1]), Some((20, Some(200))));
}

#[test]
fn table_keeps_highest_slot() {
    let mut t: Table<u64> = Table::new();
    let k = addr(1);
    t.apply(&k, 5, 50);
    assert_eq!(t.get(&k), Some((5, 50)));
    t.apply(&k, 7, 70);
    assert_eq!(t.get(&k), Some((7, 70)));
    t.apply(&k, 6, 60);
    assert_eq!(t.get(&k), Some((7, 70)));
    t.apply(&k, 7, 71);
    assert_eq!(t.get(&k), Some((7, 70)));
    t.apply(&addr(2), 1, 10);
    assert_eq!(t.get(&addr(2)), Some((1, 10)));
    assert_eq!(t.get(&k), Some((7, 70)));
    assert_eq!(t.get(&addr(3)), None);
}

#[test]
fn increasing_slots_leave_last_row() {
    let mut t: Table<u64> = Table::new();
    let k = addr(4);
    for s in 1u64..=20 {
        t.apply(&k, s, s * 3);
    }
    assert_eq!(t.get(&k), Some((20, 60)));
    for s in (1u64..=20).rev() {
        t.apply(&k, s, 0);
    }
    assert_eq!(t.get(&k), Some((20, 60)));
}

fn token_account_data(amount: u64, state: u8) -> Vec<u8> {
    let mut d = vec![0u8; 165];
    for i in 0..32 {
        d[i] = 1;
        d[32 + i] = 2;
    }
    d[64..72].copy_from_slice(&amount.to_le_bytes());
    d[108] = state;
    d
}

#[test]
fn token_account_is_decoded() {
    let data = token_account_data(42_000, 1);
    let row = decode_token_account(&addr(5), &data, 77).ok().unwrap().unwrap();
    assert_eq!(row.address, addr(5));
    assert_eq!(row.mint, vec![1u8; 32]);
    assert_eq!(row.owner, vec![2u8; 32]);
    assert_eq!(row.amount, 42_000);
    assert_eq!(row.slot, 77);
    let mut store = Store::new();
    store.apply_token_account(&row);
    assert_eq!(store.token_accounts.get(&addr(5)), Some((77, 42_000)));
}

#[test]
fn token_account_of_other_size_is_skipped() {
    assert!(matches!(decode_token_account(&addr(5), &vec![0u8; 164], 1), Ok(None)));
    assert!(matches!(decode_token_account(&addr(5), &vec![0u8; 166], 1), Ok(None)));
    assert!(matches!(decode_token_account(&addr(5), &[], 1), Ok(None)));
}

#[test]
fn token_account_with_bad_state_is_malformed() {
    let data = token_account_data(1, 3);
    assert!(matches!(decode_token_account(&addr(5), &data, 1), Err(DecodeError::Malformed)));
    let mut bad_tag = token_account_data(1, 1);
    bad_tag[72] = 9;
    assert!(matches!(decode_token_account(&addr(5), &bad_tag, 1), Err(DecodeError::Malformed)));
}

#[test]
fn token_instruction_discriminators() {
    assert_eq!(decode_token_instruction(&[8, 1, 2]), Ok(TokenInstructionAction::Burn));
    assert_eq!(decode_token_instruction(&[3]), Ok(TokenInstructionAction::Ignore));
    assert_eq!(decode_token_instruction(&[]), Err(DecodeError::Malformed));
}

#[test]
fn dispatch_routes_by_program_and_discriminator() {
    let mut reg = Registry::new();
    let disc = vec![9u8, 9, 9, 9, 9, 9, 9, 9];
    reg.register(addr(50), disc.clone(), DecoderKind::CloseListing);
    reg.register(addr(60), vec![], DecoderKind::Token);
    let accts = close_accounts();
    let mut store = Store::new();
    let mut data = disc.clone();
    data.extend_from_slice(&token_size_bytes(1));
    assert_eq!(process_instruction(&mut store, &reg, &addr(50), &data, &accts, 1000, 5), Ok(Outcome::Applied));
    assert_eq!(store.listings.get(&accts[9]), Some((1000, Some(5))));
    assert_eq!(store.close_listing_records.len(), 1);
    assert_eq!(store.close_listing_records[0].trade_state, accts[9]);
    assert_eq!(store.close_listing_records[0].token_size, 1);
    assert_eq!(store.close_listing_records[0].slot, 1000);
    assert_eq!(process_instruction(&mut store, &reg, &addr(50), &[1, 2], &accts, 1001, 5), Ok(Outcome::Skipped));
    assert_eq!(process_instruction(&mut store, &reg, &addr(51), &data, &accts, 1001, 5), Ok(Outcome::Skipped));
    assert_eq!(
        process_instruction(&mut store, &reg, &addr(50), &disc, &accts, 1001, 5),
        Err(DecodeError::Malformed)
    );
    assert_eq!(process_instruction(&mut store, &reg, &addr(60), &[8], &accts, 1, 5), Ok(Outcome::Burn));
    assert_eq!(process_instruction(&mut store, &reg, &addr(60), &[7], &accts, 1, 5), Ok(Outcome::Ignored));
    assert_eq!(process_instruction(&mut store, &reg, &addr(60), &[], &accts, 1, 5), Err(DecodeError::Malformed));
}

#[test]
fn listing_end_rules() {
    let row = |e: Option<i64>, g: Option<i32>, l: Option<i64>| {
        ("L".to_string(), "S".to_string(), e, g, l)
    };
    let open = Listing::new(row(None, Some(10), Some(5)), 1_000).ok().unwrap();
    assert!(!open.ended());
    assert_eq!(open.address(), "L");
    assert_eq!(open.store_address(), "S");
    assert!(Listing::new(row(Some(100), None, None), 100).ok().unwrap().ended());
    assert!(!Listing::new(row(Some(100), None, None), 99).ok().unwrap().ended());
    assert!(!Listing::new(row(Some(100), Some(20), Some(95)), 110).ok().unwrap().ended());
    assert!(Listing::new(row(Some(100), Some(20), Some(95)), 115).ok().unwrap().ended());
    assert!(Listing::new(row(Some(100), Some(20), Some(50)), 100).ok().unwrap().ended());
    assert!(matches!(
        Listing::new(row(Some(100), Some(10), Some(i64::MAX)), 0),
        Err(ListingError::EndTimeOverflow)
    ));
    assert_eq!(Listing::address_of_row(&row(None, None, None)), "L");
}

#[test]
fn bid_from_columns() {
    let b = Bid::from_columns("L".to_string(), "B".to_string(), 0, 500, false).unwrap().ok().unwrap();
    assert_eq!(b.listing_address(), "L");
    assert_eq!(b.bidder_address(), "B");
    assert_eq!(b.last_bid_time(), "1970-01-01 00:00:00");
    assert_eq!(b.last_bid_amount(), 500);
    assert!(!b.cancelled());
    assert!(matches!(
        Bid::from_columns("L".to_string(), "B".to_string(), 0, -1, true),
        Some(Err(AmountError::Negative))
    ));
}

#[test]
fn consumer_applies_messages_of_its_network() {
    let mut reg = Registry::new();
    let disc = vec![4u8; 8];
    reg.register(addr(50), disc.clone(), DecoderKind::CloseListing);
    let token_program = addr(60);
    let mut store = Store::new();
    let mut data = disc.clone();
    data.extend_from_slice(&token_size_bytes(2));
    let accts = close_accounts();
    let ins = RawEvent::Instruction { program: addr(50), data, accounts: accts.clone(), slot: 1000 };
    let msg = encode_event(&ins, Network::Mainnet);
    assert_eq!(consume_message(&mut store, &reg, &token_program, &msg, Network::Mainnet, 9), Ok(Outcome::Applied));
    assert_eq!(store.rewards_listings.get(&accts[1]), Some((1000, Some(9))));
    assert_eq!(
        consume_message(&mut store, &reg, &token_program, &msg, Network::Devnet, 9),
        Err(ConsumeError::Transport(TransportError::WrongNetwork))
    );
    assert_eq!(
        consume_message(&mut store, &reg, &token_program, &msg[..9], Network::Mainnet, 9),
        Err(ConsumeError::Transport(TransportError::Malformed))
    );
    let upd = RawEvent::AccountUpdate {
        address: addr(5),
        owner: token_program.clone(),
        data: token_account_data(31, 1),
        slot: 40,
    };
    let msg = encode_event(&upd, Network::Mainnet);
    assert_eq!(consume_message(&mut store, &reg, &token_program, &msg, Network::Mainnet, 9), Ok(Outcome::Applied));
    assert_eq!(store.token_accounts.get(&addr(5)), Some((40, 31)));
    let other = RawEvent::AccountUpdate { address: addr(6), owner: addr(61), data: token_account_data(1, 1), slot: 41 };
    let msg = encode_event(&other, Network::Mainnet);
    assert_eq!(consume_message(&mut store, &reg, &token_program, &msg, Network::Mainnet, 9), Ok(Outcome::Skipped));
    let bad = RawEvent::AccountUpdate { address: addr(7), owner: token_program.clone(), data: token_account_data(1, 4), slot: 41 };
    let msg = encode_event(&bad, Network::Mainnet);
    assert_eq!(
        consume_message(&mut store, &reg, &token_program, &msg, Network::Mainnet, 9),
        Err(ConsumeError::Decode(DecodeError::Malformed))
    );
    assert_eq!(store.token_accounts.get(&addr(7)), None);
}

#[test]
fn handle_instruction_records_current_time() {
    let mut reg = Registry::new();
    reg.register(addr(50), vec![], DecoderKind::CloseListing);
    let mut store = Store::new();
    let accts = close_accounts();
    let r = handle_instruction(&mut store, &reg, &addr(50), &token_size_bytes(1), &accts, 77);
    assert_eq!(r, Ok(Outcome::Applied));
    let (slot, closed) = store.listings.get(&accts[9]).unwrap();
    assert_eq!(slot, 77);
    assert!(closed.unwrap() > 1_600_000_000);
    assert_eq!(store.rewards_listings.get(&accts[1]), Some((77, closed)));
}

#[test]
fn selector_from_addresses_is_exact() {
    let sel = Selector::from_addresses(vec![vec![1, 2, 3], addr(9)]);
    assert!(sel.accepts(&[1, 2, 3]));
    assert!(sel.accepts(&addr(9)));
    assert!(!sel.accepts(&[1, 2]));
    assert!(!Selector::from_addresses(vec![]).accepts(&addr(9)));
}

#[test]
fn bid_time_range_follows_chrono() {
    let at = |t: i64| Bid::from_columns("L".to_string(), "B".to_string(), t, 1, false);
    assert!(matches!(at(CHRONO_MAX_SECS), Some(Ok(_))));
    assert!(matches!(at(CHRONO_MIN_SECS), Some(Ok(_))));
    assert!(at(CHRONO_MAX_SECS + 1).is_none());
    assert!(at(CHRONO_MIN_SECS - 1).is_none());
    assert!(at(i64::MAX).is_none());
    let b = at(1_431_648_000).unwrap().ok().unwrap();
    assert_eq!(b.last_bid_time(), "2015-05-15 00:00:00");
}

#[test]
fn token_account_optional_field_tags() {
    let mut with_close_authority = token_account_data(5, 2);
    with_close_authority[129] = 1;
    assert!(matches!(decode_token_account(&addr(5), &with_close_authority, 1), Ok(Some(_))));
    let mut bad_native = token_account_data(5, 1);
    bad_native[110] = 1;
    assert!(matches!(decode_token_account(&addr(5), &bad_native, 1), Err(DecodeError::Malformed)));
    let mut bad_close = token_account_data(5, 1);
    bad_close[129] = 2;
    assert!(matches!(decode_token_account(&addr(5), &bad_close, 1), Err(DecodeError::Malformed)));
}
