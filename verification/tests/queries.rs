use icrc7::account::Account;
use icrc7::query_method::{
    icrc10_supported_standards, icrc3_supported_block_types, icrc7_balance_of,
    icrc7_collection_metadata, icrc7_owner_of, icrc7_supported_standards, icrc7_token_metadata,
    icrc7_tokens, icrc7_tokens_of, page_limit, page_of,
};
use icrc7::state::{init, saturating_times, Collection};
use icrc7::types::{InitArgs, MetadataValue, MintArgs, TransferArgs};

fn identity(tag: u8) -> Vec<u8> {
    vec![tag, 1, 2, 3]
}

fn account(tag: u8) -> Account {
    Account { owner: identity(tag), subaccount: None }
}

fn normal(tag: u8) -> Account {
    Account { owner: identity(tag), subaccount: Some([0u8; 32]) }
}

fn init_args() -> InitArgs {
    InitArgs {
        minting_authority: None,
        icrc7_name: "Collection".to_string(),
        icrc7_symbol: "COL".to_string(),
        icrc7_royalties: Some(25),
        icrc7_royalty_recipient: Some(account(b'R')),
        icrc7_description: Some("Things".to_string()),
        icrc7_logo: None,
        icrc7_supply_cap: Some(100),
        icrc7_max_query_batch_size: Some(50),
        icrc7_max_update_batch_size: None,
        icrc7_default_take_value: Some(2),
        icrc7_max_take_value: Some(3),
        icrc7_max_memo_size: Some(64),
        icrc7_atomic_batch_transfers: Some(true),
        permitted_drift: 2,
        tx_window: 24,
    }
}

fn ledger_with(ids: Vec<u128>) -> Collection {
    let mut c = init(init_args(), identity(b'A'), identity(b'L'));
    let args = MintArgs {
        token_ids: ids,
        name: "Token".to_string(),
        logo: Some("logo.png".to_string()),
        description: None,
        to: None,
        memo: None,
    };
    c.icrc7_mint(&identity(b'A'), args, 1).unwrap();
    c
}

fn give(c: &mut Collection, to: u8, ids: Vec<u128>) {
    let args = TransferArgs {
        spender_subaccount: None,
        from: account(b'A'),
        to: account(to),
        token_ids: ids,
        memo: None,
        created_at_time: None,
        is_atomic: None,
    };
    c.icrc7_transfer(&identity(b'A'), args, 2).unwrap();
}

fn text(value: &MetadataValue) -> String {
    match value {
        MetadataValue::Text(t) => t.clone(),
        other => panic!("no text: {:?}", other),
    }
}

fn number(value: &MetadataValue) -> u128 {
    match value {
        MetadataValue::Nat(n) => *n,
        other => panic!("no number: {:?}", other),
    }
}

#[test]
fn tokens_are_listed_page_by_page() {
    let c = ledger_with(vec![5, 1, 3]);
    assert_eq!(icrc7_tokens(&c, None, Some(2)), vec![1, 3]);
    assert_eq!(icrc7_tokens(&c, Some(3), Some(2)), vec![5]);
    assert_eq!(icrc7_tokens(&c, Some(5), Some(2)), Vec::<u128>::new());
}

#[test]
fn a_cursor_that_is_no_token_is_a_threshold() {
    let c = ledger_with(vec![1, 3, 5]);
    assert_eq!(icrc7_tokens(&c, Some(2), Some(2)), vec![3, 5]);
    assert_eq!(icrc7_tokens(&c, Some(0), Some(1)), vec![1]);
    assert_eq!(icrc7_tokens(&c, Some(9), None), Vec::<u128>::new());
}

#[test]
fn a_page_has_the_default_size_and_at_most_the_maximum() {
    let c = ledger_with(vec![1, 2, 3, 4, 5]);
    assert_eq!(icrc7_tokens(&c, None, None), vec![1, 2]);
    assert_eq!(icrc7_tokens(&c, None, Some(10)), vec![1, 2, 3]);
    assert_eq!(icrc7_tokens(&c, None, Some(0)), Vec::<u128>::new());
    assert_eq!(icrc7_tokens(&c, Some(3), Some(3)), vec![4, 5]);
}

#[test]
fn the_token_with_identifier_zero_is_listed() {
    let c = ledger_with(vec![0, 1]);
    assert_eq!(icrc7_tokens(&c, None, None), vec![0, 1]);
    assert_eq!(icrc7_tokens(&c, Some(0), None), vec![1]);
}

#[test]
fn page_limit_is_the_smaller_of_request_and_maximum() {
    assert_eq!(page_limit(Some(2), Some(3), None), Some(2));
    assert_eq!(page_limit(Some(2), Some(3), Some(5)), Some(3));
    assert_eq!(page_limit(Some(2), Some(3), Some(1)), Some(1));
    assert_eq!(page_limit(Some(7), Some(3), None), Some(3));
    assert_eq!(page_limit(None, Some(3), None), Some(3));
    assert_eq!(page_limit(None, None, Some(4)), Some(4));
    assert_eq!(page_limit(None, None, None), None);
}

#[test]
fn page_of_filters_and_cuts() {
    assert_eq!(page_of(&vec![1, 3, 5, 7], Some(1), Some(2)), vec![3, 5]);
    assert_eq!(page_of(&vec![1, 3, 5, 7], None, None), vec![1, 3, 5, 7]);
    assert_eq!(page_of(&vec![], Some(1), Some(2)), Vec::<u128>::new());
}

#[test]
fn tokens_of_an_account_are_listed_page_by_page() {
    let mut c = ledger_with(vec![1, 2, 3, 4, 5]);
    give(&mut c, b'B', vec![2, 4, 5]);
    assert_eq!(c.icrc7_tokens_of(&normal(b'B')), vec![2, 4, 5]);
    assert_eq!(c.icrc7_tokens_of(&normal(b'A')), vec![1, 3]);
    assert_eq!(c.icrc7_tokens_of(&normal(b'Z')), Vec::<u128>::new());
    assert_eq!(icrc7_tokens_of(&c, &normal(b'B'), None, Some(2)), vec![2, 4]);
    assert_eq!(icrc7_tokens_of(&c, &normal(b'B'), Some(4), Some(2)), vec![5]);
    assert_eq!(icrc7_tokens_of(&c, &normal(b'B'), Some(5), Some(2)), Vec::<u128>::new());
    // An account without a sub-identifier is the account with the default
    // one.
    assert_eq!(c.icrc7_tokens_of(&account(b'B')), vec![2, 4, 5]);
    assert_eq!(c.balance_of(&account(b'B')), 3);
    let other = Account { owner: identity(b'B'), subaccount: Some([1u8; 32]) };
    assert_eq!(c.icrc7_tokens_of(&other), Vec::<u128>::new());
}

#[test]
fn balances_count_the_tokens_of_each_account() {
    let mut c = ledger_with(vec![1, 2, 3]);
    give(&mut c, b'B', vec![2]);
    assert_eq!(c.balance_of(&normal(b'A')), 2);
    assert_eq!(c.balance_of(&normal(b'B')), 1);
    assert_eq!(c.balance_of(&normal(b'C')), 0);
    assert_eq!(icrc7_balance_of(&c, &vec![normal(b'B'), normal(b'C'), normal(b'A')]), vec![1, 0, 2]);
    assert_eq!(icrc7_balance_of(&c, &vec![]), Vec::<u128>::new());
}

#[test]
fn owners_are_given_for_the_tokens_that_exist() {
    let mut c = ledger_with(vec![1, 2]);
    give(&mut c, b'B', vec![2]);
    let owners = icrc7_owner_of(&c, &vec![2, 9, 1]);
    assert_eq!(owners.len(), 3);
    assert!(owners[0].as_ref().unwrap().same(&normal(b'B')));
    assert!(owners[1].is_none());
    assert!(owners[2].as_ref().unwrap().same(&normal(b'A')));
    assert!(c.owner_of(&9).is_none());
}

#[test]
fn token_metadata_lists_what_the_token_has() {
    let c = ledger_with(vec![8]);
    let entries = c.icrc7_token_metadata(&8);
    assert_eq!(entries.len(), 3);
    assert_eq!(entries[0].0, "Id");
    assert_eq!(number(&entries[0].1), 8);
    assert_eq!(entries[1].0, "Name");
    assert_eq!(text(&entries[1].1), "Token");
    assert_eq!(entries[2].0, "logo");
    assert_eq!(text(&entries[2].1), "logo.png");
    assert!(c.icrc7_token_metadata(&9).is_empty());
    let batch = icrc7_token_metadata(&c, &vec![9, 8]);
    assert!(batch[0].is_none());
    assert_eq!(batch[1].as_ref().unwrap().len(), 3);
}

#[test]
fn collection_metadata_lists_what_is_configured() {
    let c = ledger_with(vec![1, 2]);
    let entries = icrc7_collection_metadata(&c);
    let keys: Vec<&str> = entries.iter().map(|e| e.0.as_str()).collect();
    assert_eq!(
        keys,
        vec![
            "icrc7:name",
            "icrc7:symbol",
            "icrc7:description",
            "icrc7:total_supply",
            "icrc7:supply_cap",
            "icrc7:max_query_batch_size",
            "icrc7:default_take_value",
            "icrc7:max_take_value",
            "icrc7:max_memo_size",
            "icrc7:permitted_drift",
            "icrc7:tx_window",
        ]
    );
    assert_eq!(text(&entries[0].1), "Collection");
    assert_eq!(text(&entries[1].1), "COL");
    assert_eq!(text(&entries[2].1), "Things");
    assert_eq!(number(&entries[3].1), 2);
    assert_eq!(number(&entries[4].1), 100);
    assert_eq!(number(&entries[5].1), 50);
    assert_eq!(number(&entries[6].1), 2);
    assert_eq!(number(&entries[7].1), 3);
    assert_eq!(number(&entries[8].1), 64);
    assert_eq!(number(&entries[9].1), 120_000_000_000);
    assert_eq!(number(&entries[10].1), 86_400_000_000_000);
}

#[test]
fn init_keeps_the_configuration() {
    let c = init(init_args(), identity(b'A'), identity(b'L'));
    assert_eq!(c.icrc7_name(), "Collection");
    assert_eq!(c.icrc7_symbol(), "COL");
    assert_eq!(c.icrc7_description(), Some("Things".to_string()));
    assert_eq!(c.icrc7_logo(), None);
    assert_eq!(c.icrc7_royalties(), Some(25));
    assert_eq!(c.icrc7_royalty_recipient().unwrap().owner, identity(b'R'));
    assert_eq!(c.icrc7_total_supply(), 0);
    assert_eq!(c.icrc7_supply_cap(), Some(100));
    assert_eq!(c.icrc7_max_query_batch_size(), Some(50));
    assert_eq!(c.icrc7_max_update_batch_size(), None);
    assert_eq!(c.icrc7_default_take_value(), Some(2));
    assert_eq!(c.icrc7_max_take_value(), Some(3));
    assert_eq!(c.icrc7_max_memo_size(), Some(64));
    assert_eq!(c.icrc7_atomic_batch_transfers(), Some(true));
    assert_eq!(c.icrc7_tx_window(), Some(24 * 3_600_000_000_000));
    assert_eq!(c.icrc7_permitted_drift(), Some(2 * 60_000_000_000));
    // Without a minting authority, the caller is the authority.
    assert!(c.minting_authority().same(&normal(b'A')));
    assert!(c.burn_account().same(&normal(b'L')));
    let metadata = c.icrc7_collection_metadata();
    assert_eq!(metadata.icrc7_name, "Collection");
    assert_eq!(metadata.icrc7_symbol, "COL");
    assert_eq!(metadata.icrc7_royalties, Some(25));
    assert_eq!(metadata.icrc7_total_supply, 0);
    assert_eq!(metadata.icrc7_supply_cap, Some(100));
    assert_eq!(icrc7_tokens(&c, None, None), Vec::<u128>::new());
}

#[test]
fn init_uses_the_default_memo_size_and_saturates_the_durations() {
    let mut args = init_args();
    args.icrc7_max_memo_size = None;
    args.tx_window = u64::MAX;
    args.permitted_drift = 307_445_734;
    let c = init(args, identity(b'A'), identity(b'L'));
    assert_eq!(c.icrc7_max_memo_size(), Some(32));
    assert_eq!(c.icrc7_tx_window(), Some(u64::MAX as u128));
    assert_eq!(c.icrc7_permitted_drift(), Some(18_446_744_040_000_000_000));
}

#[test]
fn saturating_times_is_the_product_or_the_greatest_number() {
    assert_eq!(saturating_times(0, 9), 0);
    assert_eq!(saturating_times(3, 60_000_000_000), 180_000_000_000);
    assert_eq!(saturating_times(u64::MAX, 1), u64::MAX);
    assert_eq!(saturating_times(1 << 32, 1 << 32), u64::MAX);
    assert_eq!(saturating_times((1 << 32) - 1, 1 << 32), 0xFFFF_FFFF_0000_0000);
}

#[test]
fn standards_and_block_types_are_listed() {
    let standards = icrc7_supported_standards();
    assert_eq!(standards.len(), 1);
    assert_eq!(standards[0].name, "ICRC-7");
    assert_eq!(standards[0].url, "https://github.com/dfinity/ICRC/ICRCs/ICRC-7");
    let standards = icrc10_supported_standards();
    assert_eq!(standards.len(), 2);
    assert_eq!(standards[1].name, "ICRC-61");
    assert_eq!(standards[1].url, "https://github.com/dfinity/ICRC/ICRCs/ICRC-61");
    let kinds = icrc3_supported_block_types();
    let names: Vec<&str> = kinds.iter().map(|k| k.block_type.as_str()).collect();
    assert_eq!(names, vec!["7mint", "7burn", "7xfer", "7approve"]);
}
