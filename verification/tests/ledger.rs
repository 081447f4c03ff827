use icrc7::account::Account;
use icrc7::approve::mock_approve;
use icrc7::burn::{burn, mock_burn};
use icrc7::mint::mock_mint;
use icrc7::query_method::icrc7_tokens;
use icrc7::state::{get_txn_id, init, log_transaction, Collection};
use icrc7::transaction::{TransactionDeduplicationType, TransactionType};
use icrc7::transfer::{mock_transfer, txn_deduplication_check};
use icrc7::types::{
    ApprovalArgs, ApprovalError, BurnArgs, BurnError, InitArgs, MintArgs, MintError, TokenType,
    TransferArgs, TransferError,
};

const HOUR: u64 = 3_600_000_000_000;
const MINUTE: u64 = 60_000_000_000;

fn identity(tag: u8) -> Vec<u8> {
    vec![tag, 1, 2, 3]
}

fn account(tag: u8) -> Account {
    Account { owner: identity(tag), subaccount: None }
}

fn normal(tag: u8) -> Account {
    Account { owner: identity(tag), subaccount: Some([0u8; 32]) }
}

fn init_args(cap: Option<u128>) -> InitArgs {
    InitArgs {
        minting_authority: Some(account(b'A')),
        icrc7_name: "Collection".to_string(),
        icrc7_symbol: "COL".to_string(),
        icrc7_royalties: None,
        icrc7_royalty_recipient: None,
        icrc7_description: None,
        icrc7_logo: None,
        icrc7_supply_cap: cap,
        icrc7_max_query_batch_size: None,
        icrc7_max_update_batch_size: None,
        icrc7_default_take_value: None,
        icrc7_max_take_value: None,
        icrc7_max_memo_size: None,
        icrc7_atomic_batch_transfers: None,
        permitted_drift: 2,
        tx_window: 24,
    }
}

fn ledger(cap: Option<u128>) -> Collection {
    init(init_args(cap), identity(b'A'), identity(b'L'))
}

fn mint_args(ids: Vec<u128>) -> MintArgs {
    MintArgs {
        token_ids: ids,
        name: "Token".to_string(),
        logo: None,
        description: Some("A token".to_string()),
        to: None,
        memo: None,
    }
}

fn transfer_args(from: u8, to: u8, ids: Vec<u128>) -> TransferArgs {
    TransferArgs {
        spender_subaccount: None,
        from: account(from),
        to: account(to),
        token_ids: ids,
        memo: None,
        created_at_time: None,
        is_atomic: None,
    }
}

fn approval_args(spender: u8, ids: TokenType, expires_at: Option<u64>) -> ApprovalArgs {
    ApprovalArgs {
        from_subaccount: None,
        spender: account(spender),
        token_ids: ids,
        expires_at,
        memo: None,
        created_at_time: None,
    }
}

fn minted(ids: Vec<u128>) -> Collection {
    let mut c = ledger(None);
    c.icrc7_mint(&identity(b'A'), mint_args(ids), 1_000).unwrap();
    c
}

fn owner(c: &Collection, id: u128) -> Account {
    c.owner_of(&id).unwrap()
}

#[test]
fn mint_approve_transfer_then_owner_is_refused() {
    let mut c = ledger(None);
    let a = identity(b'A');
    let b = identity(b'B');
    assert_eq!(c.icrc7_mint(&a, mint_args(vec![10, 11]), 1_000).unwrap(), 1);
    assert_eq!(c.icrc7_total_supply(), 2);

    let approval = approval_args(b'B', TokenType::TokenIds(vec![10]), None);
    assert_eq!(c.icrc7_approve(&a, approval, 2_000).unwrap(), 2);

    let mut transfer = transfer_args(b'A', b'C', vec![10]);
    transfer.is_atomic = Some(false);
    assert_eq!(c.icrc7_transfer(&b, transfer, 3_000).unwrap(), 3);
    assert!(owner(&c, 10).same(&normal(b'C')));
    assert!(c.token(10).unwrap().approvals.is_empty());

    match c.icrc7_transfer(&a, transfer_args(b'A', b'B', vec![10]), 4_000) {
        Err(TransferError::Unauthorized { token_ids }) => assert_eq!(token_ids, vec![10]),
        other => panic!("unexpected result: {:?}", other),
    }
    assert!(owner(&c, 10).same(&normal(b'C')));
}

#[test]
fn mint_creates_tokens_and_logs_one_transaction() {
    let mut c = ledger(None);
    assert_eq!(get_txn_id(&c), 1);
    let id = c.icrc7_mint(&identity(b'A'), mint_args(vec![7, 3]), 55).unwrap();
    assert_eq!(id, 1);
    assert_eq!(get_txn_id(&c), 2);
    assert_eq!(c.icrc7_total_supply(), 2);
    let token = c.token(7).unwrap();
    assert_eq!(token.id, 7);
    assert_eq!(token.name, "Token");
    assert_eq!(token.description, Some("A token".to_string()));
    assert_eq!(token.logo, None);
    assert!(token.owner.same(&normal(b'A')));
    assert!(token.approvals.is_empty());
    let txn = c.transaction(1).unwrap();
    assert_eq!(txn.token_id, vec![7, 3]);
    assert_eq!(txn.created_at, 55);
    assert_eq!(txn.memo, None);
    match txn.txn_type {
        TransactionType::Mint { to } => assert!(to.same(&normal(b'A'))),
        other => panic!("unexpected kind: {:?}", other),
    }
    assert!(c.transaction(0).is_none());
    assert!(c.transaction(2).is_none());
}

#[test]
fn mint_goes_to_the_given_account() {
    let mut c = ledger(None);
    let mut args = mint_args(vec![1]);
    args.to = Some(Account { owner: identity(b'Z'), subaccount: Some([9u8; 32]) });
    c.icrc7_mint(&identity(b'A'), args, 1).unwrap();
    let held = owner(&c, 1);
    assert_eq!(held.owner, identity(b'Z'));
    assert_eq!(held.subaccount, Some([9u8; 32]));
}

#[test]
fn mint_by_another_caller_is_unauthorized() {
    let mut c = ledger(None);
    match c.icrc7_mint(&identity(b'B'), mint_args(vec![1]), 1) {
        Err(MintError::Unauthorized) => {},
        other => panic!("unexpected result: {:?}", other),
    }
    assert_eq!(c.icrc7_total_supply(), 0);
    assert_eq!(get_txn_id(&c), 1);
}

#[test]
fn mint_to_the_anonymous_identity_is_refused() {
    let mut c = ledger(None);
    let mut args = mint_args(vec![1]);
    args.to = Some(Account { owner: vec![4], subaccount: None });
    match c.icrc7_mint(&identity(b'A'), args, 1) {
        Err(MintError::InvalidRecipient) => {},
        other => panic!("unexpected result: {:?}", other),
    }
    assert!(c.token(1).is_none());
}

#[test]
fn mint_with_a_long_memo_is_refused() {
    let mut c = ledger(None);
    let mut args = mint_args(vec![1]);
    args.memo = Some(vec![0u8; 33]);
    match c.icrc7_mint(&identity(b'A'), args, 1) {
        Err(MintError::GenericError { error_code, message }) => {
            assert_eq!(error_code, 112);
            assert_eq!(message, "Exceeds Max Memo Size");
        },
        other => panic!("unexpected result: {:?}", other),
    }
    let mut args = mint_args(vec![1]);
    args.memo = Some(vec![0u8; 32]);
    assert_eq!(c.icrc7_mint(&identity(b'A'), args, 1).unwrap(), 1);
    assert_eq!(c.transaction(1).unwrap().memo, Some(vec![0u8; 32]));
}

#[test]
fn mint_of_no_token_is_refused() {
    let mut c = ledger(None);
    match c.icrc7_mint(&identity(b'A'), mint_args(vec![]), 1) {
        Err(MintError::GenericError { error_code, message }) => {
            assert_eq!(error_code, 2);
            assert_eq!(message, "Empty Token Ids");
        },
        other => panic!("unexpected result: {:?}", other),
    }
}

#[test]
fn mint_over_the_supply_cap_is_refused_and_changes_nothing() {
    let mut c = ledger(Some(3));
    c.icrc7_mint(&identity(b'A'), mint_args(vec![1, 2]), 1).unwrap();
    match c.icrc7_mint(&identity(b'A'), mint_args(vec![3, 4]), 2) {
        Err(MintError::SupplyCapReached) => {},
        other => panic!("unexpected result: {:?}", other),
    }
    assert_eq!(c.icrc7_total_supply(), 2);
    assert!(c.token(3).is_none());
    assert!(c.token(4).is_none());
    assert_eq!(get_txn_id(&c), 2);
    assert_eq!(c.icrc7_mint(&identity(b'A'), mint_args(vec![3]), 3).unwrap(), 2);
    assert_eq!(c.icrc7_total_supply(), 3);
    assert_eq!(c.icrc7_supply_cap(), Some(3));
}

#[test]
fn mint_of_an_existing_id_fails_for_the_whole_batch() {
    let mut c = minted(vec![1, 2]);
    match c.icrc7_mint(&identity(b'A'), mint_args(vec![5, 2, 6, 1]), 2) {
        Err(MintError::TokenIdAlreadyExists { ids }) => assert_eq!(ids, vec![2, 1]),
        other => panic!("unexpected result: {:?}", other),
    }
    assert_eq!(c.icrc7_total_supply(), 2);
    assert!(c.token(5).is_none());
    assert!(c.token(6).is_none());
    assert_eq!(icrc7_tokens(&c, None, None), vec![1, 2]);
    assert_eq!(get_txn_id(&c), 2);
}

#[test]
fn mint_of_a_repeated_id_fails_for_the_whole_batch() {
    let mut c = ledger(None);
    match c.icrc7_mint(&identity(b'A'), mint_args(vec![8, 9, 8]), 2) {
        Err(MintError::TokenIdAlreadyExists { ids }) => assert_eq!(ids, vec![8]),
        other => panic!("unexpected result: {:?}", other),
    }
    assert_eq!(c.icrc7_total_supply(), 0);
    assert!(c.token(8).is_none());
}

#[test]
fn mock_mint_gives_the_receiver_and_changes_nothing() {
    let c = ledger(None);
    let receiver = mock_mint(&c, &identity(b'A'), &mint_args(vec![1])).unwrap();
    assert!(receiver.same(&normal(b'A')));
    assert_eq!(c.icrc7_total_supply(), 0);
    assert!(c.token(1).is_none());
}

#[test]
fn transfer_by_the_owner_moves_the_token_and_clears_approvals() {
    let mut c = minted(vec![1, 2]);
    let a = identity(b'A');
    c.icrc7_approve(&a, approval_args(b'B', TokenType::Collection, None), 2).unwrap();
    assert_eq!(c.token(1).unwrap().approvals.len(), 1);
    let id = c.icrc7_transfer(&a, transfer_args(b'A', b'C', vec![1]), 3).unwrap();
    assert_eq!(id, 3);
    assert!(owner(&c, 1).same(&normal(b'C')));
    assert!(c.token(1).unwrap().approvals.is_empty());
    assert!(owner(&c, 2).same(&normal(b'A')));
    assert_eq!(c.token(2).unwrap().approvals.len(), 1);
    assert_eq!(c.icrc7_total_supply(), 2);
    let txn = c.transaction(3).unwrap();
    assert_eq!(txn.token_id, vec![1]);
    assert_eq!(txn.created_at, 3);
    match txn.txn_type {
        TransactionType::Transfer { from, spender, to } => {
            assert!(from.same(&normal(b'A')));
            assert!(spender.same(&normal(b'A')));
            assert!(to.same(&normal(b'C')));
        },
        other => panic!("unexpected kind: {:?}", other),
    }
}

#[test]
fn transfer_logs_the_identifiers_in_ascending_order() {
    let mut c = minted(vec![5, 1, 3]);
    let id = c.icrc7_transfer(&identity(b'A'), transfer_args(b'A', b'C', vec![5, 1, 3]), 3);
    assert_eq!(c.transaction(id.unwrap()).unwrap().token_id, vec![1, 3, 5]);
}

#[test]
fn transfer_of_no_token_is_refused() {
    let mut c = minted(vec![1]);
    match c.icrc7_transfer(&identity(b'A'), transfer_args(b'A', b'C', vec![]), 3) {
        Err(TransferError::GenericError { error_code, message }) => {
            assert_eq!(error_code, 2);
            assert_eq!(message, "Empty Token Ids");
        },
        other => panic!("unexpected result: {:?}", other),
    }
}

#[test]
fn transfer_with_a_long_memo_is_refused() {
    let mut c = minted(vec![1]);
    let mut args = transfer_args(b'A', b'C', vec![1]);
    args.memo = Some(vec![1u8; 40]);
    match c.icrc7_transfer(&identity(b'A'), args, 3) {
        Err(TransferError::GenericError { error_code, .. }) => assert_eq!(error_code, 112),
        other => panic!("unexpected result: {:?}", other),
    }
    assert!(owner(&c, 1).same(&normal(b'A')));
}

#[test]
fn transfer_from_or_to_the_anonymous_identity_is_refused() {
    let mut c = minted(vec![1]);
    let mut args = transfer_args(b'A', b'C', vec![1]);
    args.to = Account { owner: vec![4], subaccount: None };
    match c.icrc7_transfer(&identity(b'A'), args, 3) {
        Err(TransferError::InvalidRecipient) => {},
        other => panic!("unexpected result: {:?}", other),
    }
    let mut args = transfer_args(b'A', b'C', vec![1]);
    args.from = Account { owner: vec![4], subaccount: None };
    match c.icrc7_transfer(&identity(b'A'), args, 3) {
        Err(TransferError::GenericError { error_code, message }) => {
            assert_eq!(error_code, 100);
            assert_eq!(message, "Anonymous Identity");
        },
        other => panic!("unexpected result: {:?}", other),
    }
    assert!(owner(&c, 1).same(&normal(b'A')));
}

#[test]
fn transfer_created_too_long_ago_is_too_old() {
    let mut c = minted(vec![1]);
    let now = 100 * HOUR;
    let horizon = now - 24 * HOUR - 2 * MINUTE;
    let mut args = transfer_args(b'A', b'C', vec![1]);
    args.created_at_time = Some(horizon - 1);
    match c.icrc7_transfer(&identity(b'A'), args, now) {
        Err(TransferError::TooOld) => {},
        other => panic!("unexpected result: {:?}", other),
    }
    let mut args = transfer_args(b'A', b'C', vec![1]);
    args.created_at_time = Some(horizon);
    assert_eq!(c.icrc7_transfer(&identity(b'A'), args, now).unwrap(), 2);
}

#[test]
fn transfer_created_in_the_future_is_refused() {
    let mut c = minted(vec![1]);
    let now = 100 * HOUR;
    let mut args = transfer_args(b'A', b'C', vec![1]);
    args.created_at_time = Some(now + 2 * MINUTE + 1);
    match c.icrc7_transfer(&identity(b'A'), args, now) {
        Err(TransferError::CreatedInFuture { ledger_time }) => assert_eq!(ledger_time, now),
        other => panic!("unexpected result: {:?}", other),
    }
    let mut args = transfer_args(b'A', b'C', vec![1]);
    args.created_at_time = Some(now + 2 * MINUTE);
    assert_eq!(c.icrc7_transfer(&identity(b'A'), args, now).unwrap(), 2);
}

#[test]
fn transfer_with_an_early_clock_does_not_underflow() {
    let mut c = minted(vec![1]);
    let mut args = transfer_args(b'A', b'C', vec![1]);
    args.created_at_time = Some(0);
    assert_eq!(c.icrc7_transfer(&identity(b'A'), args, 5).unwrap(), 2);
}

#[test]
fn identical_transfer_within_the_window_is_a_duplicate() {
    let mut c = minted(vec![1, 2]);
    let a = identity(b'A');
    let now = 100 * HOUR;
    // The recipient is the owner's own second account, so that the owner may
    // ask for the same transfer again.
    let request = || {
        let mut args = transfer_args(b'A', b'A', vec![2, 1]);
        args.to = Account { owner: identity(b'A'), subaccount: Some([7u8; 32]) };
        args.from = Account { owner: identity(b'A'), subaccount: Some([7u8; 32]) };
        args.memo = Some(vec![1, 2, 3]);
        args.created_at_time = Some(now);
        args
    };
    let mut first = request();
    first.from = account(b'A');
    // Move the tokens to the second account first, without a creation time.
    first.created_at_time = None;
    assert_eq!(c.icrc7_transfer(&a, first, 50).unwrap(), 2);

    let caller_args = |time: Option<u64>| {
        let mut args = request();
        args.spender_subaccount = Some([7u8; 32]);
        args.created_at_time = time;
        args
    };
    assert_eq!(c.icrc7_transfer(&a, caller_args(Some(now)), now).unwrap(), 3);
    match c.icrc7_transfer(&a, caller_args(Some(now)), now + HOUR) {
        Err(TransferError::Duplicate { duplicate_of }) => assert_eq!(duplicate_of, 3),
        other => panic!("unexpected result: {:?}", other),
    }
    assert_eq!(get_txn_id(&c), 4);
    // Outside the window the request is too old, and no duplicate.
    match c.icrc7_transfer(&a, caller_args(Some(now)), now + 24 * HOUR + 2 * MINUTE + 1) {
        Err(TransferError::TooOld) => {},
        other => panic!("unexpected result: {:?}", other),
    }
    // Another memo makes another request.
    let mut other = caller_args(Some(now));
    other.memo = Some(vec![9]);
    assert_eq!(c.icrc7_transfer(&a, other, now + HOUR).unwrap(), 4);
}

#[test]
fn deduplication_stops_at_the_first_transaction_before_the_horizon() {
    let mut c = ledger(None);
    let now = 100 * HOUR;
    let horizon = now - 24 * HOUR - 2 * MINUTE;
    let kind = || TransactionType::Transfer { from: normal(b'A'), spender: normal(b'A'), to: normal(b'C') };
    // An identical transfer, then an older transaction behind which the scan
    // does not look, then a newer one.
    assert_eq!(log_transaction(&mut c, vec![1], kind(), None, horizon), 1);
    assert_eq!(log_transaction(&mut c, vec![2], kind(), None, horizon - 1), 2);
    assert_eq!(log_transaction(&mut c, vec![3], kind(), None, now), 3);
    let check = |c: &Collection, ids: Vec<u128>, time: u64| {
        c.transfer_txn_deduplication_check(now, time, &ids, &normal(b'A'), &normal(b'A'), &normal(b'C'), &None)
    };
    assert_eq!(check(&c, vec![1], horizon), TransactionDeduplicationType::NotFound);
    assert_eq!(check(&c, vec![3], now), TransactionDeduplicationType::DuplicateOf { index: 3 });
    assert_eq!(check(&c, vec![3], now - 1), TransactionDeduplicationType::NotFound);
    assert_eq!(check(&c, vec![4], now), TransactionDeduplicationType::NotFound);
    assert!(txn_deduplication_check(&c, now, None, &vec![3], &normal(b'A'), &normal(b'A'), &normal(b'C'), &None).is_ok());
    match txn_deduplication_check(&c, now, Some(now), &vec![3], &normal(b'A'), &normal(b'A'), &normal(b'C'), &None) {
        Err(TransferError::Duplicate { duplicate_of }) => assert_eq!(duplicate_of, 3),
        other => panic!("unexpected result: {:?}", other),
    }
}

#[test]
fn deduplication_finds_the_newest_identical_transfer() {
    let mut c = ledger(None);
    let now = 100 * HOUR;
    let kind = || TransactionType::Transfer { from: normal(b'A'), spender: normal(b'B'), to: normal(b'C') };
    log_transaction(&mut c, vec![1], kind(), Some(vec![5]), now);
    log_transaction(&mut c, vec![1], kind(), Some(vec![5]), now);
    log_transaction(&mut c, vec![1], TransactionType::Mint { to: normal(b'C') }, Some(vec![5]), now);
    let found = c.transfer_txn_deduplication_check(
        now, now, &vec![1], &normal(b'A'), &normal(b'B'), &normal(b'C'), &Some(vec![5]),
    );
    assert_eq!(found, TransactionDeduplicationType::DuplicateOf { index: 2 });
    // Another spender, another recipient, another sender: no duplicate.
    let other = c.transfer_txn_deduplication_check(
        now, now, &vec![1], &normal(b'A'), &normal(b'A'), &normal(b'C'), &Some(vec![5]),
    );
    assert_eq!(other, TransactionDeduplicationType::NotFound);
}

#[test]
fn transfer_by_a_stranger_is_unauthorized() {
    let mut c = minted(vec![1]);
    match c.icrc7_transfer(&identity(b'B'), transfer_args(b'A', b'B', vec![1]), 3) {
        Err(TransferError::Unauthorized { token_ids }) => assert_eq!(token_ids, vec![1]),
        other => panic!("unexpected result: {:?}", other),
    }
    assert!(owner(&c, 1).same(&normal(b'A')));
}

#[test]
fn transfer_of_a_missing_token_is_unauthorized() {
    let mut c = minted(vec![1]);
    match c.icrc7_transfer(&identity(b'A'), transfer_args(b'A', b'B', vec![2]), 3) {
        Err(TransferError::Unauthorized { token_ids }) => assert_eq!(token_ids, vec![2]),
        other => panic!("unexpected result: {:?}", other),
    }
}

#[test]
fn transfer_by_an_approved_spender_needs_the_owner_as_from() {
    let mut c = minted(vec![1]);
    c.icrc7_approve(&identity(b'A'), approval_args(b'B', TokenType::TokenIds(vec![1]), None), 2)
        .unwrap();
    match c.icrc7_transfer(&identity(b'B'), transfer_args(b'Z', b'B', vec![1]), 3) {
        Err(TransferError::Unauthorized { token_ids }) => assert_eq!(token_ids, vec![1]),
        other => panic!("unexpected result: {:?}", other),
    }
    assert_eq!(c.icrc7_transfer(&identity(b'B'), transfer_args(b'A', b'B', vec![1]), 3).unwrap(), 3);
    assert!(owner(&c, 1).same(&normal(b'B')));
}

#[test]
fn expired_approval_is_no_approval() {
    let mut c = minted(vec![1]);
    c.icrc7_approve(&identity(b'A'), approval_args(b'B', TokenType::TokenIds(vec![1]), Some(100)), 2)
        .unwrap();
    // At the time of expiry the approval is no longer valid.
    match c.icrc7_transfer(&identity(b'B'), transfer_args(b'A', b'B', vec![1]), 100) {
        Err(TransferError::Unauthorized { token_ids }) => assert_eq!(token_ids, vec![1]),
        other => panic!("unexpected result: {:?}", other),
    }
    assert!(owner(&c, 1).same(&normal(b'A')));
    assert_eq!(c.icrc7_transfer(&identity(b'B'), transfer_args(b'A', b'B', vec![1]), 99).unwrap(), 3);
}

#[test]
fn atomic_transfer_with_an_unauthorized_token_changes_nothing() {
    let mut c = minted(vec![1, 2, 3]);
    let a = identity(b'A');
    c.icrc7_transfer(&a, transfer_args(b'A', b'C', vec![2]), 2).unwrap();
    c.icrc7_approve(&a, approval_args(b'B', TokenType::TokenIds(vec![1]), None), 3).unwrap();
    let mut args = transfer_args(b'A', b'D', vec![3, 2, 1, 9]);
    args.is_atomic = Some(true);
    match c.icrc7_transfer(&a, args, 4) {
        Err(TransferError::Unauthorized { token_ids }) => assert_eq!(token_ids, vec![2, 9]),
        other => panic!("unexpected result: {:?}", other),
    }
    assert!(owner(&c, 1).same(&normal(b'A')));
    assert!(owner(&c, 2).same(&normal(b'C')));
    assert!(owner(&c, 3).same(&normal(b'A')));
    assert_eq!(c.token(1).unwrap().approvals.len(), 1);
    assert_eq!(get_txn_id(&c), 4);
}

#[test]
fn transfer_that_is_not_atomic_moves_what_it_may() {
    let mut c = minted(vec![1, 2, 3]);
    let a = identity(b'A');
    c.icrc7_transfer(&a, transfer_args(b'A', b'C', vec![2]), 2).unwrap();
    let mut args = transfer_args(b'A', b'D', vec![3, 2, 1, 9]);
    args.is_atomic = Some(false);
    let moved = mock_transfer(&c, &a, &args, 3).unwrap();
    assert_eq!(moved, vec![1, 3]);
    assert!(owner(&c, 1).same(&normal(b'A')));
    let id = c.icrc7_transfer(&a, args, 3).unwrap();
    assert_eq!(id, 3);
    assert!(owner(&c, 1).same(&normal(b'D')));
    assert!(owner(&c, 2).same(&normal(b'C')));
    assert!(owner(&c, 3).same(&normal(b'D')));
    assert_eq!(c.transaction(3).unwrap().token_id, vec![1, 3]);
}

#[test]
fn transfer_that_is_not_atomic_fails_where_nothing_may_move() {
    let mut c = minted(vec![1, 2]);
    let mut args = transfer_args(b'A', b'D', vec![2, 1]);
    args.is_atomic = Some(false);
    match c.icrc7_transfer(&identity(b'B'), args, 3) {
        Err(TransferError::Unauthorized { token_ids }) => assert_eq!(token_ids, vec![1, 2]),
        other => panic!("unexpected result: {:?}", other),
    }
    assert_eq!(get_txn_id(&c), 2);
}

#[test]
fn transfer_of_a_token_twice_in_one_batch_moves_it_once() {
    let mut c = minted(vec![1]);
    let id = c.icrc7_transfer(&identity(b'A'), transfer_args(b'A', b'C', vec![1, 1]), 3).unwrap();
    assert!(owner(&c, 1).same(&normal(b'C')));
    assert_eq!(c.transaction(id).unwrap().token_id, vec![1, 1]);
    assert_eq!(c.icrc7_total_supply(), 1);
}

#[test]
fn transfer_uses_the_sub_identifier_of_the_spender() {
    let mut c = ledger(None);
    let mut to_sub = mint_args(vec![1]);
    to_sub.to = Some(Account { owner: identity(b'B'), subaccount: Some([5u8; 32]) });
    c.icrc7_mint(&identity(b'A'), to_sub, 1).unwrap();
    // The default account of the same identity does not own the token.
    let mut args = transfer_args(b'B', b'C', vec![1]);
    args.from = Account { owner: identity(b'B'), subaccount: Some([5u8; 32]) };
    match c.icrc7_transfer(&identity(b'B'), args, 3) {
        Err(TransferError::Unauthorized { token_ids }) => assert_eq!(token_ids, vec![1]),
        other => panic!("unexpected result: {:?}", other),
    }
    let mut args = transfer_args(b'B', b'C', vec![1]);
    args.from = Account { owner: identity(b'B'), subaccount: Some([5u8; 32]) };
    args.spender_subaccount = Some([5u8; 32]);
    assert_eq!(c.icrc7_transfer(&identity(b'B'), args, 3).unwrap(), 2);
}

#[test]
fn burn_gives_the_token_to_the_burn_account_and_keeps_the_supply() {
    let mut c = minted(vec![1, 2]);
    let a = identity(b'A');
    c.icrc7_approve(&a, approval_args(b'B', TokenType::Collection, None), 2).unwrap();
    let args = BurnArgs { from_subaccount: None, token_ids: vec![2, 1], memo: Some(vec![7]) };
    assert_eq!(mock_burn(&c, &a, &args).unwrap(), vec![1, 2]);
    let id = burn(&mut c, &a, args, 9).unwrap();
    assert_eq!(id, 3);
    let sink = c.burn_account();
    assert!(sink.same(&normal(b'L')));
    assert!(owner(&c, 1).same(&sink));
    assert!(owner(&c, 2).same(&sink));
    assert!(c.token(1).unwrap().approvals.is_empty());
    assert_eq!(c.icrc7_total_supply(), 2);
    let txn = c.transaction(3).unwrap();
    assert_eq!(txn.token_id, vec![1, 2]);
    assert_eq!(txn.memo, Some(vec![7]));
    assert_eq!(txn.op(), "7burn");
    match txn.txn_type {
        TransactionType::Burn { from, to } => {
            assert!(from.same(&normal(b'A')));
            assert!(to.same(&normal(b'L')));
        },
        other => panic!("unexpected kind: {:?}", other),
    }
    // A burned token cannot be moved by its former owner.
    match c.icrc7_transfer(&a, transfer_args(b'A', b'C', vec![1]), 10) {
        Err(TransferError::Unauthorized { token_ids }) => assert_eq!(token_ids, vec![1]),
        other => panic!("unexpected result: {:?}", other),
    }
}

#[test]
fn burn_by_an_approved_spender_is_unauthorized() {
    let mut c = minted(vec![1, 2]);
    c.icrc7_approve(&identity(b'A'), approval_args(b'B', TokenType::Collection, None), 2).unwrap();
    let args = BurnArgs { from_subaccount: None, token_ids: vec![2, 1, 5], memo: None };
    match burn(&mut c, &identity(b'B'), args, 9) {
        Err(BurnError::Unauthorized { token_ids }) => assert_eq!(token_ids, vec![1, 2, 5]),
        other => panic!("unexpected result: {:?}", other),
    }
    assert!(owner(&c, 1).same(&normal(b'A')));
    assert_eq!(get_txn_id(&c), 3);
}

#[test]
fn burn_of_no_token_or_with_a_long_memo_is_refused() {
    let mut c = minted(vec![1]);
    let a = identity(b'A');
    let empty = BurnArgs { from_subaccount: None, token_ids: vec![], memo: None };
    match burn(&mut c, &a, empty, 9) {
        Err(BurnError::GenericError { error_code, .. }) => assert_eq!(error_code, 2),
        other => panic!("unexpected result: {:?}", other),
    }
    let long = BurnArgs { from_subaccount: None, token_ids: vec![1], memo: Some(vec![0; 33]) };
    match burn(&mut c, &a, long, 9) {
        Err(BurnError::GenericError { error_code, .. }) => assert_eq!(error_code, 112),
        other => panic!("unexpected result: {:?}", other),
    }
    assert!(owner(&c, 1).same(&normal(b'A')));
}

#[test]
fn approve_replaces_the_approval_of_the_same_spender() {
    let mut c = minted(vec![1]);
    let a = identity(b'A');
    c.icrc7_approve(&a, approval_args(b'B', TokenType::TokenIds(vec![1]), Some(10)), 2).unwrap();
    c.icrc7_approve(&a, approval_args(b'C', TokenType::TokenIds(vec![1]), None), 3).unwrap();
    c.icrc7_approve(&a, approval_args(b'B', TokenType::TokenIds(vec![1]), Some(20)), 4).unwrap();
    let approvals = c.token(1).unwrap().approvals;
    assert_eq!(approvals.len(), 2);
    assert!(approvals[0].account.same(&normal(b'B')));
    assert_eq!(approvals[0].expires_at, Some(20));
    assert!(approvals[1].account.same(&normal(b'C')));
    assert_eq!(approvals[1].expires_at, None);
    let txn = c.transaction(4).unwrap();
    assert_eq!(txn.op(), "7approve");
    match txn.txn_type {
        TransactionType::Approval { spender } => assert!(spender.same(&normal(b'B'))),
        other => panic!("unexpected kind: {:?}", other),
    }
}

#[test]
fn approve_for_the_collection_is_for_every_token_of_the_caller() {
    let mut c = minted(vec![3, 1, 2]);
    let a = identity(b'A');
    c.icrc7_transfer(&a, transfer_args(b'A', b'C', vec![2]), 2).unwrap();
    let ids = mock_approve(&c, &a, &approval_args(b'B', TokenType::Collection, None)).unwrap();
    assert_eq!(ids, vec![1, 3]);
    let id = c.icrc7_approve(&a, approval_args(b'B', TokenType::Collection, None), 3).unwrap();
    assert_eq!(c.transaction(id).unwrap().token_id, vec![1, 3]);
    assert_eq!(c.token(1).unwrap().approvals.len(), 1);
    assert_eq!(c.token(3).unwrap().approvals.len(), 1);
    assert!(c.token(2).unwrap().approvals.is_empty());
}

#[test]
fn approve_for_the_collection_needs_a_token() {
    let mut c = minted(vec![1]);
    match c.icrc7_approve(&identity(b'B'), approval_args(b'C', TokenType::Collection, None), 3) {
        Err(ApprovalError::GenericError { error_code, message }) => {
            assert_eq!(error_code, 3);
            assert_eq!(message, "No Token Owned");
        },
        other => panic!("unexpected result: {:?}", other),
    }
}

#[test]
fn approve_of_a_token_of_another_owner_is_never_applied_in_part() {
    let mut c = minted(vec![1, 2]);
    let a = identity(b'A');
    c.icrc7_transfer(&a, transfer_args(b'A', b'C', vec![2]), 2).unwrap();
    match c.icrc7_approve(&a, approval_args(b'B', TokenType::TokenIds(vec![2, 1, 7]), None), 3) {
        Err(ApprovalError::Unauthorized { token_ids }) => assert_eq!(token_ids, vec![2, 7]),
        other => panic!("unexpected result: {:?}", other),
    }
    assert!(c.token(1).unwrap().approvals.is_empty());
    assert_eq!(get_txn_id(&c), 3);
}

#[test]
fn approve_of_the_anonymous_identity_or_of_no_token_is_refused() {
    let mut c = minted(vec![1]);
    let a = identity(b'A');
    let mut args = approval_args(b'B', TokenType::TokenIds(vec![1]), None);
    args.spender = Account { owner: vec![4], subaccount: Some([1u8; 32]) };
    match c.icrc7_approve(&a, args, 3) {
        Err(ApprovalError::GenericError { error_code, .. }) => assert_eq!(error_code, 100),
        other => panic!("unexpected result: {:?}", other),
    }
    match c.icrc7_approve(&a, approval_args(b'B', TokenType::TokenIds(vec![]), None), 3) {
        Err(ApprovalError::GenericError { error_code, .. }) => assert_eq!(error_code, 2),
        other => panic!("unexpected result: {:?}", other),
    }
    assert!(c.token(1).unwrap().approvals.is_empty());
}

#[test]
fn the_ledger_keeps_accounts_normalized() {
    let mut c = minted(vec![1, 2]);
    let a = identity(b'A');
    c.icrc7_approve(&a, approval_args(b'B', TokenType::Collection, None), 2).unwrap();
    c.icrc7_transfer(&a, transfer_args(b'A', b'C', vec![2]), 3).unwrap();
    for id in [1u128, 2] {
        let token = c.token(id).unwrap();
        assert!(token.is_sound());
        assert_eq!(token.owner.subaccount.is_some(), true);
    }
    assert_eq!(c.token(1).unwrap().approvals[0].account.subaccount, Some([0u8; 32]));
    match c.transaction(3).unwrap().txn_type {
        TransactionType::Transfer { from, spender, to } => {
            assert_eq!(from.subaccount, Some([0u8; 32]));
            assert_eq!(spender.subaccount, Some([0u8; 32]));
            assert_eq!(to.subaccount, Some([0u8; 32]));
        },
        other => panic!("unexpected kind: {:?}", other),
    }
}

#[test]
fn log_transaction_appends_with_the_next_identifier() {
    let mut c = ledger(None);
    let id = log_transaction(&mut c, vec![4, 2], TransactionType::Mint { to: normal(b'C') }, Some(vec![1]), 77);
    assert_eq!(id, 1);
    assert_eq!(get_txn_id(&c), 2);
    let txn = c.transaction(1).unwrap();
    assert_eq!(txn.token_id, vec![4, 2]);
    assert_eq!(txn.created_at, 77);
    assert_eq!(txn.memo, Some(vec![1]));
    assert_eq!(txn.op(), "7mint");
}
