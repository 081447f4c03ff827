use icrc7::account::{
    account_transformer, bytes_clone, bytes_eq, default_account_from_principal, is_anonymous,
    put_account, take_account, Account,
};
use icrc7::codec::{
    put_bytes, put_ids, put_opt_u64, put_text, put_u128, put_u64, take_bytes, take_ids,
    take_opt_u64, take_text, take_u128, take_u64,
};
use icrc7::order::{holds_before, sort_ids};
use icrc7::state::{Collection, CollectionConfig};
use icrc7::store::{fresh_stores, stored_stores, token_fits, transaction_fits};
use icrc7::token::{decode_token, encode_token, Approval, ApprovalResult, Token};
use icrc7::transaction::{decode_transaction, encode_transaction, Transaction, TransactionType};
use icrc7::types::{ApprovalArgs, TokenType};
use icrc7::upgrade::{frame_state, unframe_state};

fn account(tag: u8, sub: Option<[u8; 32]>) -> Account {
    Account { owner: vec![tag, 9, 9], subaccount: sub }
}

fn token() -> Token {
    Token {
        owner: account(1, Some([3u8; 32])),
        id: 0x0102_0304_0506_0708_090a_0b0c_0d0e_0f10,
        logo: Some("l\u{f6}go".to_string()),
        description: None,
        name: "N\u{e4}me \u{1f600}".to_string(),
        approvals: vec![
            Approval { expires_at: Some(77), account: account(2, Some([0u8; 32])) },
            Approval { expires_at: None, account: account(3, None) },
        ],
    }
}

fn config() -> CollectionConfig {
    CollectionConfig {
        minting_authority: account(1, Some([0u8; 32])),
        burn_account: account(2, Some([0u8; 32])),
        icrc7_name: "Collection".to_string(),
        icrc7_symbol: "COL".to_string(),
        icrc7_royalties: None,
        icrc7_royalty_recipient: None,
        icrc7_description: None,
        icrc7_logo: None,
        icrc7_supply_cap: Some(1),
        icrc7_max_query_batch_size: None,
        icrc7_max_update_batch_size: None,
        icrc7_default_take_value: None,
        icrc7_max_take_value: None,
        icrc7_max_memo_size: 32,
        icrc7_atomic_batch_transfers: None,
        tx_window: 10,
        permitted_drift: 1,
    }
}

#[test]
fn an_absent_sub_identifier_becomes_the_default() {
    let a = account_transformer(account(1, None));
    assert_eq!(a.owner, vec![1, 9, 9]);
    assert_eq!(a.subaccount, Some([0u8; 32]));
    let b = account_transformer(account(1, Some([4u8; 32])));
    assert_eq!(b.subaccount, Some([4u8; 32]));
    let c = default_account_from_principal(vec![7]);
    assert_eq!(c.owner, vec![7]);
    assert_eq!(c.subaccount, Some([0u8; 32]));
    assert!(a.same(&account(1, Some([0u8; 32]))));
    assert!(a.same(&account(1, None)));
    assert!(account(1, None).same(&account(1, None)));
    assert!(!account(1, None).same(&account(1, Some([1u8; 32]))));
    assert!(!a.same(&b));
    assert!(!a.same(&account(2, Some([0u8; 32]))));
    assert!(a.clone().same(&a));
}

#[test]
fn the_anonymous_identity_is_the_byte_four() {
    assert!(is_anonymous(&vec![4]));
    assert!(!is_anonymous(&vec![]));
    assert!(!is_anonymous(&vec![4, 4]));
    assert!(!is_anonymous(&vec![5]));
    assert!(Account { owner: vec![4], subaccount: Some([1u8; 32]) }.is_anonymous());
    assert!(!account(4, None).is_anonymous());
}

#[test]
fn byte_strings_are_compared_and_copied() {
    assert!(bytes_eq(&[1, 2, 3], &[1, 2, 3]));
    assert!(!bytes_eq(&[1, 2, 3], &[1, 2]));
    assert!(!bytes_eq(&[1, 2, 3], &[1, 2, 4]));
    assert!(bytes_eq(&[], &[]));
    assert_eq!(bytes_clone(&[5, 6]), vec![5, 6]);
}

#[test]
fn fields_are_written_in_their_format() {
    let mut out = Vec::new();
    put_u64(&mut out, 0x0102);
    assert_eq!(out, vec![2, 1, 0, 0, 0, 0, 0, 0]);
    let mut out = vec![9];
    put_u128(&mut out, 1);
    assert_eq!(out, vec![9, 1, 0, 0, 0, 0, 0, 0, 0, 0, 0, 0, 0, 0, 0, 0, 0]);
    let mut out = Vec::new();
    put_bytes(&mut out, &[7, 8]);
    assert_eq!(out, vec![2, 0, 0, 0, 0, 0, 0, 0, 7, 8]);
    let mut out = Vec::new();
    put_text(&mut out, &"\u{e4}".to_string());
    assert_eq!(out, vec![2, 0, 0, 0, 0, 0, 0, 0, 0xc3, 0xa4]);
    let mut out = Vec::new();
    put_opt_u64(&mut out, None);
    put_opt_u64(&mut out, Some(3));
    assert_eq!(out, vec![0, 1, 3, 0, 0, 0, 0, 0, 0, 0]);
    let mut out = Vec::new();
    put_ids(&mut out, &vec![5]);
    assert_eq!(out.len(), 24);
    assert_eq!(out[0], 1);
    assert_eq!(out[8], 5);
    let mut out = Vec::new();
    put_account(&mut out, &account(1, None));
    assert_eq!(out, vec![3, 0, 0, 0, 0, 0, 0, 0, 1, 9, 9, 0]);
}

#[test]
fn fields_are_read_back() {
    let mut out = vec![0xff];
    put_u64(&mut out, 12345);
    put_u128(&mut out, u128::MAX - 1);
    put_bytes(&mut out, &[1, 2, 3]);
    put_text(&mut out, &"text".to_string());
    put_opt_u64(&mut out, Some(9));
    put_ids(&mut out, &vec![3, 1, 2]);
    put_account(&mut out, &account(1, Some([8u8; 32])));
    let (a, p) = take_u64(&out, 1).unwrap();
    assert_eq!((a, p), (12345, 9));
    let (b, p) = take_u128(&out, p).unwrap();
    assert_eq!(b, u128::MAX - 1);
    let (c, p) = take_bytes(&out, p).unwrap();
    assert_eq!(c, vec![1, 2, 3]);
    let (d, p) = take_text(&out, p).unwrap();
    assert_eq!(d, "text");
    let (e, p) = take_opt_u64(&out, p).unwrap();
    assert_eq!(e, Some(9));
    let (f, p) = take_ids(&out, p).unwrap();
    assert_eq!(f, vec![3, 1, 2]);
    let (g, p) = take_account(&out, p).unwrap();
    assert!(g.same(&account(1, Some([8u8; 32]))));
    assert_eq!(p, out.len());
    assert!(take_u64(&out, p).is_none());
    assert!(take_bytes(&[9, 0, 0, 0, 0, 0, 0, 0, 1], 0).is_none());
    assert!(take_opt_u64(&[2], 0).is_none());
}

#[test]
fn a_text_that_is_no_utf8_is_not_read() {
    assert!(take_text(&[1, 0, 0, 0, 0, 0, 0, 0, 0xff], 0).is_none());
    assert!(take_text(&[2, 0, 0, 0, 0, 0, 0, 0, 0xc3, 0x28], 0).is_none());
    let (t, p) = take_text(&[2, 0, 0, 0, 0, 0, 0, 0, 0xc3, 0xa4, 7], 0).unwrap();
    assert_eq!(t, "\u{e4}");
    assert_eq!(p, 10);
}

#[test]
fn a_token_is_read_back_from_its_row() {
    let t = token();
    let row = encode_token(&t);
    let back = decode_token(&row).unwrap();
    assert_eq!(back.id, t.id);
    assert_eq!(back.name, t.name);
    assert_eq!(back.logo, t.logo);
    assert_eq!(back.description, t.description);
    assert!(back.owner.same(&t.owner));
    assert_eq!(back.approvals.len(), 2);
    assert_eq!(back.approvals[0].expires_at, Some(77));
    assert!(back.approvals[0].account.same(&t.approvals[0].account));
    assert_eq!(back.approvals[1].expires_at, None);
    assert!(back.approvals[1].account.same(&t.approvals[1].account));
    assert!(token_fits(&t));
}

#[test]
fn a_row_with_other_bytes_is_no_token() {
    let mut row = encode_token(&token());
    assert!(decode_token(&row[..row.len() - 1]).is_none());
    row.push(0);
    assert!(decode_token(&row).is_none());
    assert!(decode_token(&[]).is_none());
}

#[test]
fn a_transaction_is_read_back_from_its_row() {
    let kinds = vec![
        TransactionType::Transfer {
            from: account(1, None),
            spender: account(2, Some([1u8; 32])),
            to: account(3, None),
        },
        TransactionType::Approval { spender: account(4, None) },
        TransactionType::Mint { to: account(5, None) },
        TransactionType::Burn { from: account(6, None), to: account(7, None) },
    ];
    let names = vec!["7xfer", "7approve", "7mint", "7burn"];
    for (kind, name) in kinds.into_iter().zip(names) {
        let t = Transaction::new(vec![9, 1], kind, 123, Some(vec![1, 2]));
        assert_eq!(t.op(), name);
        let row = encode_transaction(&t);
        let back = decode_transaction(&row).unwrap();
        assert_eq!(back.token_id, vec![9, 1]);
        assert_eq!(back.created_at, 123);
        assert_eq!(back.memo, Some(vec![1, 2]));
        assert_eq!(back.op(), name);
        assert_eq!(encode_transaction(&back), row);
        assert!(transaction_fits(&t));
        assert!(decode_transaction(&row[1..]).is_none());
    }
}

#[test]
fn approvals_are_checked_by_owner_spender_and_time() {
    let mut t = token();
    let spender = account(2, Some([0u8; 32]));
    assert_eq!(t.approval_check(&spender, 76), ApprovalResult::Approved);
    assert_eq!(t.approval_check(&spender, 77), ApprovalResult::Expired);
    assert_eq!(t.approval_check(&account(3, None), u64::MAX), ApprovalResult::Approved);
    assert_eq!(t.approval_check(&account(9, None), 0), ApprovalResult::NotApproved);
    assert!(t.is_authorized(&account(1, Some([3u8; 32])), 1000));
    assert!(t.is_authorized(&spender, 76));
    assert!(!t.is_authorized(&spender, 77));
    assert!(t.has_distinct_spenders());
    let args = ApprovalArgs {
        from_subaccount: None,
        spender: account(3, None),
        token_ids: TokenType::Collection,
        expires_at: Some(5),
        memo: None,
        created_at_time: None,
    };
    t.approve(&args);
    assert_eq!(t.approvals.len(), 2);
    assert_eq!(t.approvals[1].expires_at, Some(5));
    t.grant(&account(8, None), None);
    assert_eq!(t.approvals.len(), 3);
    t.approvals.push(Approval { expires_at: None, account: account(8, None) });
    assert!(!t.has_distinct_spenders());
    t.transfer(account(5, None));
    assert!(t.owner.same(&account(5, None)));
    assert!(t.approvals.is_empty());
    let made = Token::new(4, account(1, None), "n".to_string(), None, Some("d".to_string()));
    assert_eq!(made.id, 4);
    assert!(made.approvals.is_empty());
    assert_eq!(made.description, Some("d".to_string()));
}

#[test]
fn identifiers_are_sorted_with_their_repetitions() {
    assert_eq!(sort_ids(&vec![3, 1, 2, 1]), vec![1, 1, 2, 3]);
    assert_eq!(sort_ids(&vec![]), Vec::<u128>::new());
    assert_eq!(sort_ids(&vec![u128::MAX, 0]), vec![0, u128::MAX]);
    assert!(holds_before(&vec![1, 2, 3], 2, 2));
    assert!(!holds_before(&vec![1, 2, 3], 2, 3));
    assert!(!holds_before(&vec![1, 2, 3], 0, 1));
}

#[test]
fn the_stores_keep_what_is_put() {
    let (mut tokens, mut log) = fresh_stores();
    assert!(tokens.get(1).is_none());
    assert_eq!(tokens.ids(), Vec::<u128>::new());
    let mut t = token();
    t.id = 9;
    tokens.put(&t);
    t.id = 2;
    tokens.put(&t);
    t.name = "other".to_string();
    tokens.put(&t);
    assert!(tokens.contains(9));
    assert!(!tokens.contains(3));
    assert_eq!(tokens.ids(), vec![2, 9]);
    assert_eq!(tokens.get(2).unwrap().name, "other");
    assert_eq!(tokens.get(9).unwrap().name, token().name);
    assert_eq!(log.len(), 0);
    let first = Transaction::new(vec![1], TransactionType::Mint { to: account(1, None) }, 5, None);
    assert_eq!(log.append(&first), 1);
    assert_eq!(log.append(&first), 2);
    assert_eq!(log.len(), 2);
    assert_eq!(log.get(2).unwrap().created_at, 5);
    assert!(log.get(0).is_none());
    assert!(log.get(3).is_none());
}

fn sound_token(id: u128) -> Token {
    let mut t = token();
    t.id = id;
    t.approvals[1].account = account(3, Some([0u8; 32]));
    t
}

#[test]
fn a_ledger_is_assembled_of_stores_that_fit_together() {
    let (mut tokens, log) = fresh_stores();
    tokens.put(&sound_token(9));
    let c = Collection::assemble(config(), 1, tokens, log).unwrap();
    assert_eq!(c.icrc7_total_supply(), 1);
    assert!(c.token(9).is_some());
    assert_eq!(c.configuration().icrc7_name, "Collection");

    // The total supply must count the tokens.
    let (mut tokens, log) = fresh_stores();
    tokens.put(&sound_token(9));
    assert!(Collection::assemble(config(), 2, tokens, log).is_none());

    // The total supply must respect the cap.
    let (mut tokens, log) = fresh_stores();
    tokens.put(&sound_token(9));
    tokens.put(&sound_token(10));
    assert!(Collection::assemble(config(), 2, tokens, log).is_none());

    // No account may hold two approvals on a token.
    let (mut tokens, log) = fresh_stores();
    let mut t = sound_token(9);
    t.approvals.push(Approval { expires_at: None, account: account(3, None) });
    assert!(!t.is_sound());
    tokens.put(&t);
    assert!(Collection::assemble(config(), 1, tokens, log).is_none());

    // Every account must be normalized.
    let (mut tokens, log) = fresh_stores();
    let mut t = sound_token(9);
    assert!(t.is_sound());
    t.owner = account(1, None);
    assert!(!t.is_sound());
    tokens.put(&t);
    assert!(Collection::assemble(config(), 1, tokens, log).is_none());
    let (mut tokens, log) = fresh_stores();
    tokens.put(&sound_token(9));
    let mut other = config();
    other.burn_account = account(2, None);
    assert!(Collection::assemble(other, 1, tokens, log).is_none());
}

#[test]
fn an_empty_memory_holds_two_empty_stores() {
    let (tokens, log) = stored_stores().unwrap();
    assert_eq!(tokens.ids(), Vec::<u128>::new());
    assert!(tokens.get(0).is_none());
    assert_eq!(log.len(), 0);
    assert!(log.get(1).is_none());
}

#[test]
fn an_empty_memory_is_restored_as_an_empty_ledger() {
    let c = Collection::restore(config(), 0).unwrap();
    assert_eq!(c.icrc7_total_supply(), 0);
    assert!(c.token(1).is_none());
    assert!(Collection::restore(config(), 1).is_none());
}

#[test]
fn state_is_framed_by_its_length() {
    let frame = frame_state(&vec![7, 8, 9]).unwrap();
    assert_eq!(frame, vec![3, 0, 0, 0, 7, 8, 9]);
    assert_eq!(unframe_state(&frame), Some(vec![7, 8, 9]));
    assert_eq!(frame_state(&vec![]).unwrap(), vec![0, 0, 0, 0]);
    assert_eq!(unframe_state(&[0, 0, 0, 0]), Some(vec![]));
    // What follows the frame is ignored; a frame that is cut short is none.
    assert_eq!(unframe_state(&[2, 0, 0, 0, 5, 6, 7, 8]), Some(vec![5, 6]));
    assert_eq!(unframe_state(&[2, 0, 0, 0, 5]), None);
    assert_eq!(unframe_state(&[2, 0, 0]), None);
    assert_eq!(unframe_state(&[]), None);
}
