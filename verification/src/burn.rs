//! Burning: giving tokens to the burn account, from which nobody can move
//! them.

use crate::account::Account;
use crate::model::{
    burn_apply, burn_of, burn_outcome, burn_step, burn_transaction, move_apply, not_owned_by,
};
use crate::order::{lemma_filter_step, sort_ids};
use crate::state::Collection;
use crate::store::transaction_fits;
use crate::transaction::{lemma_transaction_row_len, Transaction, TransactionType};
use crate::transfer::{caller_account, move_admissible, move_tokens, rows_fit_after_move};
use crate::types::{
    copy_ids, copy_memo, memo_exceeds, opt_bytes_view, BurnArgs, BurnError, GenericKind,
};
use vstd::prelude::*;

verus! {

/// Whether `account` owns the token `id`.
pub(crate) fn owns_token(collection: &Collection, account: &Account, id: u128) -> (r: bool)
    requires
        collection.wf(),
    ensures
        r == collection@.owns(account@, id),
{
    match collection.tokens.get(id) {
        Some(token) => token.owner.same(account),
        None => false,
    }
}

/// Among `ids`, the identifiers of tokens that `account` does not own.
pub(crate) fn not_owned(collection: &Collection, account: &Account, ids: &Vec<u128>) -> (r: Vec<
    u128,
>)
    requires
        collection.wf(),
    ensures
        r@ == ids@.filter(not_owned_by(collection@, account@)),
        r@.len() == 0 ==> forall|k: int|
            0 <= k < ids@.len() ==> collection@.owns(account@, #[trigger] ids@[k]),
{
    let ghost s = collection@;
    let mut out: Vec<u128> = Vec::new();
    let mut i: usize = 0;
    assert(ids@.take(0).filter(not_owned_by(s, account@)) =~= Seq::<u128>::empty());
    while i < ids.len()
        invariant
            collection.wf(),
            s == collection@,
            i <= ids@.len(),
            out@ == ids@.take(i as int).filter(not_owned_by(s, account@)),
            out@.len() == 0 ==> forall|k: int| 0 <= k < i ==> s.owns(account@, #[trigger] ids@[k]),
        decreases ids@.len() - i,
    {
        proof {
            lemma_filter_step(ids@, i as int, not_owned_by(s, account@));
        }
        if !owns_token(collection, account, ids[i]) {
            out.push(ids[i]);
        }
        i += 1;
    }
    assert(ids@.take(ids@.len() as int) =~= ids@);
    out
}

/// Checks a burn request without changing the ledger.
///
/// The owner is the account of `caller` under the given sub-identifier. The
/// request is accepted when there is an identifier, the memo is within the
/// limit, the owner owns every token, and stable memory has room. The result
/// is the identifiers in ascending order, or the error of the first of these
/// checks that fails.
pub fn mock_burn(collection: &Collection, caller: &Vec<u8>, args: &BurnArgs) -> (r: Result<
    Vec<u128>,
    BurnError,
>)
    requires
        collection.wf(),
    ensures
        match burn_outcome(collection@, caller@, *args) {
            Ok(ids) => r matches Ok(v) && v@ == ids,
            Err(e) => r matches Err(x) && x@ == e,
        },
{
    if args.token_ids.len() == 0 {
        return Err(BurnError::generic(GenericKind::EmptyTokenIds));
    }
    if memo_exceeds(&args.memo, collection.config.icrc7_max_memo_size) {
        return Err(BurnError::generic(GenericKind::MemoTooLarge));
    }
    let owner = caller_account(caller, args.from_subaccount);
    let ids = sort_ids(&args.token_ids);
    let unauthorized = not_owned(collection, &owner, &ids);
    if unauthorized.len() > 0 {
        return Err(BurnError::Unauthorized { token_ids: unauthorized });
    }
    if collection.tx_log.len() == u64::MAX {
        return Err(BurnError::generic(GenericKind::StorageLimit));
    }
    if !rows_fit_after_move(collection, &ids, &collection.config.burn_account) {
        return Err(BurnError::generic(GenericKind::StorageLimit));
    }
    let record = Transaction {
        token_id: copy_ids(&ids),
        txn_type: TransactionType::Burn {
            from: owner,
            to: collection.config.burn_account.clone(),
        },
        created_at: 0,
        memo: copy_memo(&args.memo),
    };
    if !transaction_fits(&record) {
        return Err(BurnError::generic(GenericKind::StorageLimit));
    }
    Ok(ids)
}

/// Carries out a burn at time `now`: gives each token of `token_ids` to the
/// burn account, drops its approvals, and logs one burn transaction. No
/// token is deleted, and the total supply stays. The result is the
/// identifier of the transaction.
///
/// The tokens must exist, and stable memory must have room: a request that
/// passed the checks of [`mock_burn`] on this ledger meets both.
pub fn execute_burn(
    collection: &mut Collection,
    owner: Account,
    token_ids: Vec<u128>,
    memo: Option<Vec<u8>>,
    now: u64,
) -> (id: u128)
    requires
        old(collection).wf(),
        move_admissible(
            old(collection)@,
            token_ids@,
            old(collection)@.rules.burn_account,
            burn_transaction(
                owner@.normalized(),
                old(collection)@.rules.burn_account,
                token_ids@,
                opt_bytes_view(memo),
                0,
            ),
        ),
    ensures
        final(collection).wf(),
        final(collection)@ == move_apply(
            old(collection)@,
            token_ids@,
            old(collection)@.rules.burn_account,
            burn_transaction(
                owner@.normalized(),
                old(collection)@.rules.burn_account,
                token_ids@,
                opt_bytes_view(memo),
                now,
            ),
        ),
        final(collection).config() == old(collection).config(),
        id == old(collection)@.next_txn_id(),
{
    let owner = crate::account::account_transformer(owner);
    let sink = collection.config.burn_account.clone();
    move_tokens(collection, &token_ids, &sink);
    proof {
        lemma_transaction_row_len(
            burn_transaction(owner@, sink@, token_ids@, opt_bytes_view(memo), 0),
            now,
        );
    }
    let record = Transaction {
        token_id: token_ids,
        txn_type: TransactionType::Burn { from: owner, to: sink },
        created_at: now,
        memo,
    };
    collection.tx_log.append(&record)
}

/// Burns the tokens of `args` for `caller` at time `now`.
///
/// Where [`mock_burn`] accepts the request, each token gets the burn account
/// as its owner and loses its approvals, one burn transaction is logged, and
/// the result is its identifier. Otherwise the result is the error, and the
/// ledger is unchanged.
pub fn burn(collection: &mut Collection, caller: &Vec<u8>, args: BurnArgs, now: u64) -> (r: Result<
    u128,
    BurnError,
>)
    requires
        old(collection).wf(),
    ensures
        final(collection).wf(),
        final(collection).config() == old(collection).config(),
        final(collection)@ == burn_step(old(collection)@, caller@, args, now),
        match burn_outcome(old(collection)@, caller@, args) {
            Ok(ids) => r == Ok::<u128, BurnError>(old(collection)@.next_txn_id() as u128)
                && final(collection)@ == burn_apply(
                old(collection)@,
                burn_of(caller@, args),
                now,
            ),
            Err(e) => r matches Err(x) && x@ == e && final(collection)@ == old(collection)@,
        },
{
    match mock_burn(collection, caller, &args) {
        Ok(ids) => {
            let owner = caller_account(caller, args.from_subaccount);
            proof {
                let s = old(collection)@;
                let b = burn_of(caller@, args);
                assert forall|i: int| 0 <= i < ids@.len() implies s.tokens.contains_key(
                    #[trigger] ids@[i],
                ) by {
                    if !s.owns(b.owner, ids@[i]) {
                        crate::order::lemma_filter_has(ids@, not_owned_by(s, b.owner), i);
                    }
                }
            }
            Ok(execute_burn(collection, owner, ids, args.memo, now))
        },
        Err(e) => Err(e),
    }
}

} // verus!
