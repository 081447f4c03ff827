//! Approvals: an owner lets a spender transfer tokens.

use crate::account::{account_transformer, Account, AccountView};
use crate::burn::{not_owned, owns_token};
use crate::model::{
    approval_transaction, approve_apply, approve_of, approve_outcome, approve_step, approved_for,
    changed_rows_fit, changed_tokens, not_owned_by, owned_by, CollectionView,
};
use crate::order::{lemma_filter_step, sort_ids};
use crate::state::Collection;
use crate::store::{token_fits, token_row_fits, transaction_fits, transaction_row_fits};
use crate::token::{lemma_approved_sound, lemma_approved_twice};
use crate::transaction::{lemma_transaction_row_len, Transaction, TransactionType, TransactionView};
use crate::transfer::caller_account;
use crate::types::{
    copy_ids, copy_memo, opt_bytes_view, ApprovalArgs, ApprovalError, GenericKind, TokenType,
};
use vstd::prelude::*;

verus! {

/// What the execution of an approval needs: the tokens exist, their rows
/// still fit with the approval, and the log has room for the transaction.
pub open spec fn approve_admissible(
    s: CollectionView,
    ids: Seq<u128>,
    spender: AccountView,
    expires_at: Option<u64>,
    transaction: TransactionView,
) -> bool {
    &&& forall|i: int| 0 <= i < ids.len() ==> s.tokens.contains_key(#[trigger] ids[i])
    &&& changed_rows_fit(s.tokens, ids, approved_for(spender, expires_at))
    &&& s.log.len() < u64::MAX
    &&& transaction_row_fits(transaction)
}

/// The identifiers of the tokens that `account` owns, in ascending order.
pub(crate) fn owned_tokens(collection: &Collection, account: &Account) -> (r: Vec<u128>)
    requires
        collection.wf(),
    ensures
        r@ == collection@.tokens_of(account@),
        forall|k: int| 0 <= k < r@.len() ==> collection@.owns(account@, #[trigger] r@[k]),
{
    let ghost s = collection@;
    let ids = collection.tokens.ids();
    let mut out: Vec<u128> = Vec::new();
    let mut i: usize = 0;
    assert(ids@.take(0).filter(owned_by(s, account@)) =~= Seq::<u128>::empty());
    while i < ids.len()
        invariant
            collection.wf(),
            s == collection@,
            i <= ids@.len(),
            out@ == ids@.take(i as int).filter(owned_by(s, account@)),
            forall|k: int| 0 <= k < out@.len() ==> s.owns(account@, #[trigger] out@[k]),
        decreases ids@.len() - i,
    {
        proof {
            lemma_filter_step(ids@, i as int, owned_by(s, account@));
        }
        if owns_token(collection, account, ids[i]) {
            out.push(ids[i]);
        }
        i += 1;
    }
    assert(ids@.take(ids@.len() as int) =~= ids@);
    out
}

/// Whether the rows of the tokens `ids` still fit with an approval of
/// `spender`.
fn rows_fit_after_approval(
    collection: &Collection,
    ids: &Vec<u128>,
    spender: &Account,
    expires_at: Option<u64>,
) -> (r: bool)
    requires
        collection.wf(),
        forall|i: int| 0 <= i < ids@.len() ==> collection@.tokens.contains_key(#[trigger] ids@[i]),
    ensures
        r == changed_rows_fit(collection@.tokens, ids@, approved_for(spender@, expires_at)),
{
    let mut i: usize = 0;
    while i < ids.len()
        invariant
            collection.wf(),
            i <= ids@.len(),
            forall|k: int|
                0 <= k < ids@.len() ==> collection@.tokens.contains_key(#[trigger] ids@[k]),
            forall|k: int|
                0 <= k < i ==> token_row_fits(
                    #[trigger] approved_for(spender@, expires_at)(collection@.tokens[ids@[k]]),
                ),
        decreases ids@.len() - i,
    {
        match collection.tokens.get(ids[i]) {
            Some(mut token) => {
                token.grant(spender, expires_at);
                if !token_fits(&token) {
                    assert(!token_row_fits(
                        approved_for(spender@, expires_at)(collection@.tokens[ids@[i as int]]),
                    ));
                    return false;
                }
            },
            None => {},
        }
        i += 1;
    }
    true
}

/// Records on each token of `ids` that its owner approved `spender`.
fn approve_tokens(
    collection: &mut Collection,
    ids: &Vec<u128>,
    spender: &Account,
    expires_at: Option<u64>,
)
    requires
        old(collection).wf(),
        spender@.is_normalized(),
        forall|i: int|
            0 <= i < ids@.len() ==> old(collection)@.tokens.contains_key(#[trigger] ids@[i]),
        changed_rows_fit(old(collection)@.tokens, ids@, approved_for(spender@, expires_at)),
    ensures
        final(collection).wf(),
        final(collection)@ == (CollectionView {
            tokens: changed_tokens(
                old(collection)@.tokens,
                ids@,
                approved_for(spender@, expires_at),
            ),
            ..old(collection)@
        }),
        final(collection).config() == old(collection).config(),
{
    let ghost before = collection@;
    let ghost change = approved_for(spender@, expires_at);
    let mut i: usize = 0;
    assert(collection.tokens@ =~= changed_tokens(before.tokens, ids@.take(0), change));
    while i < ids.len()
        invariant
            i <= ids@.len(),
            before == old(collection)@,
            before.wf(),
            spender@.is_normalized(),
            change == approved_for(spender@, expires_at),
            forall|k: int| 0 <= k < ids@.len() ==> before.tokens.contains_key(#[trigger] ids@[k]),
            changed_rows_fit(before.tokens, ids@, change),
            collection.tokens.wf(),
            collection.tx_log.wf(),
            collection.tx_log@ == before.log,
            collection.total_supply == before.total_supply,
            collection.config == old(collection).config,
            collection.tokens@ == changed_tokens(before.tokens, ids@.take(i as int), change),
        decreases ids@.len() - i,
    {
        let id = ids[i];
        assert(before.tokens.contains_key(ids@[i as int]));
        match collection.tokens.get(id) {
            Some(mut token) => {
                let ghost held = token@;
                token.grant(spender, expires_at);
                proof {
                    assert(token@ == change(before.tokens[id])) by {
                        if ids@.take(i as int).contains(id) {
                            assert(held == change(before.tokens[id]));
                            lemma_approved_twice(before.tokens[id], spender@, expires_at);
                        } else {
                            assert(held == before.tokens[id]);
                        }
                    }
                    assert(before.tokens[id].id == id);
                    assert(change(before.tokens[ids@[i as int]]) == token@);
                }
                collection.tokens.put(&token);
                proof {
                    let done = ids@.take(i as int);
                    let next = ids@.take(i + 1);
                    assert(next =~= done.push(id));
                    assert forall|k: u128| next.contains(k) <==> (done.contains(k) || k == id) by {
                        if done.contains(k) {
                            let j = choose|j: int| 0 <= j < done.len() && done[j] == k;
                            assert(next[j] == k);
                        }
                        if k == id {
                            assert(next[i as int] == k);
                        }
                    }
                    assert(collection.tokens@ =~= changed_tokens(before.tokens, next, change));
                }
            },
            None => {},
        }
        i += 1;
    }
    proof {
        assert(ids@.take(ids@.len() as int) =~= ids@);
        assert(collection.tokens@.dom() =~= before.tokens.dom());
        assert forall|k: u128| #[trigger] collection@.tokens.contains_key(k) implies collection@.tokens[k].id
            == k && collection@.tokens[k].sound() by {
            assert(before.tokens.contains_key(k));
            lemma_approved_sound(before.tokens[k], spender@, expires_at);
        }
    }
}

/// Checks an approval request without changing the ledger.
///
/// The owner is the account of `caller` under the given sub-identifier. The
/// spender must not be anonymous. A request for the whole collection is for
/// every token of the owner, of which there must be one. A request for
/// listed tokens must list one, and the owner must own them all. Stable
/// memory must have room. The result is the identifiers that the approval is
/// for, in ascending order, or the error of the first check that fails.
pub fn mock_approve(collection: &Collection, caller: &Vec<u8>, args: &ApprovalArgs) -> (r: Result<
    Vec<u128>,
    ApprovalError,
>)
    requires
        collection.wf(),
    ensures
        match approve_outcome(collection@, caller@, *args) {
            Ok(ids) => r matches Ok(v) && v@ == ids,
            Err(e) => r matches Err(x) && x@ == e,
        },
{
    let ghost s = collection@;
    let owner = caller_account(caller, args.from_subaccount);
    let spender = account_transformer(args.spender.clone());
    if spender.is_anonymous() {
        return Err(ApprovalError::generic(GenericKind::AnonymousIdentity));
    }
    let ids = match &args.token_ids {
        TokenType::Collection => {
            let owned = owned_tokens(collection, &owner);
            if owned.len() == 0 {
                return Err(ApprovalError::generic(GenericKind::NoTokenOwned));
            }
            owned
        },
        TokenType::TokenIds(list) => {
            if list.len() == 0 {
                return Err(ApprovalError::generic(GenericKind::EmptyTokenIds));
            }
            let ids = sort_ids(list);
            let unauthorized = not_owned(collection, &owner, &ids);
            if unauthorized.len() > 0 {
                return Err(ApprovalError::Unauthorized { token_ids: unauthorized });
            }
            ids
        },
    };
    assert(forall|k: int| 0 <= k < ids@.len() ==> s.owns(owner@, #[trigger] ids@[k]));
    if collection.tx_log.len() == u64::MAX {
        return Err(ApprovalError::generic(GenericKind::StorageLimit));
    }
    if !rows_fit_after_approval(collection, &ids, &spender, args.expires_at) {
        return Err(ApprovalError::generic(GenericKind::StorageLimit));
    }
    let record = Transaction {
        token_id: copy_ids(&ids),
        txn_type: TransactionType::Approval { spender },
        created_at: 0,
        memo: copy_memo(&args.memo),
    };
    if !transaction_fits(&record) {
        return Err(ApprovalError::generic(GenericKind::StorageLimit));
    }
    Ok(ids)
}

/// Carries out an approval at time `now`: records on each token of
/// `token_ids` that `spender`, normalized, may transfer it until `expires_at`, in place of
/// an approval that `spender` held on it, and logs one approval transaction.
/// The result is the identifier of that transaction.
///
/// The tokens must exist, and stable memory must have room: a request that
/// passed the checks of [`mock_approve`] on this ledger meets both.
pub fn execute_approve(
    collection: &mut Collection,
    spender: Account,
    expires_at: Option<u64>,
    token_ids: Vec<u128>,
    memo: Option<Vec<u8>>,
    now: u64,
) -> (id: u128)
    requires
        old(collection).wf(),
        approve_admissible(
            old(collection)@,
            token_ids@,
            spender@.normalized(),
            expires_at,
            approval_transaction(spender@.normalized(), token_ids@, opt_bytes_view(memo), 0),
        ),
    ensures
        final(collection).wf(),
        final(collection)@ == approve_apply(
            old(collection)@,
            spender@.normalized(),
            expires_at,
            opt_bytes_view(memo),
            token_ids@,
            now,
        ),
        final(collection).config() == old(collection).config(),
        id == old(collection)@.next_txn_id(),
{
    let spender = account_transformer(spender);
    approve_tokens(collection, &token_ids, &spender, expires_at);
    proof {
        lemma_transaction_row_len(
            approval_transaction(spender@, token_ids@, opt_bytes_view(memo), 0),
            now,
        );
    }
    let record = Transaction {
        token_id: token_ids,
        txn_type: TransactionType::Approval { spender },
        created_at: now,
        memo,
    };
    collection.tx_log.append(&record)
}

impl Collection {
    /// Approves the spender of `args` for `caller` at time `now`.
    ///
    /// Where [`mock_approve`] accepts the request, each token that the
    /// approval is for records it, one approval transaction is logged, and
    /// the result is its identifier. Otherwise the result is the error, and
    /// the ledger is unchanged: an approval is never applied in part.
    pub fn icrc7_approve(&mut self, caller: &Vec<u8>, args: ApprovalArgs, now: u64) -> (r: Result<
        u128,
        ApprovalError,
    >)
        requires
            old(self).wf(),
        ensures
            final(self).wf(),
            final(self).config() == old(self).config(),
            final(self)@ == approve_step(old(self)@, caller@, args, now),
            match approve_outcome(old(self)@, caller@, args) {
                Ok(ids) => r == Ok::<u128, ApprovalError>(old(self)@.next_txn_id() as u128)
                    && final(self)@ == approve_apply(
                    old(self)@,
                    approve_of(caller@, args).spender,
                    args.expires_at,
                    opt_bytes_view(args.memo),
                    ids,
                    now,
                ),
                Err(e) => r matches Err(x) && x@ == e && final(self)@ == old(self)@,
            },
    {
        match mock_approve(self, caller, &args) {
            Ok(ids) => {
                let spender = account_transformer(args.spender);
                proof {
                    let s = old(self)@;
                    let a = approve_of(caller@, args);
                    assert forall|i: int| 0 <= i < ids@.len() implies s.tokens.contains_key(
                        #[trigger] ids@[i],
                    ) by {
                        match args.token_ids {
                            TokenType::Collection => {
                                s.token_ids().lemma_filter_pred(owned_by(s, a.owner), i);
                            },
                            TokenType::TokenIds(list) => {
                                if !s.owns(a.owner, ids@[i]) {
                                    crate::order::lemma_filter_has(
                                        ids@,
                                        not_owned_by(s, a.owner),
                                        i,
                                    );
                                }
                            },
                        }
                    }
                }
                Ok(execute_approve(self, spender, args.expires_at, ids, args.memo, now))
            },
            Err(e) => Err(e),
        }
    }
}

} // verus!
