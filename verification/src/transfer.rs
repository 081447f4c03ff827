//! Transfers: moving tokens from one account to another, by their owner or
//! by a spender whom the owner approved.

use crate::account::{account_transformer, bytes_clone, bytes_eq, Account};
use crate::model::{
    changed_rows_fit, changed_tokens, creation_time_error, given_to, may_move, movable, move_apply,
    transfer_apply, transfer_of, transfer_outcome, transfer_step, transfer_transaction, unmovable,
    CollectionView, Transfer,
};
use crate::order::{lemma_filter_step, sort_ids};
use crate::state::Collection;
use crate::store::{token_fits, transaction_fits, transaction_row_fits};
use crate::token::ApprovalResult;
use crate::transaction::{
    dedup_horizon, lemma_transaction_row_len, scan_for_duplicate, Transaction,
    TransactionDeduplicationType, TransactionType, TransactionView, TransferRequest,
};
use crate::types::{
    copy_ids, copy_memo, memo_exceeds, opt_bytes_view, GenericKind, TransferArgs, TransferError,
};
use vstd::prelude::*;

verus! {

/// Whether two lists of identifiers are equal.
pub fn ids_equal(a: &Vec<u128>, b: &Vec<u128>) -> (r: bool)
    ensures
        r == (a@ == b@),
{
    if a.len() != b.len() {
        return false;
    }
    let mut i: usize = 0;
    while i < a.len()
        invariant
            a@.len() == b@.len(),
            i <= a@.len(),
            forall|k: int| 0 <= k < i ==> a@[k] == b@[k],
        decreases a@.len() - i,
    {
        if a[i] != b[i] {
            return false;
        }
        i += 1;
    }
    assert(a@ =~= b@);
    true
}

/// Whether two memos are equal.
pub fn memo_equal(a: &Option<Vec<u8>>, b: &Option<Vec<u8>>) -> (r: bool)
    ensures
        r == (opt_bytes_view(*a) == opt_bytes_view(*b)),
{
    match (a, b) {
        (Some(x), Some(y)) => bytes_eq(x.as_slice(), y.as_slice()),
        (None, None) => true,
        _ => false,
    }
}

/// The account of `caller` under `subaccount`, or under the default
/// sub-identifier where that is absent.
pub fn caller_account(caller: &Vec<u8>, subaccount: Option<crate::account::Subaccount>) -> (r:
    Account)
    ensures
        r@ == crate::types::account_of(caller@, subaccount),
{
    account_transformer(Account { owner: bytes_clone(caller.as_slice()), subaccount })
}

/// What the execution of a move of tokens needs: the tokens exist, their
/// rows still fit with the new owner, and the log has room for the
/// transaction.
pub open spec fn move_admissible(
    s: CollectionView,
    moved: Seq<u128>,
    to: crate::account::AccountView,
    transaction: TransactionView,
) -> bool {
    &&& forall|i: int| 0 <= i < moved.len() ==> s.tokens.contains_key(#[trigger] moved[i])
    &&& changed_rows_fit(s.tokens, moved, given_to(to))
    &&& s.log.len() < u64::MAX
    &&& transaction_row_fits(transaction)
}

/// Whether the rows of the tokens `ids` still fit once `to` owns them.
pub(crate) fn rows_fit_after_move(collection: &Collection, ids: &Vec<u128>, to: &Account) -> (r:
    bool)
    requires
        collection.wf(),
        forall|i: int| 0 <= i < ids@.len() ==> collection@.tokens.contains_key(#[trigger] ids@[i]),
    ensures
        r == changed_rows_fit(collection@.tokens, ids@, given_to(to@)),
{
    let mut i: usize = 0;
    while i < ids.len()
        invariant
            collection.wf(),
            i <= ids@.len(),
            forall|k: int|
                0 <= k < ids@.len() ==> collection@.tokens.contains_key(#[trigger] ids@[k]),
            forall|k: int|
                0 <= k < i ==> crate::store::token_row_fits(
                    #[trigger] given_to(to@)(collection@.tokens[ids@[k]]),
                ),
        decreases ids@.len() - i,
    {
        match collection.tokens.get(ids[i]) {
            Some(mut token) => {
                token.transfer(to.clone());
                if !token_fits(&token) {
                    assert(!crate::store::token_row_fits(
                        given_to(to@)(collection@.tokens[ids@[i as int]]),
                    ));
                    return false;
                }
            },
            None => {},
        }
        i += 1;
    }
    true
}

/// Gives each token of `ids` to `to` and drops its approvals.
pub(crate) fn move_tokens(collection: &mut Collection, ids: &Vec<u128>, to: &Account)
    requires
        old(collection).wf(),
        to@.is_normalized(),
        forall|i: int|
            0 <= i < ids@.len() ==> old(collection)@.tokens.contains_key(#[trigger] ids@[i]),
        changed_rows_fit(old(collection)@.tokens, ids@, given_to(to@)),
    ensures
        final(collection).wf(),
        final(collection)@ == (CollectionView {
            tokens: changed_tokens(old(collection)@.tokens, ids@, given_to(to@)),
            ..old(collection)@
        }),
        final(collection).config() == old(collection).config(),
{
    let ghost before = collection@;
    let ghost change = given_to(to@);
    let mut i: usize = 0;
    assert(collection.tokens@ =~= changed_tokens(before.tokens, ids@.take(0), change));
    while i < ids.len()
        invariant
            i <= ids@.len(),
            before == old(collection)@,
            before.wf(),
            to@.is_normalized(),
            change == given_to(to@),
            forall|k: int| 0 <= k < ids@.len() ==> before.tokens.contains_key(#[trigger] ids@[k]),
            changed_rows_fit(before.tokens, ids@, change),
            collection.tokens.wf(),
            collection.tx_log.wf(),
            collection.tx_log@ == before.log,
            collection.total_supply == before.total_supply,
            collection.config == old(collection).config,
            collection.tokens@ == changed_tokens(before.tokens, ids@.take(i as int), change),
        decreases ids@.len() - i,
    {
        let id = ids[i];
        assert(before.tokens.contains_key(ids@[i as int]));
        match collection.tokens.get(id) {
            Some(mut token) => {
                let ghost held = token@;
                token.transfer(to.clone());
                proof {
                    assert(before.tokens[id].id == id);
                    assert(token@ == change(before.tokens[id])) by {
                        if ids@.take(i as int).contains(id) {
                            assert(held == change(before.tokens[id]));
                        } else {
                            assert(held == before.tokens[id]);
                        }
                        assert(token@.approvals =~= change(before.tokens[id]).approvals);
                    }
                    assert(change(before.tokens[ids@[i as int]]) == token@);
                }
                collection.tokens.put(&token);
                proof {
                    let done = ids@.take(i as int);
                    let next = ids@.take(i + 1);
                    assert(next =~= done.push(id));
                    assert forall|k: u128| next.contains(k) <==> (done.contains(k) || k == id) by {
                        if done.contains(k) {
                            let j = choose|j: int| 0 <= j < done.len() && done[j] == k;
                            assert(next[j] == k);
                        }
                        if k == id {
                            assert(next[i as int] == k);
                        }
                    }
                    assert(collection.tokens@ =~= changed_tokens(before.tokens, next, change));
                }
            },
            None => {},
        }
        i += 1;
    }
    proof {
        assert(ids@.take(ids@.len() as int) =~= ids@);
        assert(collection.tokens@.dom() =~= before.tokens.dom());
        assert forall|k: u128| #[trigger] collection@.tokens.contains_key(k) implies collection@.tokens[k].id
            == k && collection@.tokens[k].sound() by {
            assert(before.tokens.contains_key(k));
        }
    }
}

impl Collection {
    /// Searches the log, from the newest transaction backwards, for a
    /// transfer with exactly the given fields and the time
    /// `created_at_time`. The search ends without a result at the first
    /// transaction that is older than the current time less the transaction
    /// window and the permitted drift.
    pub fn transfer_txn_deduplication_check(
        &self,
        current_time: u64,
        created_at_time: u64,
        token_id: &Vec<u128>,
        from: &Account,
        spender: &Account,
        to: &Account,
        memo: &Option<Vec<u8>>,
    ) -> (r: TransactionDeduplicationType)
        requires
            self.wf(),
        ensures
            match scan_for_duplicate(
                self@.log,
                dedup_horizon(current_time, self@.rules.tx_window, self@.rules.permitted_drift),
                (TransferRequest {
                    token_ids: token_id@,
                    from: from@,
                    spender: spender@,
                    to: to@,
                    memo: opt_bytes_view(*memo),
                    created_at_time,
                }),
                self@.log.len(),
            ) {
                Some(id) => r == (TransactionDeduplicationType::DuplicateOf { index: id as u128 }),
                None => r == TransactionDeduplicationType::NotFound,
            },
    {
        let ghost request = TransferRequest {
            token_ids: token_id@,
            from: from@,
            spender: spender@,
            to: to@,
            memo: opt_bytes_view(*memo),
            created_at_time,
        };
        let ghost horizon = dedup_horizon(
            current_time,
            self@.rules.tx_window,
            self@.rules.permitted_drift,
        );
        let span: u128 = self.config.tx_window as u128 + self.config.permitted_drift as u128;
        let mut n: u64 = self.tx_log.len();
        while n > 0
            invariant
                self.wf(),
                n <= self@.log.len(),
                span == self@.rules.tx_window + self@.rules.permitted_drift,
                horizon == dedup_horizon(
                    current_time,
                    self@.rules.tx_window,
                    self@.rules.permitted_drift,
                ),
                request == (TransferRequest {
                    token_ids: token_id@,
                    from: from@,
                    spender: spender@,
                    to: to@,
                    memo: opt_bytes_view(*memo),
                    created_at_time,
                }),
                scan_for_duplicate(self@.log, horizon, request, self@.log.len())
                    == scan_for_duplicate(self@.log, horizon, request, n as nat),
            decreases n,
        {
            match self.tx_log.get(n as u128) {
                Some(txn) => {
                    if (txn.created_at as u128) + span < current_time as u128 {
                        return TransactionDeduplicationType::NotFound;
                    }
                    let same_parties = match &txn.txn_type {
                        TransactionType::Transfer { from: f, spender: s, to: t } => f.same(from)
                            && s.same(spender) && t.same(to),
                        _ => false,
                    };
                    if same_parties && ids_equal(&txn.token_id, token_id) && memo_equal(
                        &txn.memo,
                        memo,
                    ) && txn.created_at == created_at_time {
                        return TransactionDeduplicationType::DuplicateOf { index: n as u128 };
                    }
                },
                None => {},
            }
            n -= 1;
        }
        TransactionDeduplicationType::NotFound
    }
}

/// Checks the creation time of a transfer request at time `now`.
///
/// A request without a creation time passes. A creation time is refused as
/// too old where it is earlier than `now` less the transaction window and
/// the permitted drift, and as created in the future where it is later than
/// `now` plus the permitted drift. Otherwise the log is searched for a
/// transfer with exactly these fields and this time, and the request is
/// refused as a duplicate of the transaction that the search finds.
pub fn txn_deduplication_check(
    collection: &Collection,
    now: u64,
    created_at_time: Option<u64>,
    token_ids: &Vec<u128>,
    from: &Account,
    spender: &Account,
    to: &Account,
    memo: &Option<Vec<u8>>,
) -> (r: Result<(), TransferError>)
    requires
        collection.wf(),
    ensures
        match creation_time_error(
            collection@,
            token_ids@,
            from@,
            spender@,
            to@,
            opt_bytes_view(*memo),
            created_at_time,
            now,
        ) {
            Some(e) => r matches Err(x) && x@ == e,
            None => r is Ok,
        },
{
    let time = match created_at_time {
        Some(time) => time,
        None => {
            return Ok(());
        },
    };
    let span: u128 = collection.config.tx_window as u128 + collection.config.permitted_drift as u128;
    if (time as u128) + span < now as u128 {
        return Err(TransferError::TooOld);
    }
    if time as u128 > now as u128 + collection.config.permitted_drift as u128 {
        return Err(TransferError::CreatedInFuture { ledger_time: now });
    }
    match collection.transfer_txn_deduplication_check(
        now,
        time,
        token_ids,
        from,
        spender,
        to,
        memo,
    ) {
        TransactionDeduplicationType::DuplicateOf { index } => Err(
            TransferError::Duplicate { duplicate_of: index },
        ),
        TransactionDeduplicationType::NotFound => Ok(()),
    }
}

/// Whether `spender` may move the token `id` out of `from` at `now`.
fn may_move_token(collection: &Collection, spender: &Account, from: &Account, now: u64, id: u128)
    -> (r: bool)
    requires
        collection.wf(),
    ensures
        r == may_move(collection@, spender@, from@, now, id),
{
    match collection.tokens.get(id) {
        Some(token) => {
            if spender.same(&token.owner) {
                true
            } else if token.owner.same(from) {
                token.approval_check(spender, now) == ApprovalResult::Approved
            } else {
                false
            }
        },
        None => false,
    }
}

/// Checks a transfer request at time `now` without changing the ledger.
///
/// The spender is the account of `caller` under the given sub-identifier.
/// The checks, in order: there is an identifier; the memo is within the
/// limit; `from` and `to` are not anonymous; a creation time, where given,
/// is neither older than the transaction window and the permitted drift
/// allow, nor further in the future than the permitted drift, nor that of an
/// identical transfer in the log; the spender may move the tokens, which in
/// an atomic request means all of them and else at least one; stable memory
/// has room. The result is the identifiers that move, in ascending order, or
/// the error of the first check that fails.
pub fn mock_transfer(collection: &Collection, caller: &Vec<u8>, args: &TransferArgs, now: u64) -> (r:
    Result<Vec<u128>, TransferError>)
    requires
        collection.wf(),
    ensures
        match transfer_outcome(collection@, caller@, *args, now) {
            Ok(moved) => r matches Ok(v) && v@ == moved,
            Err(e) => r matches Err(x) && x@ == e,
        },
{
    let ghost s = collection@;
    let ghost t = transfer_of(caller@, *args);
    if args.token_ids.len() == 0 {
        return Err(TransferError::generic(GenericKind::EmptyTokenIds));
    }
    if memo_exceeds(&args.memo, collection.config.icrc7_max_memo_size) {
        return Err(TransferError::generic(GenericKind::MemoTooLarge));
    }
    let spender = caller_account(caller, args.spender_subaccount);
    let from = account_transformer(args.from.clone());
    let to = account_transformer(args.to.clone());
    if from.is_anonymous() {
        return Err(TransferError::generic(GenericKind::AnonymousIdentity));
    }
    if to.is_anonymous() {
        return Err(TransferError::InvalidRecipient);
    }
    let ids = sort_ids(&args.token_ids);
    match txn_deduplication_check(
        collection,
        now,
        args.created_at_time,
        &ids,
        &from,
        &spender,
        &to,
        &args.memo,
    ) {
        Ok(()) => {},
        Err(e) => {
            return Err(e);
        },
    }
    assert(t.time_error(s, now) is None);
    let mut authorized: Vec<u128> = Vec::new();
    let mut unauthorized: Vec<u128> = Vec::new();
    let mut i: usize = 0;
    assert(ids@.take(0).filter(movable(s, spender@, from@, now)) =~= Seq::<u128>::empty());
    assert(ids@.take(0).filter(unmovable(s, spender@, from@, now)) =~= Seq::<u128>::empty());
    while i < ids.len()
        invariant
            collection.wf(),
            s == collection@,
            i <= ids@.len(),
            authorized@ == ids@.take(i as int).filter(movable(s, spender@, from@, now)),
            unauthorized@ == ids@.take(i as int).filter(unmovable(s, spender@, from@, now)),
            forall|k: int| 0 <= k < authorized@.len() ==> s.tokens.contains_key(
                #[trigger] authorized@[k],
            ),
        decreases ids@.len() - i,
    {
        proof {
            lemma_filter_step(ids@, i as int, movable(s, spender@, from@, now));
            lemma_filter_step(ids@, i as int, unmovable(s, spender@, from@, now));
        }
        if may_move_token(collection, &spender, &from, now, ids[i]) {
            authorized.push(ids[i]);
        } else {
            unauthorized.push(ids[i]);
        }
        i += 1;
    }
    proof {
        assert(ids@.take(ids@.len() as int) =~= ids@);
        assert(authorized@ == t.authorized(s, now));
        assert(unauthorized@ == t.unauthorized(s, now));
    }
    let atomic = match args.is_atomic {
        Some(false) => false,
        _ => true,
    };
    if atomic && unauthorized.len() > 0 {
        return Err(TransferError::Unauthorized { token_ids: unauthorized });
    }
    if authorized.len() == 0 {
        return Err(TransferError::Unauthorized { token_ids: unauthorized });
    }
    if collection.tx_log.len() == u64::MAX {
        return Err(TransferError::generic(GenericKind::StorageLimit));
    }
    if !rows_fit_after_move(collection, &authorized, &to) {
        return Err(TransferError::generic(GenericKind::StorageLimit));
    }
    let record = Transaction {
        token_id: copy_ids(&authorized),
        txn_type: TransactionType::Transfer { from, spender, to },
        created_at: 0,
        memo: copy_memo(&args.memo),
    };
    assert(record@ == transfer_transaction(t.spender, t.from, t.to, authorized@, t.memo, 0));
    if !transaction_fits(&record) {
        return Err(TransferError::generic(GenericKind::StorageLimit));
    }
    Ok(authorized)
}

/// Carries out a transfer at time `now`: gives each token of `token_ids` to
/// `to`, drops its approvals, and logs one transfer transaction for these
/// tokens. The accounts are normalized first. The result is the identifier
/// of that transaction.
///
/// The tokens must exist, and stable memory must have room: a request that
/// passed the checks of [`mock_transfer`] on this ledger meets both.
pub fn execute_transfer(
    collection: &mut Collection,
    spender: Account,
    from: Account,
    to: Account,
    token_ids: Vec<u128>,
    memo: Option<Vec<u8>>,
    now: u64,
) -> (id: u128)
    requires
        old(collection).wf(),
        move_admissible(
            old(collection)@,
            token_ids@,
            to@.normalized(),
            transfer_transaction(
                spender@.normalized(),
                from@.normalized(),
                to@.normalized(),
                token_ids@,
                opt_bytes_view(memo),
                0,
            ),
        ),
    ensures
        final(collection).wf(),
        final(collection)@ == move_apply(
            old(collection)@,
            token_ids@,
            to@.normalized(),
            transfer_transaction(
                spender@.normalized(),
                from@.normalized(),
                to@.normalized(),
                token_ids@,
                opt_bytes_view(memo),
                now,
            ),
        ),
        final(collection).config() == old(collection).config(),
        id == old(collection)@.next_txn_id(),
{
    let spender = account_transformer(spender);
    let from = account_transformer(from);
    let to = account_transformer(to);
    move_tokens(collection, &token_ids, &to);
    proof {
        lemma_transaction_row_len(
            transfer_transaction(spender@, from@, to@, token_ids@, opt_bytes_view(memo), 0),
            now,
        );
    }
    let record = Transaction {
        token_id: token_ids,
        txn_type: TransactionType::Transfer { from, spender, to },
        created_at: now,
        memo,
    };
    collection.tx_log.append(&record)
}

impl Collection {
    /// Transfers the tokens of `args` for `caller` at time `now`.
    ///
    /// Where [`mock_transfer`] accepts the request, each token that moves
    /// gets `to` as its owner and loses its approvals, one transfer
    /// transaction is logged for these tokens, and the result is its
    /// identifier. Otherwise the result is the error, and the ledger is
    /// unchanged.
    pub fn icrc7_transfer(&mut self, caller: &Vec<u8>, args: TransferArgs, now: u64) -> (r: Result<
        u128,
        TransferError,
    >)
        requires
            old(self).wf(),
        ensures
            final(self).wf(),
            final(self).config() == old(self).config(),
            final(self)@ == transfer_step(old(self)@, caller@, args, now),
            match transfer_outcome(old(self)@, caller@, args, now) {
                Ok(moved) => r == Ok::<u128, TransferError>(old(self)@.next_txn_id() as u128)
                    && final(self)@ == transfer_apply(
                    old(self)@,
                    transfer_of(caller@, args),
                    moved,
                    now,
                ),
                Err(e) => r matches Err(x) && x@ == e && final(self)@ == old(self)@,
            },
    {
        match mock_transfer(self, caller, &args, now) {
            Ok(moved) => {
                let spender = caller_account(caller, args.spender_subaccount);
                let from = account_transformer(args.from);
                let to = account_transformer(args.to);
                proof {
                    let s = old(self)@;
                    let t = transfer_of(caller@, args);
                    assert forall|i: int| 0 <= i < moved@.len() implies s.tokens.contains_key(
                        #[trigger] moved@[i],
                    ) by {
                        t.ids.lemma_filter_pred(movable(s, t.spender, t.from, now), i);
                    }
                }
                Ok(execute_transfer(self, spender, from, to, moved, args.memo, now))
            },
            Err(e) => Err(e),
        }
    }
}

} // verus!
