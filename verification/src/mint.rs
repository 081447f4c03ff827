//! Minting: the creation of tokens by the minting authority.

use crate::account::{account_transformer, default_account_from_principal, Account};
use crate::model::{
    collisions, lemma_no_collisions, mint_admissible, mint_apply, mint_outcome, mint_step,
    mint_transaction, minted_token,
};
use crate::order::holds_before;
use crate::state::Collection;
use crate::store::{token_fits, transaction_fits};
use crate::token::{lemma_token_row_len, Token, TokenView};
use crate::transaction::{lemma_transaction_row_len, Transaction, TransactionType};
use crate::types::{
    copy_ids, copy_memo, memo_exceeds, opt_bytes_view, GenericKind, MintArgs, MintError,
};
use vstd::prelude::*;

verus! {

/// The identifiers of `ids` that cannot be minted: those that the ledger
/// has, and those that `ids` holds earlier.
fn find_collisions(collection: &Collection, ids: &Vec<u128>) -> (r: Vec<u128>)
    requires
        collection.wf(),
    ensures
        r@ == collisions(collection@.tokens, ids@, ids@.len()),
{
    let mut out: Vec<u128> = Vec::new();
    let mut i: usize = 0;
    while i < ids.len()
        invariant
            collection.wf(),
            i <= ids@.len(),
            out@ == collisions(collection@.tokens, ids@, i as nat),
        decreases ids@.len() - i,
    {
        let id = ids[i];
        let taken = collection.tokens.contains(id);
        if taken || holds_before(ids, i, id) {
            out.push(id);
        }
        i += 1;
    }
    out
}

/// Checks a mint request without changing the ledger.
///
/// The request is accepted when the default account of `caller` is the
/// minting authority, the first owner is not anonymous, the memo is within
/// the limit, there is an identifier, the supply cap is respected, no
/// identifier is taken or repeated, and stable memory has room. The result is
/// the first owner of the new tokens, or the error of the first of these
/// checks that fails.
pub fn mock_mint(collection: &Collection, caller: &Vec<u8>, args: &MintArgs) -> (r: Result<
    Account,
    MintError,
>)
    requires
        collection.wf(),
    ensures
        match mint_outcome(collection@, caller@, *args) {
            Ok(receiver) => r matches Ok(a) && a@ == receiver,
            Err(e) => r matches Err(x) && x@ == e,
        },
{
    let caller_account = default_account_from_principal(
        crate::account::bytes_clone(caller.as_slice()),
    );
    if !caller_account.same(&collection.config.minting_authority) {
        return Err(MintError::Unauthorized);
    }
    let receiver = match &args.to {
        Some(account) => account_transformer(account.clone()),
        None => caller_account,
    };
    if receiver.is_anonymous() {
        return Err(MintError::InvalidRecipient);
    }
    if memo_exceeds(&args.memo, collection.config.icrc7_max_memo_size) {
        return Err(MintError::generic(GenericKind::MemoTooLarge));
    }
    if args.token_ids.len() == 0 {
        return Err(MintError::generic(GenericKind::EmptyTokenIds));
    }
    let count: u128 = args.token_ids.len() as u128;
    if let Some(cap) = collection.config.icrc7_supply_cap {
        if collection.total_supply + count > cap {
            return Err(MintError::SupplyCapReached);
        }
    }
    let clashing = find_collisions(collection, &args.token_ids);
    if clashing.len() > 0 {
        return Err(MintError::TokenIdAlreadyExists { ids: clashing });
    }
    if collection.total_supply + count > u64::MAX as u128 || collection.tx_log.len() == u64::MAX {
        return Err(MintError::generic(GenericKind::StorageLimit));
    }
    let sample = Token::new(
        0,
        receiver.clone(),
        args.name.clone(),
        args.logo.clone(),
        args.description.clone(),
    );
    if !token_fits(&sample) {
        return Err(MintError::generic(GenericKind::StorageLimit));
    }
    let record = Transaction {
        token_id: copy_ids(&args.token_ids),
        txn_type: TransactionType::Mint { to: receiver.clone() },
        created_at: 0,
        memo: copy_memo(&args.memo),
    };
    if !transaction_fits(&record) {
        return Err(MintError::generic(GenericKind::StorageLimit));
    }
    Ok(receiver)
}

/// The tokens after the first `n` identifiers of a mint were stored.
pub open spec fn partly_minted(
    tokens: Map<u128, TokenView>,
    receiver: crate::account::AccountView,
    args: MintArgs,
    n: int,
) -> Map<u128, TokenView> {
    let done = args.token_ids@.take(n);
    Map::new(
        |k: u128| tokens.contains_key(k) || done.contains(k),
        |k: u128|
            if done.contains(k) {
                minted_token(k, receiver, args)
            } else {
                tokens[k]
            },
    )
}

/// Carries out a mint at time `now`: stores one token per identifier with
/// `receiver`, normalized, as its owner and without approvals, adds their number to the
/// total supply, and logs one mint transaction. The result is the identifier
/// of that transaction.
///
/// The cap must be respected, no identifier may be taken or repeated, and
/// stable memory must have room: a request that passed the checks of
/// [`mock_mint`] on this ledger meets all of this.
pub fn execute_mint(collection: &mut Collection, receiver: Account, args: MintArgs, now: u64) -> (id:
    u128)
    requires
        old(collection).wf(),
        mint_admissible(old(collection)@, receiver@.normalized(), args),
    ensures
        final(collection).wf(),
        final(collection)@ == mint_apply(old(collection)@, receiver@.normalized(), args, now),
        final(collection).config() == old(collection).config(),
        id == old(collection)@.next_txn_id(),
{
    let receiver = account_transformer(receiver);
    let ghost before = collection@;
    let ghost ids = args.token_ids@;
    proof {
        lemma_no_collisions(before.tokens, ids, ids.len());
    }
    let mut i: usize = 0;
    while i < args.token_ids.len()
        invariant
            i <= args.token_ids@.len(),
            ids == args.token_ids@,
            before == old(collection)@,
            before.wf(),
            receiver@.is_normalized(),
            mint_admissible(before, receiver@, args),
            forall|k: int| 0 <= k < ids.len() ==> !before.tokens.contains_key(#[trigger] ids[k]),
            forall|k: int, l: int| 0 <= k < l < ids.len() ==> ids[k] != ids[l],
            collection.tokens.wf(),
            collection.tx_log.wf(),
            collection.tx_log@ == before.log,
            collection.total_supply == before.total_supply,
            collection.config == old(collection).config,
            collection.tokens@ == partly_minted(before.tokens, receiver@, args, i as int),
            collection.tokens@.dom().finite(),
            collection.tokens@.dom().len() == before.total_supply + i,
        decreases args.token_ids@.len() - i,
    {
        let token = Token::new(
            args.token_ids[i],
            receiver.clone(),
            args.name.clone(),
            args.logo.clone(),
            args.description.clone(),
        );
        proof {
            let fresh = ids[i as int];
            assert(token@ == minted_token(fresh, receiver@, args));
            lemma_token_row_len(minted_token(0, receiver@, args), fresh);
            assert(TokenView { id: fresh, ..minted_token(0, receiver@, args) } == token@);
            assert(!collection.tokens@.contains_key(fresh)) by {
                if ids.take(i as int).contains(fresh) {
                    let k = choose|k: int|
                        0 <= k < i && ids.take(i as int)[k] == fresh;
                    assert(ids[k] == fresh);
                }
            }
        }
        let ghost held = collection.tokens@;
        collection.tokens.put(&token);
        proof {
            let fresh = ids[i as int];
            assert(ids.take(i + 1) =~= ids.take(i as int).push(fresh));
            assert(collection.tokens@ =~= partly_minted(before.tokens, receiver@, args, i + 1))
                by {
                assert forall|k: u128| ids.take(i + 1).contains(k) <==> (ids.take(
                    i as int,
                ).contains(k) || k == fresh) by {
                    if ids.take(i as int).contains(k) {
                        let j = choose|j: int| 0 <= j < i && ids.take(i as int)[j] == k;
                        assert(ids.take(i + 1)[j] == k);
                    }
                    if k == fresh {
                        assert(ids.take(i + 1)[i as int] == k);
                    }
                }
            }
            assert(collection.tokens@.dom() =~= held.dom().insert(fresh));
        }
        i += 1;
    }
    collection.total_supply = collection.total_supply + args.token_ids.len() as u128;
    let record = Transaction {
        token_id: args.token_ids,
        txn_type: TransactionType::Mint { to: receiver },
        created_at: now,
        memo: args.memo,
    };
    proof {
        lemma_transaction_row_len(
            mint_transaction(receiver@, ids, opt_bytes_view(args.memo), 0),
            now,
        );
        assert(record@ == mint_transaction(receiver@, ids, opt_bytes_view(args.memo), now));
    }
    let id = collection.tx_log.append(&record);
    proof {
        assert(ids.take(ids.len() as int) =~= ids);
        assert(collection@.tokens =~= mint_apply(before, receiver@, args, now).tokens);
        assert(collection@ == mint_apply(before, receiver@, args, now));
    }
    id
}

impl Collection {
    /// Mints the tokens of `args` for `caller` at time `now`.
    ///
    /// Where [`mock_mint`] accepts the request, the tokens are created, the
    /// total supply grows by their number, one mint transaction is logged,
    /// and the result is its identifier. Otherwise the result is the error,
    /// and the ledger is unchanged.
    pub fn icrc7_mint(&mut self, caller: &Vec<u8>, args: MintArgs, now: u64) -> (r: Result<
        u128,
        MintError,
    >)
        requires
            old(self).wf(),
        ensures
            final(self).wf(),
            final(self).config() == old(self).config(),
            final(self)@ == mint_step(old(self)@, caller@, args, now),
            match mint_outcome(old(self)@, caller@, args) {
                Ok(receiver) => r == Ok::<u128, MintError>(old(self)@.next_txn_id() as u128)
                    && final(self)@ == mint_apply(old(self)@, receiver, args, now),
                Err(e) => r matches Err(x) && x@ == e && final(self)@ == old(self)@,
            },
    {
        match mock_mint(self, caller, &args) {
            Ok(receiver) => Ok(execute_mint(self, receiver, args, now)),
            Err(e) => Err(e),
        }
    }
}

} // verus!
