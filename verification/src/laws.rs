//! What holds of the ledger whatever is asked of it.
//!
//! Each law is stated over the model of the ledger (see [`crate::model`]),
//! by which the executable operations are specified.

use crate::account::AccountView;
use crate::model::{
    approve_of, approve_step, burn_of, burn_outcome, burn_step, collisions, lemma_no_collisions,
    may_move, mint_outcome, mint_step, movable, not_owned_by, transfer_apply, transfer_of,
    transfer_outcome, transfer_step, unmovable, CollectionView,
};
use crate::order::lemma_filter_has;
use crate::token::{lemma_approved_sound, ApprovalView, TokenView};
use crate::transaction::{dedup_horizon, scan_for_duplicate};
use crate::types::{ApprovalArgs, BurnArgs, MintArgs, TransferArgs, TransferErrorView};
use vstd::prelude::*;

verus! {

// ----- uniqueness ---------------------------------------------------------

/// No two tokens of a well-formed ledger have the same identifier.
pub proof fn law_token_ids_are_unique(s: CollectionView, j: u128, k: u128)
    requires
        s.wf(),
        s.tokens.contains_key(j),
        s.tokens.contains_key(k),
        s.tokens[j].id == s.tokens[k].id,
    ensures
        j == k,
{
}

/// An identifier that the ledger has is among the collisions of every batch
/// that holds it.
proof fn lemma_collision(s: CollectionView, ids: Seq<u128>, i: int, n: nat)
    requires
        0 <= i < n <= ids.len(),
        s.tokens.contains_key(ids[i]),
    ensures
        collisions(s.tokens, ids, n).len() > 0,
    decreases n,
{
    if i < n - 1 {
        lemma_collision(s, ids, i, (n - 1) as nat);
    }
}

/// A mint of a batch that holds the identifier of an existing token is
/// refused, and leaves the ledger as it was.
pub proof fn law_existing_id_is_not_minted_again(
    s: CollectionView,
    caller: Seq<u8>,
    args: MintArgs,
    now: u64,
    id: u128,
)
    requires
        s.tokens.contains_key(id),
        args.token_ids@.contains(id),
    ensures
        mint_outcome(s, caller, args) is Err,
        mint_step(s, caller, args, now) == s,
{
    let ids = args.token_ids@;
    let i = choose|i: int| 0 <= i < ids.len() && ids[i] == id;
    lemma_collision(s, ids, i, ids.len());
}

/// After a mint, each identifier of the batch is that of a token, so that a
/// second mint of any batch with one of them is refused and leaves the
/// ledger as it was.
pub proof fn law_repeated_mint_fails(
    s: CollectionView,
    caller: Seq<u8>,
    args: MintArgs,
    now: u64,
    again_by: Seq<u8>,
    again: MintArgs,
    later: u64,
    id: u128,
)
    requires
        mint_outcome(s, caller, args) is Ok,
        args.token_ids@.contains(id),
        again.token_ids@.contains(id),
    ensures
        mint_outcome(mint_step(s, caller, args, now), again_by, again) is Err,
        mint_step(mint_step(s, caller, args, now), again_by, again, later) == mint_step(
            s,
            caller,
            args,
            now,
        ),
{
    let after = mint_step(s, caller, args, now);
    assert(after.tokens.contains_key(id));
    law_existing_id_is_not_minted_again(after, again_by, again, later, id);
}

/// No operation removes a token: a token that the ledger has is still there
/// after any mint, transfer, burn or approval.
pub proof fn law_tokens_are_never_deleted(
    s: CollectionView,
    caller: Seq<u8>,
    mint: MintArgs,
    transfer: TransferArgs,
    burn: BurnArgs,
    approval: ApprovalArgs,
    now: u64,
    id: u128,
)
    requires
        s.tokens.contains_key(id),
    ensures
        mint_step(s, caller, mint, now).tokens.contains_key(id),
        transfer_step(s, caller, transfer, now).tokens.contains_key(id),
        burn_step(s, caller, burn, now).tokens.contains_key(id),
        approve_step(s, caller, approval, now).tokens.contains_key(id),
{
}

// ----- well-formedness ----------------------------------------------------

/// The ledger stays well formed, whatever is asked of it: after every mint,
/// transfer, burn and approval, accepted or refused, every account that the
/// ledger keeps is normalized, each token is stored under its own
/// identifier, no account holds two approvals on one token, and the total
/// supply counts the tokens and respects the cap.
pub proof fn law_ledger_stays_well_formed(
    s: CollectionView,
    caller: Seq<u8>,
    mint: MintArgs,
    transfer: TransferArgs,
    burn: BurnArgs,
    approval: ApprovalArgs,
    now: u64,
)
    requires
        s.wf(),
    ensures
        mint_step(s, caller, mint, now).wf(),
        transfer_step(s, caller, transfer, now).wf(),
        burn_step(s, caller, burn, now).wf(),
        approve_step(s, caller, approval, now).wf(),
{
    lemma_mint_keeps_well_formed(s, caller, mint, now);
    let moved = transfer_step(s, caller, transfer, now);
    assert(moved.tokens.dom() =~= s.tokens.dom());
    let burned = burn_step(s, caller, burn, now);
    assert(burned.tokens.dom() =~= s.tokens.dom());
    let approved = approve_step(s, caller, approval, now);
    assert(approved.tokens.dom() =~= s.tokens.dom());
    assert forall|k: u128| #[trigger] approved.tokens.contains_key(k) implies approved.tokens[k].id
        == k && approved.tokens[k].sound() by {
        assert(s.tokens.contains_key(k));
        lemma_approved_sound(
            s.tokens[k],
            approve_of(caller, approval).spender,
            approval.expires_at,
        );
    }
}

/// An accepted mint keeps the ledger well formed.
proof fn lemma_mint_keeps_well_formed(s: CollectionView, caller: Seq<u8>, args: MintArgs, now: u64)
    requires
        s.wf(),
    ensures
        mint_step(s, caller, args, now).wf(),
{
    broadcast use vstd::seq_lib::seq_to_set_is_finite;

    if mint_outcome(s, caller, args) is Ok {
        let after = mint_step(s, caller, args, now);
        let ids = args.token_ids@;
        lemma_no_collisions(s.tokens, ids, ids.len());
        assert(ids.no_duplicates());
        ids.unique_seq_to_set();
        assert(s.tokens.dom().disjoint(ids.to_set())) by {
            assert forall|k: u128| s.tokens.dom().contains(k) implies !ids.to_set().contains(
                k,
            ) by {
                if ids.contains(k) {
                    let i = choose|i: int| 0 <= i < ids.len() && ids[i] == k;
                    assert(!s.tokens.contains_key(ids[i]));
                }
            }
        }
        vstd::set_lib::lemma_set_disjoint_lens(s.tokens.dom(), ids.to_set());
        assert(after.tokens.dom() =~= s.tokens.dom() + ids.to_set());
    }
}

// ----- supply cap ---------------------------------------------------------

/// A mint that would take the total supply over the cap is refused, and
/// leaves the ledger as it was.
pub proof fn law_mint_over_cap_fails(s: CollectionView, caller: Seq<u8>, args: MintArgs, now: u64)
    requires
        s.rules.supply_cap matches Some(cap) && s.total_supply + args.token_ids@.len() > cap,
    ensures
        mint_outcome(s, caller, args) is Err,
        mint_step(s, caller, args, now) == s,
{
}

/// The total supply respects the cap after every operation, where it did
/// before: an accepted mint adds the size of its batch and stays within the
/// cap, and no other operation changes the total supply.
pub proof fn law_total_supply_respects_cap(
    s: CollectionView,
    caller: Seq<u8>,
    mint: MintArgs,
    transfer: TransferArgs,
    burn: BurnArgs,
    approval: ApprovalArgs,
    now: u64,
)
    requires
        s.rules.supply_cap matches Some(cap) ==> s.total_supply <= cap,
    ensures
        s.rules.supply_cap matches Some(cap) ==> mint_step(s, caller, mint, now).total_supply
            <= cap,
        mint_outcome(s, caller, mint) is Ok ==> mint_step(s, caller, mint, now).total_supply
            == s.total_supply + mint.token_ids@.len(),
        transfer_step(s, caller, transfer, now).total_supply == s.total_supply,
        burn_step(s, caller, burn, now).total_supply == s.total_supply,
        approve_step(s, caller, approval, now).total_supply == s.total_supply,
        mint_step(s, caller, mint, now).rules == s.rules,
        transfer_step(s, caller, transfer, now).rules == s.rules,
        burn_step(s, caller, burn, now).rules == s.rules,
        approve_step(s, caller, approval, now).rules == s.rules,
{
}

// ----- ownership ----------------------------------------------------------

/// After an accepted transfer, each token that moved belongs to the
/// recipient and has no approvals.
pub proof fn law_transferred_token_belongs_to_recipient(
    s: CollectionView,
    caller: Seq<u8>,
    args: TransferArgs,
    now: u64,
    id: u128,
)
    requires
        transfer_outcome(s, caller, args, now) matches Ok(moved) && moved.contains(id),
    ensures
        transfer_step(s, caller, args, now).tokens.contains_key(id),
        transfer_step(s, caller, args, now).tokens[id].owner == args.to@.normalized(),
        transfer_step(s, caller, args, now).tokens[id].approvals.len() == 0,
{
    let t = transfer_of(caller, args);
    let moved = transfer_outcome(s, caller, args, now)->Ok_0;
    let i = choose|i: int| 0 <= i < moved.len() && moved[i] == id;
    t.ids.lemma_filter_pred(movable(s, t.spender, t.from, now), i);
}

/// In an atomic transfer that is accepted, every token of the request
/// moves.
pub proof fn law_atomic_transfer_moves_every_token(
    s: CollectionView,
    caller: Seq<u8>,
    args: TransferArgs,
    now: u64,
    id: u128,
)
    requires
        args.is_atomic != Some(false),
        transfer_outcome(s, caller, args, now) is Ok,
        args.token_ids@.contains(id),
    ensures
        transfer_outcome(s, caller, args, now)->Ok_0.contains(id),
{
    let t = transfer_of(caller, args);
    crate::order::lemma_sorted(args.token_ids@);
    let i = choose|i: int| 0 <= i < t.ids.len() && t.ids[i] == id;
    if !may_move(s, t.spender, t.from, now, id) {
        lemma_filter_has(t.ids, unmovable(s, t.spender, t.from, now), i);
    }
    lemma_filter_has(t.ids, movable(s, t.spender, t.from, now), i);
}

/// After an accepted burn, each token of the request belongs to the burn
/// account and has no approvals, and the total supply is what it was.
pub proof fn law_burned_token_belongs_to_burn_account(
    s: CollectionView,
    caller: Seq<u8>,
    args: BurnArgs,
    now: u64,
    id: u128,
)
    requires
        burn_outcome(s, caller, args) is Ok,
        args.token_ids@.contains(id),
    ensures
        burn_step(s, caller, args, now).tokens.contains_key(id),
        burn_step(s, caller, args, now).tokens[id].owner == s.rules.burn_account,
        burn_step(s, caller, args, now).tokens[id].approvals.len() == 0,
        burn_step(s, caller, args, now).total_supply == s.total_supply,
{
    let b = burn_of(caller, args);
    crate::order::lemma_sorted(args.token_ids@);
    let i = choose|i: int| 0 <= i < b.ids.len() && b.ids[i] == id;
    if !s.owns(b.owner, id) {
        lemma_filter_has(b.ids, not_owned_by(s, b.owner), i);
    }
}

// ----- deduplication ------------------------------------------------------

/// A transfer that was accepted in full at the time that it names as its
/// creation time is recognized when it is submitted again: while that time
/// is within the transaction window and the permitted drift, the second
/// request fails as a duplicate of the first transaction, and afterwards it
/// fails as too old. Either way the ledger stays as the first request left
/// it.
pub proof fn law_repeated_transfer_is_a_duplicate(
    s: CollectionView,
    caller: Seq<u8>,
    args: TransferArgs,
    now: u64,
    later: u64,
)
    requires
        args.created_at_time == Some(now),
        transfer_outcome(s, caller, args, now) == Ok::<Seq<u128>, TransferErrorView>(
            transfer_of(caller, args).ids,
        ),
        now <= later,
    ensures
        now >= dedup_horizon(later, s.rules.tx_window, s.rules.permitted_drift)
            ==> transfer_outcome(transfer_step(s, caller, args, now), caller, args, later) == Err::<
            Seq<u128>,
            TransferErrorView,
        >(TransferErrorView::Duplicate { duplicate_of: (s.log.len() + 1) as u128 }),
        now < dedup_horizon(later, s.rules.tx_window, s.rules.permitted_drift)
            ==> transfer_outcome(transfer_step(s, caller, args, now), caller, args, later) == Err::<
            Seq<u128>,
            TransferErrorView,
        >(TransferErrorView::TooOld),
        transfer_step(transfer_step(s, caller, args, now), caller, args, later) == transfer_step(
            s,
            caller,
            args,
            now,
        ),
{
    let t = transfer_of(caller, args);
    let after = transfer_step(s, caller, args, now);
    let horizon = dedup_horizon(later, s.rules.tx_window, s.rules.permitted_drift);
    assert(after == transfer_apply(s, t, t.ids, now));
    assert(after.rules == s.rules);
    assert(after.log.len() == s.log.len() + 1);
    let request = crate::transaction::TransferRequest {
        token_ids: t.ids,
        from: t.from,
        spender: t.spender,
        to: t.to,
        memo: t.memo,
        created_at_time: now,
    };
    assert(after.log[s.log.len() as int].repeats(request));
    if now >= horizon {
        assert(scan_for_duplicate(after.log, horizon, request, after.log.len()) == Some(
            after.log.len(),
        ));
    }
}

// ----- authorization ------------------------------------------------------

/// A transfer moves only tokens that the spender may move: tokens that the
/// spender owns, and tokens of `from` on which the spender holds a valid
/// approval.
pub proof fn law_only_authorized_tokens_move(
    s: CollectionView,
    caller: Seq<u8>,
    args: TransferArgs,
    now: u64,
    id: u128,
)
    requires
        transfer_outcome(s, caller, args, now) matches Ok(moved) && moved.contains(id),
    ensures
        may_move(
            s,
            transfer_of(caller, args).spender,
            transfer_of(caller, args).from,
            now,
            id,
        ),
{
    let t = transfer_of(caller, args);
    let moved = transfer_outcome(s, caller, args, now)->Ok_0;
    let i = choose|i: int| 0 <= i < moved.len() && moved[i] == id;
    t.ids.lemma_filter_pred(movable(s, t.spender, t.from, now), i);
}

/// A caller who neither owns a token nor holds a valid approval on it cannot
/// move it: whatever transfer or burn the caller asks for, the token is
/// afterwards what it was before.
pub proof fn law_unauthorized_caller_moves_nothing(
    s: CollectionView,
    caller: Seq<u8>,
    transfer: TransferArgs,
    burn: BurnArgs,
    now: u64,
    id: u128,
)
    requires
        s.tokens.contains_key(id),
        !s.tokens[id].is_authorized(transfer_of(caller, transfer).spender, now),
        !s.tokens[id].owner.same(burn_of(caller, burn).owner),
    ensures
        transfer_step(s, caller, transfer, now).tokens[id] == s.tokens[id],
        burn_step(s, caller, burn, now).tokens[id] == s.tokens[id],
{
    let t = transfer_of(caller, transfer);
    match transfer_outcome(s, caller, transfer, now) {
        Ok(moved) => {
            if moved.contains(id) {
                law_only_authorized_tokens_move(s, caller, transfer, now, id);
            }
        },
        Err(_) => {},
    }
    let b = burn_of(caller, burn);
    match burn_outcome(s, caller, burn) {
        Ok(ids) => {
            if ids.contains(id) {
                let i = choose|i: int| 0 <= i < ids.len() && ids[i] == id;
                lemma_filter_has(b.ids, not_owned_by(s, b.owner), i);
            }
        },
        Err(_) => {},
    }
}

/// The token `t` without the approvals of `account`.
pub open spec fn without_approvals_of(t: TokenView, account: AccountView) -> TokenView {
    TokenView { approvals: t.approvals.filter(|a: ApprovalView| !a.account.same(account)), ..t }
}

/// An expired approval counts as no approval: where no approval of an
/// account on a token is valid, the account is authorized exactly as it
/// would be without these approvals, which is as the owner only.
pub proof fn law_expired_approval_is_no_approval(t: TokenView, account: AccountView, now: u64)
    requires
        forall|i: int|
            0 <= i < t.approvals.len() && (#[trigger] t.approvals[i]).account.same(account)
                ==> !t.approvals[i].valid_at(now),
    ensures
        t.is_authorized(account, now) == without_approvals_of(t, account).is_authorized(
            account,
            now,
        ),
        t.is_authorized(account, now) == account.same(t.owner),
        !without_approvals_of(t, account).has_approval(account),
{
    let bare = without_approvals_of(t, account);
    let keep = |a: ApprovalView| !a.account.same(account);
    assert forall|i: int| 0 <= i < bare.approvals.len() implies !(
    #[trigger] bare.approvals[i]).account.same(account) by {
        t.approvals.lemma_filter_pred(keep, i);
    }
}

// ----- atomic batches -----------------------------------------------------

/// An atomic transfer with a token that the spender may not move is refused,
/// and leaves the ledger as it was. Where the request passed the checks that
/// come before the authorization, the error lists every token that the
/// spender may not move.
pub proof fn law_atomic_transfer_is_all_or_nothing(
    s: CollectionView,
    caller: Seq<u8>,
    args: TransferArgs,
    now: u64,
)
    requires
        args.is_atomic != Some(false),
        transfer_of(caller, args).unauthorized(s, now).len() > 0,
    ensures
        transfer_outcome(s, caller, args, now) is Err,
        transfer_step(s, caller, args, now) == s,
        transfer_outcome(s, caller, args, now) matches Err(
            TransferErrorView::Unauthorized { token_ids },
        ) ==> token_ids == transfer_of(caller, args).unauthorized(s, now),
{
}

/// Every refused request leaves the ledger as it was.
pub proof fn law_refused_request_changes_nothing(
    s: CollectionView,
    caller: Seq<u8>,
    mint: MintArgs,
    transfer: TransferArgs,
    burn: BurnArgs,
    approval: ApprovalArgs,
    now: u64,
)
    ensures
        mint_outcome(s, caller, mint) is Err ==> mint_step(s, caller, mint, now) == s,
        transfer_outcome(s, caller, transfer, now) is Err ==> transfer_step(
            s,
            caller,
            transfer,
            now,
        ) == s,
        burn_outcome(s, caller, burn) is Err ==> burn_step(s, caller, burn, now) == s,
        crate::model::approve_outcome(s, caller, approval) is Err ==> approve_step(
            s,
            caller,
            approval,
            now,
        ) == s,
{
}

} // verus!
