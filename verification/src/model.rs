//! The ledger as a mathematical object, and what each operation does to it.
//!
//! A [`CollectionView`] is the state of the ledger: its rules, the tokens by
//! identifier, and the log of transactions. For every operation there is a
//! function `*_outcome` that says whether the operation is accepted, and with
//! which error it is not, and a function `*_apply` that gives the state after
//! an accepted operation. The executable operations are specified by these.

use crate::account::{default_subaccount_bytes, AccountView};
use crate::order::{ascending_list, sorted};
use crate::store::{token_row_fits, transaction_row_fits};
use crate::token::TokenView;
use crate::transaction::{
    dedup_horizon, scan_for_duplicate, TransactionTypeView, TransactionView, TransferRequest,
};
use crate::types::{
    account_of, anonymous_identity_error, empty_token_ids_error, memo_too_large_error,
    no_token_owned_error, opt_account_view, opt_bytes_view, opt_text_view, storage_limit_error,
    ApprovalArgs, ApprovalErrorView, BurnArgs, BurnErrorView, MintArgs, MintErrorView, TokenType,
    TransferArgs, TransferErrorView,
};
use vstd::prelude::*;

verus! {

/// What the ledger was set up with, as far as the operations look at it.
pub struct Rules {
    pub minting_authority: AccountView,
    pub burn_account: AccountView,
    pub supply_cap: Option<u128>,
    pub max_memo_size: u128,
    pub default_take_value: Option<u128>,
    pub max_take_value: Option<u128>,
    pub tx_window: u64,
    pub permitted_drift: u64,
}

/// The state of the ledger.
pub struct CollectionView {
    pub rules: Rules,
    /// The number of tokens minted so far.
    pub total_supply: u128,
    pub tokens: Map<u128, TokenView>,
    /// The transactions, oldest first; the one at position `i` has the
    /// identifier `i + 1`.
    pub log: Seq<TransactionView>,
}

/// The test whether `account` owns a token.
pub open spec fn owned_by(s: CollectionView, account: AccountView) -> spec_fn(u128) -> bool {
    |id: u128| s.owns(account, id)
}

/// The test whether `account` does not own a token.
pub open spec fn not_owned_by(s: CollectionView, account: AccountView) -> spec_fn(u128) -> bool {
    |id: u128| !s.owns(account, id)
}

/// The change that a transfer to `to` makes to a token.
pub open spec fn given_to(to: AccountView) -> spec_fn(TokenView) -> TokenView {
    |t: TokenView| t.transferred(to)
}

/// The change that an approval of `spender` makes to a token.
pub open spec fn approved_for(spender: AccountView, expires_at: Option<u64>) -> spec_fn(
    TokenView,
) -> TokenView {
    |t: TokenView| t.approved(spender, expires_at)
}

/// The test whether an identifier lies beyond `prev`: it is greater, or
/// `prev` is absent.
pub open spec fn beyond(prev: Option<u128>) -> spec_fn(u128) -> bool {
    |id: u128| prev matches Some(p) ==> id > p
}

impl CollectionView {
    /// What holds of the ledger at all times: every account that it keeps is
    /// normalized, each token is stored under its own identifier, no account
    /// holds two approvals on one token, and the total supply counts the
    /// tokens and respects the cap.
    pub open spec fn wf(self) -> bool {
        &&& self.rules.minting_authority.is_normalized()
        &&& self.rules.burn_account.is_normalized()
        &&& self.tokens.dom().finite()
        &&& self.total_supply == self.tokens.dom().len()
        &&& self.total_supply <= u64::MAX
        &&& self.log.len() <= u64::MAX
        &&& self.rules.supply_cap matches Some(cap) ==> self.total_supply <= cap
        &&& forall|k: u128| #[trigger]
            self.tokens.contains_key(k) ==> self.tokens[k].id == k
                && self.tokens[k].sound()
    }

    /// The identifier that the next transaction gets.
    pub open spec fn next_txn_id(self) -> nat {
        self.log.len() + 1
    }

    /// The identifiers of all tokens, in ascending order.
    pub open spec fn token_ids(self) -> Seq<u128> {
        ascending_list(self.tokens.dom())
    }

    /// Whether `account` owns the token `id`.
    pub open spec fn owns(self, account: AccountView, id: u128) -> bool {
        self.tokens.contains_key(id) && self.tokens[id].owner.same(account)
    }

    /// The identifiers of the tokens of `account`, in ascending order.
    pub open spec fn tokens_of(self, account: AccountView) -> Seq<u128> {
        self.token_ids().filter(owned_by(self, account))
    }

    /// The state with `transaction` at the end of the log.
    pub open spec fn logged(self, transaction: TransactionView) -> CollectionView {
        CollectionView { log: self.log.push(transaction), ..self }
    }
}

/// Whether `memo` is longer than the rules allow.
pub open spec fn memo_too_large(rules: Rules, memo: Option<Seq<u8>>) -> bool {
    memo matches Some(m) && m.len() > rules.max_memo_size
}

/// The tokens of `tokens` with each token of `ids` replaced by what `change`
/// makes of it.
pub open spec fn changed_tokens(
    tokens: Map<u128, TokenView>,
    ids: Seq<u128>,
    change: spec_fn(TokenView) -> TokenView,
) -> Map<u128, TokenView> {
    Map::new(
        |k: u128| tokens.contains_key(k),
        |k: u128|
            if ids.contains(k) {
                change(tokens[k])
            } else {
                tokens[k]
            },
    )
}

/// Whether every token of `ids`, after `change`, still fits into a row.
pub open spec fn changed_rows_fit(
    tokens: Map<u128, TokenView>,
    ids: Seq<u128>,
    change: spec_fn(TokenView) -> TokenView,
) -> bool {
    forall|i: int| 0 <= i < ids.len() ==> token_row_fits(#[trigger] change(tokens[ids[i]]))
}

// ----- mint ---------------------------------------------------------------

/// The first owner of minted tokens: the given account, normalized, or the
/// default account of the caller.
pub open spec fn mint_receiver(caller: Seq<u8>, to: Option<AccountView>) -> AccountView {
    match to {
        Some(a) => a.normalized(),
        None => AccountView { owner: caller, subaccount: Some(default_subaccount_bytes()) },
    }
}

/// The token that a mint request creates under `id`.
pub open spec fn minted_token(id: u128, receiver: AccountView, args: MintArgs) -> TokenView {
    TokenView {
        owner: receiver,
        id,
        logo: opt_text_view(args.logo),
        description: opt_text_view(args.description),
        name: args.name@,
        approvals: Seq::empty(),
    }
}

/// Among the first `n` identifiers of `ids`, those that cannot be minted:
/// the ones that `tokens` has, and the ones that `ids` holds earlier.
pub open spec fn collisions(tokens: Map<u128, TokenView>, ids: Seq<u128>, n: nat) -> Seq<u128>
    decreases n,
{
    if n == 0 || n > ids.len() {
        Seq::empty()
    } else {
        let before = collisions(tokens, ids, (n - 1) as nat);
        let id = ids[n - 1];
        if tokens.contains_key(id) || ids.take(n - 1).contains(id) {
            before.push(id)
        } else {
            before
        }
    }
}

/// The transaction that records a mint.
pub open spec fn mint_transaction(
    receiver: AccountView,
    ids: Seq<u128>,
    memo: Option<Seq<u8>>,
    now: u64,
) -> TransactionView {
    TransactionView {
        token_id: ids,
        txn_type: TransactionTypeView::Mint { to: receiver },
        created_at: now,
        memo,
    }
}

/// Whether stable memory can take the tokens and the transaction of a mint.
pub open spec fn mint_has_room(s: CollectionView, receiver: AccountView, args: MintArgs) -> bool {
    &&& s.total_supply + args.token_ids@.len() <= u64::MAX
    &&& s.log.len() < u64::MAX
    &&& token_row_fits(minted_token(0, receiver, args))
    &&& transaction_row_fits(
        mint_transaction(receiver, args.token_ids@, opt_bytes_view(args.memo), 0),
    )
}

/// What the execution of a mint needs: the cap is respected, no identifier
/// is taken or repeated, and stable memory has room.
pub open spec fn mint_admissible(s: CollectionView, receiver: AccountView, args: MintArgs) -> bool {
    &&& s.rules.supply_cap matches Some(cap) ==> s.total_supply + args.token_ids@.len() <= cap
    &&& collisions(s.tokens, args.token_ids@, args.token_ids@.len()).len() == 0
    &&& mint_has_room(s, receiver, args)
}

/// Without collisions, no identifier is taken and none is repeated.
pub proof fn lemma_no_collisions(tokens: Map<u128, TokenView>, ids: Seq<u128>, n: nat)
    requires
        n <= ids.len(),
        collisions(tokens, ids, n).len() == 0,
    ensures
        forall|i: int| 0 <= i < n ==> !tokens.contains_key(#[trigger] ids[i]),
        forall|i: int, j: int| 0 <= i < j < n ==> ids[i] != ids[j],
    decreases n,
{
    if n > 0 {
        let before = collisions(tokens, ids, (n - 1) as nat);
        let id = ids[n - 1];
        if tokens.contains_key(id) || ids.take(n - 1).contains(id) {
            assert(collisions(tokens, ids, n) == before.push(id));
            assert(false);
        }
        lemma_no_collisions(tokens, ids, (n - 1) as nat);
        assert forall|i: int, j: int| 0 <= i < j < n implies ids[i] != ids[j] by {
            if j == n - 1 {
                assert(ids.take(n - 1)[i] == ids[i]);
            }
        }
    }
}

/// Whether a mint is accepted: `Ok` with the first owner of the new tokens,
/// or the error of the first check that fails.
pub open spec fn mint_outcome(s: CollectionView, caller: Seq<u8>, args: MintArgs) -> Result<
    AccountView,
    MintErrorView,
> {
    let receiver = mint_receiver(caller, opt_account_view(args.to));
    let ids = args.token_ids@;
    let clashing = collisions(s.tokens, ids, ids.len());
    if !account_of(caller, None).same(s.rules.minting_authority) {
        Err(MintErrorView::Unauthorized)
    } else if receiver.is_anonymous() {
        Err(MintErrorView::InvalidRecipient)
    } else if memo_too_large(s.rules, opt_bytes_view(args.memo)) {
        Err(MintErrorView::GenericError { error: memo_too_large_error() })
    } else if ids.len() == 0 {
        Err(MintErrorView::GenericError { error: empty_token_ids_error() })
    } else if s.rules.supply_cap matches Some(cap) && s.total_supply + ids.len() > cap {
        Err(MintErrorView::SupplyCapReached)
    } else if clashing.len() > 0 {
        Err(MintErrorView::TokenIdAlreadyExists { ids: clashing })
    } else if !mint_has_room(s, receiver, args) {
        Err(MintErrorView::GenericError { error: storage_limit_error() })
    } else {
        Ok(receiver)
    }
}

/// The state after an accepted mint at time `now`.
pub open spec fn mint_apply(s: CollectionView, receiver: AccountView, args: MintArgs, now: u64)
    -> CollectionView {
    let ids = args.token_ids@;
    CollectionView {
        rules: s.rules,
        total_supply: (s.total_supply + ids.len()) as u128,
        tokens: Map::new(
            |k: u128| s.tokens.contains_key(k) || ids.contains(k),
            |k: u128|
                if ids.contains(k) {
                    minted_token(k, receiver, args)
                } else {
                    s.tokens[k]
                },
        ),
        log: s.log.push(mint_transaction(receiver, ids, opt_bytes_view(args.memo), now)),
    }
}

/// The state after a mint request at time `now`: changed where the request
/// is accepted, and the same where it is not.
pub open spec fn mint_step(s: CollectionView, caller: Seq<u8>, args: MintArgs, now: u64)
    -> CollectionView {
    match mint_outcome(s, caller, args) {
        Ok(receiver) => mint_apply(s, receiver, args, now),
        Err(_) => s,
    }
}

// ----- transfer -----------------------------------------------------------

/// Whether `spender` may move the token `id` out of `from` at `now`: the
/// token exists, and `spender` owns it, or holds a valid approval on it while
/// `from` owns it.
pub open spec fn may_move(
    s: CollectionView,
    spender: AccountView,
    from: AccountView,
    now: u64,
    id: u128,
) -> bool {
    s.tokens.contains_key(id) && (spender.same(s.tokens[id].owner) || (s.tokens[id].owner.same(
        from,
    ) && s.tokens[id].has_valid_approval(spender, now)))
}

/// The test whether `spender` may move a token out of `from` at `now`.
pub open spec fn movable(s: CollectionView, spender: AccountView, from: AccountView, now: u64)
    -> spec_fn(u128) -> bool {
    |id: u128| may_move(s, spender, from, now, id)
}

/// The test whether `spender` may not move a token out of `from` at `now`.
pub open spec fn unmovable(s: CollectionView, spender: AccountView, from: AccountView, now: u64)
    -> spec_fn(u128) -> bool {
    |id: u128| !may_move(s, spender, from, now, id)
}

/// The transaction that records a transfer.
pub open spec fn transfer_transaction(
    spender: AccountView,
    from: AccountView,
    to: AccountView,
    ids: Seq<u128>,
    memo: Option<Seq<u8>>,
    now: u64,
) -> TransactionView {
    TransactionView {
        token_id: ids,
        txn_type: TransactionTypeView::Transfer { from, spender, to },
        created_at: now,
        memo,
    }
}

/// The error that the creation time of a transfer request leads to, if any:
/// `TooOld` where the time is earlier than the current time less the
/// transaction window and the permitted drift, `CreatedInFuture` where it is
/// later than the current time plus the permitted drift, and `Duplicate`
/// where the backward scan of the log finds a transfer with exactly these
/// fields and this time. A request without a creation time has no such
/// error.
pub open spec fn creation_time_error(
    s: CollectionView,
    token_ids: Seq<u128>,
    from: AccountView,
    spender: AccountView,
    to: AccountView,
    memo: Option<Seq<u8>>,
    created_at_time: Option<u64>,
    now: u64,
) -> Option<TransferErrorView> {
    match created_at_time {
        None => None,
        Some(t) => {
            let horizon = dedup_horizon(now, s.rules.tx_window, s.rules.permitted_drift);
            let request = TransferRequest {
                token_ids,
                from,
                spender,
                to,
                memo,
                created_at_time: t,
            };
            if t < horizon {
                Some(TransferErrorView::TooOld)
            } else if t > now + s.rules.permitted_drift {
                Some(TransferErrorView::CreatedInFuture { ledger_time: now })
            } else {
                match scan_for_duplicate(s.log, horizon, request, s.log.len()) {
                    Some(id) => Some(TransferErrorView::Duplicate { duplicate_of: id as u128 }),
                    None => None,
                }
            }
        },
    }
}

/// A transfer request with its accounts normalized and its identifiers in
/// ascending order.
pub struct Transfer {
    pub spender: AccountView,
    pub from: AccountView,
    pub to: AccountView,
    pub ids: Seq<u128>,
    pub memo: Option<Seq<u8>>,
    pub created_at_time: Option<u64>,
    pub atomic: bool,
}

/// The request that `caller` makes with `args`.
pub open spec fn transfer_of(caller: Seq<u8>, args: TransferArgs) -> Transfer {
    Transfer {
        spender: account_of(caller, args.spender_subaccount),
        from: args.from@.normalized(),
        to: args.to@.normalized(),
        ids: sorted(args.token_ids@),
        memo: opt_bytes_view(args.memo),
        created_at_time: args.created_at_time,
        atomic: args.is_atomic != Some(false),
    }
}

impl Transfer {
    /// The identifiers that the spender may not move.
    pub open spec fn unauthorized(self, s: CollectionView, now: u64) -> Seq<u128> {
        self.ids.filter(unmovable(s, self.spender, self.from, now))
    }

    /// The identifiers that the spender may move.
    pub open spec fn authorized(self, s: CollectionView, now: u64) -> Seq<u128> {
        self.ids.filter(movable(s, self.spender, self.from, now))
    }

    /// The error that the creation time of the request leads to, if any.
    pub open spec fn time_error(self, s: CollectionView, now: u64) -> Option<TransferErrorView> {
        creation_time_error(
            s,
            self.ids,
            self.from,
            self.spender,
            self.to,
            self.memo,
            self.created_at_time,
            now,
        )
    }

    /// Whether stable memory can take the changed tokens and the transaction
    /// of the transfer of `moved`.
    pub open spec fn has_room(self, s: CollectionView, moved: Seq<u128>) -> bool {
        &&& s.log.len() < u64::MAX
        &&& changed_rows_fit(s.tokens, moved, given_to(self.to))
        &&& transaction_row_fits(
            transfer_transaction(self.spender, self.from, self.to, moved, self.memo, 0),
        )
    }
}

/// Whether a transfer is accepted: `Ok` with the identifiers that move, in
/// ascending order, or the error of the first check that fails.
pub open spec fn transfer_outcome(s: CollectionView, caller: Seq<u8>, args: TransferArgs, now: u64)
    -> Result<Seq<u128>, TransferErrorView> {
    let t = transfer_of(caller, args);
    let unauthorized = t.unauthorized(s, now);
    let authorized = t.authorized(s, now);
    if args.token_ids@.len() == 0 {
        Err(TransferErrorView::GenericError { error: empty_token_ids_error() })
    } else if memo_too_large(s.rules, t.memo) {
        Err(TransferErrorView::GenericError { error: memo_too_large_error() })
    } else if t.from.is_anonymous() {
        Err(TransferErrorView::GenericError { error: anonymous_identity_error() })
    } else if t.to.is_anonymous() {
        Err(TransferErrorView::InvalidRecipient)
    } else if t.time_error(s, now) is Some {
        Err(t.time_error(s, now)->0)
    } else if t.atomic && unauthorized.len() > 0 {
        Err(TransferErrorView::Unauthorized { token_ids: unauthorized })
    } else if authorized.len() == 0 {
        Err(TransferErrorView::Unauthorized { token_ids: unauthorized })
    } else if !t.has_room(s, authorized) {
        Err(TransferErrorView::GenericError { error: storage_limit_error() })
    } else {
        Ok(authorized)
    }
}

/// The state after the tokens `moved` went to `to`, recorded by
/// `transaction`.
pub open spec fn move_apply(
    s: CollectionView,
    moved: Seq<u128>,
    to: AccountView,
    transaction: TransactionView,
) -> CollectionView {
    CollectionView {
        tokens: changed_tokens(s.tokens, moved, given_to(to)),
        log: s.log.push(transaction),
        ..s
    }
}

/// The state after an accepted transfer of `moved` at time `now`.
pub open spec fn transfer_apply(s: CollectionView, t: Transfer, moved: Seq<u128>, now: u64)
    -> CollectionView {
    move_apply(
        s,
        moved,
        t.to,
        transfer_transaction(t.spender, t.from, t.to, moved, t.memo, now),
    )
}

/// The state after a transfer request at time `now`: changed where the
/// request is accepted, and the same where it is not.
pub open spec fn transfer_step(s: CollectionView, caller: Seq<u8>, args: TransferArgs, now: u64)
    -> CollectionView {
    match transfer_outcome(s, caller, args, now) {
        Ok(moved) => transfer_apply(s, transfer_of(caller, args), moved, now),
        Err(_) => s,
    }
}

// ----- burn ---------------------------------------------------------------

/// The transaction that records a burn.
pub open spec fn burn_transaction(
    from: AccountView,
    to: AccountView,
    ids: Seq<u128>,
    memo: Option<Seq<u8>>,
    now: u64,
) -> TransactionView {
    TransactionView {
        token_id: ids,
        txn_type: TransactionTypeView::Burn { from, to },
        created_at: now,
        memo,
    }
}

/// A burn request with its account normalized and its identifiers in
/// ascending order.
pub struct Burn {
    pub owner: AccountView,
    pub ids: Seq<u128>,
    pub memo: Option<Seq<u8>>,
}

/// The request that `caller` makes with `args`.
pub open spec fn burn_of(caller: Seq<u8>, args: BurnArgs) -> Burn {
    Burn {
        owner: account_of(caller, args.from_subaccount),
        ids: sorted(args.token_ids@),
        memo: opt_bytes_view(args.memo),
    }
}

impl Burn {
    /// The identifiers that the caller does not own.
    pub open spec fn unauthorized(self, s: CollectionView) -> Seq<u128> {
        self.ids.filter(not_owned_by(s, self.owner))
    }

    /// Whether stable memory can take the changed tokens and the transaction
    /// of the burn.
    pub open spec fn has_room(self, s: CollectionView) -> bool {
        &&& s.log.len() < u64::MAX
        &&& changed_rows_fit(s.tokens, self.ids, given_to(s.rules.burn_account))
        &&& transaction_row_fits(
            burn_transaction(self.owner, s.rules.burn_account, self.ids, self.memo, 0),
        )
    }
}

/// Whether a burn is accepted: `Ok` with the identifiers that are burned, in
/// ascending order, or the error of the first check that fails.
pub open spec fn burn_outcome(s: CollectionView, caller: Seq<u8>, args: BurnArgs) -> Result<
    Seq<u128>,
    BurnErrorView,
> {
    let b = burn_of(caller, args);
    let unauthorized = b.unauthorized(s);
    if args.token_ids@.len() == 0 {
        Err(BurnErrorView::GenericError { error: empty_token_ids_error() })
    } else if memo_too_large(s.rules, b.memo) {
        Err(BurnErrorView::GenericError { error: memo_too_large_error() })
    } else if unauthorized.len() > 0 {
        Err(BurnErrorView::Unauthorized { token_ids: unauthorized })
    } else if !b.has_room(s) {
        Err(BurnErrorView::GenericError { error: storage_limit_error() })
    } else {
        Ok(b.ids)
    }
}

/// The state after an accepted burn at time `now`.
pub open spec fn burn_apply(s: CollectionView, b: Burn, now: u64) -> CollectionView {
    move_apply(
        s,
        b.ids,
        s.rules.burn_account,
        burn_transaction(b.owner, s.rules.burn_account, b.ids, b.memo, now),
    )
}

/// The state after a burn request at time `now`: changed where the request
/// is accepted, and the same where it is not.
pub open spec fn burn_step(s: CollectionView, caller: Seq<u8>, args: BurnArgs, now: u64)
    -> CollectionView {
    match burn_outcome(s, caller, args) {
        Ok(_) => burn_apply(s, burn_of(caller, args), now),
        Err(_) => s,
    }
}

// ----- approve ------------------------------------------------------------

/// The transaction that records an approval.
pub open spec fn approval_transaction(
    spender: AccountView,
    ids: Seq<u128>,
    memo: Option<Seq<u8>>,
    now: u64,
) -> TransactionView {
    TransactionView {
        token_id: ids,
        txn_type: TransactionTypeView::Approval { spender },
        created_at: now,
        memo,
    }
}

/// An approval request with its accounts normalized.
pub struct Approve {
    pub owner: AccountView,
    pub spender: AccountView,
    pub expires_at: Option<u64>,
    pub memo: Option<Seq<u8>>,
}

/// The request that `caller` makes with `args`.
pub open spec fn approve_of(caller: Seq<u8>, args: ApprovalArgs) -> Approve {
    Approve {
        owner: account_of(caller, args.from_subaccount),
        spender: args.spender@.normalized(),
        expires_at: args.expires_at,
        memo: opt_bytes_view(args.memo),
    }
}

impl Approve {
    /// Among `ids`, the identifiers that the caller does not own.
    pub open spec fn unauthorized(self, s: CollectionView, ids: Seq<u128>) -> Seq<u128> {
        ids.filter(not_owned_by(s, self.owner))
    }

    /// Whether stable memory can take the changed tokens and the transaction
    /// of the approval of `ids`.
    pub open spec fn has_room(self, s: CollectionView, ids: Seq<u128>) -> bool {
        &&& s.log.len() < u64::MAX
        &&& changed_rows_fit(s.tokens, ids, approved_for(self.spender, self.expires_at))
        &&& transaction_row_fits(approval_transaction(self.spender, ids, self.memo, 0))
    }
}

/// Whether an approval is accepted: `Ok` with the identifiers that it is
/// for, in ascending order, or the error of the first check that fails.
pub open spec fn approve_outcome(s: CollectionView, caller: Seq<u8>, args: ApprovalArgs) -> Result<
    Seq<u128>,
    ApprovalErrorView,
> {
    let a = approve_of(caller, args);
    if a.spender.is_anonymous() {
        Err(ApprovalErrorView::GenericError { error: anonymous_identity_error() })
    } else {
        match args.token_ids {
            TokenType::Collection => {
                let owned = s.tokens_of(a.owner);
                if owned.len() == 0 {
                    Err(ApprovalErrorView::GenericError { error: no_token_owned_error() })
                } else if !a.has_room(s, owned) {
                    Err(ApprovalErrorView::GenericError { error: storage_limit_error() })
                } else {
                    Ok(owned)
                }
            },
            TokenType::TokenIds(list) => {
                let ids = sorted(list@);
                let unauthorized = a.unauthorized(s, ids);
                if list@.len() == 0 {
                    Err(ApprovalErrorView::GenericError { error: empty_token_ids_error() })
                } else if unauthorized.len() > 0 {
                    Err(ApprovalErrorView::Unauthorized { token_ids: unauthorized })
                } else if !a.has_room(s, ids) {
                    Err(ApprovalErrorView::GenericError { error: storage_limit_error() })
                } else {
                    Ok(ids)
                }
            },
        }
    }
}

/// The state after `ids` got an approval of `spender` at time `now`.
pub open spec fn approve_apply(
    s: CollectionView,
    spender: AccountView,
    expires_at: Option<u64>,
    memo: Option<Seq<u8>>,
    ids: Seq<u128>,
    now: u64,
) -> CollectionView {
    CollectionView {
        tokens: changed_tokens(s.tokens, ids, approved_for(spender, expires_at)),
        log: s.log.push(approval_transaction(spender, ids, memo, now)),
        ..s
    }
}

/// The state after an approval request at time `now`: changed where the
/// request is accepted, and the same where it is not.
pub open spec fn approve_step(s: CollectionView, caller: Seq<u8>, args: ApprovalArgs, now: u64)
    -> CollectionView {
    match approve_outcome(s, caller, args) {
        Ok(ids) => approve_apply(
            s,
            approve_of(caller, args).spender,
            args.expires_at,
            opt_bytes_view(args.memo),
            ids,
            now,
        ),
        Err(_) => s,
    }
}

// ----- queries ------------------------------------------------------------

/// The number of identifiers on a page: the requested number, or the default
/// where none is requested, and at most the maximum.
pub open spec fn page_size(
    default_take: Option<u128>,
    max_take: Option<u128>,
    take: Option<u128>,
) -> Option<u128> {
    let wanted = match take {
        Some(n) => Some(n),
        None => default_take,
    };
    match (wanted, max_take) {
        (Some(n), Some(m)) => Some(if n <= m {
            n
        } else {
            m
        }),
        (Some(n), None) => Some(n),
        (None, Some(m)) => Some(m),
        (None, None) => None,
    }
}

/// A page of `ids`: the identifiers greater than `prev`, or all where that
/// is absent, up to `size` of them.
pub open spec fn page(ids: Seq<u128>, prev: Option<u128>, size: Option<u128>) -> Seq<u128> {
    let rest = ids.filter(beyond(prev));
    match size {
        Some(n) => if n < rest.len() {
            rest.take(n as int)
        } else {
            rest
        },
        None => rest,
    }
}

} // verus!
