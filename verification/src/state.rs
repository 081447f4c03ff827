//! The ledger: its configuration, its counters and its two stores.

use crate::account::{account_transformer, default_account_from_principal, Account};
use crate::model::{CollectionView, Rules};
use crate::store::{fresh_stores, stored_stores, transaction_row_fits, TokenStore, TxnLog};
use crate::transaction::{Transaction, TransactionType, TransactionView};
use crate::types::{
    opt_account_view, opt_bytes_view, opt_text_view, Icrc7CollectionMetadata, InitArgs,
};
use vstd::prelude::*;

verus! {

/// The longest memo where none is configured, in bytes.
pub const DEFAULT_MAX_MEMO_SIZE: u128 = 32;

/// The nanoseconds of a minute.
pub const NANOS_PER_MINUTE: u64 = 60_000_000_000;

/// The nanoseconds of an hour.
pub const NANOS_PER_HOUR: u64 = 3_600_000_000_000;

/// What a ledger is set up with. Nothing of it changes afterwards.
#[derive(Debug)]
pub struct CollectionConfig {
    pub minting_authority: Account,
    /// The account that burned tokens go to.
    pub burn_account: Account,
    pub icrc7_name: String,
    pub icrc7_symbol: String,
    pub icrc7_royalties: Option<u16>,
    pub icrc7_royalty_recipient: Option<Account>,
    pub icrc7_description: Option<String>,
    pub icrc7_logo: Option<String>,
    pub icrc7_supply_cap: Option<u128>,
    pub icrc7_max_query_batch_size: Option<u128>,
    pub icrc7_max_update_batch_size: Option<u128>,
    pub icrc7_default_take_value: Option<u128>,
    pub icrc7_max_take_value: Option<u128>,
    pub icrc7_max_memo_size: u128,
    pub icrc7_atomic_batch_transfers: Option<bool>,
    /// How far back deduplication looks, in nanoseconds.
    pub tx_window: u64,
    /// How far a creation time may lie in the future, in nanoseconds.
    pub permitted_drift: u64,
}

impl CollectionConfig {
    /// The part of the configuration that the operations look at.
    pub open spec fn rules(&self) -> Rules {
        Rules {
            minting_authority: self.minting_authority@,
            burn_account: self.burn_account@,
            supply_cap: self.icrc7_supply_cap,
            max_memo_size: self.icrc7_max_memo_size,
            default_take_value: self.icrc7_default_take_value,
            max_take_value: self.icrc7_max_take_value,
            tx_window: self.tx_window,
            permitted_drift: self.permitted_drift,
        }
    }
}

impl CollectionConfig {
    /// Whether two configurations say the same.
    pub open spec fn same_as(&self, other: CollectionConfig) -> bool {
        &&& self.rules() == other.rules()
        &&& self.icrc7_name@ == other.icrc7_name@
        &&& self.icrc7_symbol@ == other.icrc7_symbol@
        &&& self.icrc7_royalties == other.icrc7_royalties
        &&& opt_account_view(self.icrc7_royalty_recipient) == opt_account_view(
            other.icrc7_royalty_recipient,
        )
        &&& opt_text_view(self.icrc7_description) == opt_text_view(other.icrc7_description)
        &&& opt_text_view(self.icrc7_logo) == opt_text_view(other.icrc7_logo)
        &&& self.icrc7_max_query_batch_size == other.icrc7_max_query_batch_size
        &&& self.icrc7_max_update_batch_size == other.icrc7_max_update_batch_size
        &&& self.icrc7_atomic_batch_transfers == other.icrc7_atomic_batch_transfers
    }
}

/// The ledger.
pub struct Collection {
    pub(crate) config: CollectionConfig,
    pub(crate) total_supply: u128,
    pub(crate) tokens: TokenStore,
    pub(crate) tx_log: TxnLog,
}

/// The product of `a` and `b`, or the greatest 64-bit number where the
/// product is greater.
pub open spec fn saturating_product(a: u64, b: u64) -> u64 {
    if a * b <= u64::MAX {
        (a * b) as u64
    } else {
        u64::MAX
    }
}

/// The product of `a` and `b`, or the greatest 64-bit number where the
/// product is greater.
pub fn saturating_times(a: u64, b: u64) -> (r: u64)
    ensures
        r == saturating_product(a, b),
{
    assert(a * b <= u64::MAX * u64::MAX) by (nonlinear_arith)
        requires
            a <= u64::MAX,
            b <= u64::MAX,
    ;
    let wide: u128 = (a as u128) * (b as u128);
    if wide <= u64::MAX as u128 {
        wide as u64
    } else {
        u64::MAX
    }
}

/// The configuration that `init` makes of its arguments.
pub open spec fn initial_rules(args: InitArgs, caller: Seq<u8>, ledger: Seq<u8>) -> Rules {
    Rules {
        minting_authority: crate::model::mint_receiver(
            caller,
            opt_account_view(args.minting_authority),
        ),
        burn_account: crate::types::account_of(ledger, None),
        supply_cap: args.icrc7_supply_cap,
        max_memo_size: match args.icrc7_max_memo_size {
            Some(n) => n,
            None => DEFAULT_MAX_MEMO_SIZE,
        },
        default_take_value: args.icrc7_default_take_value,
        max_take_value: args.icrc7_max_take_value,
        tx_window: saturating_product(args.tx_window, NANOS_PER_HOUR),
        permitted_drift: saturating_product(args.permitted_drift, NANOS_PER_MINUTE),
    }
}

/// Sets up an empty ledger.
///
/// `caller` is the identity that sets it up, and `ledger` the identity of
/// the ledger itself. The minting authority is the given account,
/// normalized, or the default account of `caller`; burned tokens go to the
/// default account of `ledger`. The transaction window is given in hours and
/// the permitted drift in minutes; both are kept in nanoseconds.
pub fn init(args: InitArgs, caller: Vec<u8>, ledger: Vec<u8>) -> (r: Collection)
    ensures
        r.wf(),
        r@.rules == initial_rules(args, caller@, ledger@),
        r@.total_supply == 0,
        r@.tokens == (Map::<u128, crate::token::TokenView>::empty()),
        r@.log == (Seq::<TransactionView>::empty()),
        r.config().icrc7_name@ == args.icrc7_name@,
        r.config().icrc7_symbol@ == args.icrc7_symbol@,
        r.config().icrc7_royalties == args.icrc7_royalties,
        opt_account_view(r.config().icrc7_royalty_recipient) == opt_account_view(
            args.icrc7_royalty_recipient,
        ),
        opt_text_view(r.config().icrc7_description) == opt_text_view(args.icrc7_description),
        opt_text_view(r.config().icrc7_logo) == opt_text_view(args.icrc7_logo),
        r.config().icrc7_max_query_batch_size == args.icrc7_max_query_batch_size,
        r.config().icrc7_max_update_batch_size == args.icrc7_max_update_batch_size,
        r.config().icrc7_atomic_batch_transfers == args.icrc7_atomic_batch_transfers,
{
    let minting_authority = match args.minting_authority {
        Some(account) => account_transformer(account),
        None => default_account_from_principal(caller),
    };
    let config = CollectionConfig {
        minting_authority,
        burn_account: default_account_from_principal(ledger),
        icrc7_name: args.icrc7_name,
        icrc7_symbol: args.icrc7_symbol,
        icrc7_royalties: args.icrc7_royalties,
        icrc7_royalty_recipient: args.icrc7_royalty_recipient,
        icrc7_description: args.icrc7_description,
        icrc7_logo: args.icrc7_logo,
        icrc7_supply_cap: args.icrc7_supply_cap,
        icrc7_max_query_batch_size: args.icrc7_max_query_batch_size,
        icrc7_max_update_batch_size: args.icrc7_max_update_batch_size,
        icrc7_default_take_value: args.icrc7_default_take_value,
        icrc7_max_take_value: args.icrc7_max_take_value,
        icrc7_max_memo_size: match args.icrc7_max_memo_size {
            Some(n) => n,
            None => DEFAULT_MAX_MEMO_SIZE,
        },
        icrc7_atomic_batch_transfers: args.icrc7_atomic_batch_transfers,
        tx_window: saturating_times(args.tx_window, NANOS_PER_HOUR),
        permitted_drift: saturating_times(args.permitted_drift, NANOS_PER_MINUTE),
    };
    let (tokens, tx_log) = fresh_stores();
    Collection { config, total_supply: 0, tokens, tx_log }
}

impl Clone for CollectionConfig {
    fn clone(&self) -> (r: CollectionConfig)
        ensures
            r.same_as(*self),
    {
        CollectionConfig {
            minting_authority: self.minting_authority.clone(),
            burn_account: self.burn_account.clone(),
            icrc7_name: self.icrc7_name.clone(),
            icrc7_symbol: self.icrc7_symbol.clone(),
            icrc7_royalties: self.icrc7_royalties,
            icrc7_royalty_recipient: match &self.icrc7_royalty_recipient {
                Some(account) => Some(account.clone()),
                None => None,
            },
            icrc7_description: self.icrc7_description.clone(),
            icrc7_logo: self.icrc7_logo.clone(),
            icrc7_supply_cap: self.icrc7_supply_cap,
            icrc7_max_query_batch_size: self.icrc7_max_query_batch_size,
            icrc7_max_update_batch_size: self.icrc7_max_update_batch_size,
            icrc7_default_take_value: self.icrc7_default_take_value,
            icrc7_max_take_value: self.icrc7_max_take_value,
            icrc7_max_memo_size: self.icrc7_max_memo_size,
            icrc7_atomic_batch_transfers: self.icrc7_atomic_batch_transfers,
            tx_window: self.tx_window,
            permitted_drift: self.permitted_drift,
        }
    }
}

/// The state of a ledger with the given configuration, total supply and
/// stores.
pub open spec fn assembled(
    config: CollectionConfig,
    total_supply: u128,
    tokens: TokenStore,
    tx_log: TxnLog,
) -> CollectionView {
    CollectionView { rules: config.rules(), total_supply, tokens: tokens@, log: tx_log@ }
}

impl Collection {
    /// Makes a ledger of a configuration, a total supply and two stores, if
    /// they make a well-formed state: every account is normalized, each token
    /// is stored under its own identifier, no account holds two approvals on
    /// one token, and the total supply counts the tokens and respects the
    /// cap.
    pub fn assemble(
        config: CollectionConfig,
        total_supply: u128,
        tokens: TokenStore,
        tx_log: TxnLog,
    ) -> (r: Option<Collection>)
        requires
            tokens.wf(),
            tx_log.wf(),
        ensures
            r is Some <==> assembled(config, total_supply, tokens, tx_log).wf(),
            r matches Some(c) ==> c.wf() && c.config() == config && c@ == assembled(
                config,
                total_supply,
                tokens,
                tx_log,
            ),
    {
        let ghost s = assembled(config, total_supply, tokens, tx_log);
        proof {
            tokens.lemma_finite();
        }
        let ids = tokens.ids();
        let count = tx_log.len();
        if !config.minting_authority.is_normalized() || !config.burn_account.is_normalized() {
            return None;
        }
        if ids.len() as u128 != total_supply {
            return None;
        }
        if let Some(cap) = config.icrc7_supply_cap {
            if total_supply > cap {
                return None;
            }
        }
        let mut i: usize = 0;
        while i < ids.len()
            invariant
                tokens.wf(),
                s == assembled(config, total_supply, tokens, tx_log),
                i <= ids@.len(),
                crate::order::lists(ids@, tokens@.dom()),
                forall|j: int|
                    0 <= j < i ==> tokens@[#[trigger] ids@[j]].id == ids@[j]
                        && tokens@[ids@[j]].sound(),
            decreases ids@.len() - i,
        {
            assert(ids@.contains(ids@[i as int]));
            assert(tokens@.dom().contains(ids@[i as int]));
            let sound = match tokens.get(ids[i]) {
                Some(token) => token.id == ids[i] && token.is_sound(),
                None => false,
            };
            if !sound {
                assert(s.tokens.contains_key(ids@[i as int]));
                return None;
            }
            i += 1;
        }
        proof {
            assert forall|k: u128| #[trigger] s.tokens.contains_key(k) implies s.tokens[k].id == k
                && s.tokens[k].sound() by {
                assert(tokens@.dom().contains(k));
                let j = choose|j: int| 0 <= j < ids@.len() && ids@[j] == k;
                assert(tokens@[ids@[j]].id == ids@[j]);
            }
        }
        Some(Collection { config, total_supply, tokens, tx_log })
    }

    /// The ledger that stable memory holds, with the given configuration and
    /// total supply, if the rows of stable memory are those of tokens and of
    /// transactions and make a well-formed state with them. Which rows stable
    /// memory holds is not known here: [`Collection::assemble`] says what
    /// becomes of each pair of stores.
    pub fn restore(config: CollectionConfig, total_supply: u128) -> (r: Option<Collection>)
        ensures
            r matches Some(c) ==> c.wf() && c.config() == config && c@.rules == config.rules()
                && c@.total_supply == total_supply,
    {
        match stored_stores() {
            Some((tokens, tx_log)) => Collection::assemble(config, total_supply, tokens, tx_log),
            None => None,
        }
    }

    /// A copy of the configuration.
    pub fn configuration(&self) -> (r: CollectionConfig)
        ensures
            r.same_as(self.config()),
    {
        self.config.clone()
    }

    /// The state of the ledger.
    pub open(crate) spec fn view(&self) -> CollectionView {
        CollectionView {
            rules: self.config.rules(),
            total_supply: self.total_supply,
            tokens: self.tokens@,
            log: self.tx_log@,
        }
    }

    /// The configuration of the ledger.
    pub open(crate) spec fn config(&self) -> CollectionConfig {
        self.config
    }

    /// Whether the ledger is in order: its stores hold rows of tokens and of
    /// transactions, and its state is well formed.
    pub open(crate) spec fn wf(&self) -> bool {
        &&& self.tokens.wf()
        &&& self.tx_log.wf()
        &&& self@.wf()
    }

    /// The display data of the collection, with its total supply and its cap.
    pub fn icrc7_collection_metadata(&self) -> (r: Icrc7CollectionMetadata)
        ensures
            r.icrc7_name@ == self.config().icrc7_name@,
            r.icrc7_symbol@ == self.config().icrc7_symbol@,
            r.icrc7_royalties == self.config().icrc7_royalties,
            opt_account_view(r.icrc7_royalty_recipient) == opt_account_view(
                self.config().icrc7_royalty_recipient,
            ),
            opt_text_view(r.icrc7_description) == opt_text_view(self.config().icrc7_description),
            opt_text_view(r.icrc7_logo) == opt_text_view(self.config().icrc7_logo),
            r.icrc7_total_supply == self@.total_supply,
            r.icrc7_supply_cap == self@.rules.supply_cap,
    {
        Icrc7CollectionMetadata {
            icrc7_name: self.config.icrc7_name.clone(),
            icrc7_symbol: self.config.icrc7_symbol.clone(),
            icrc7_royalties: self.config.icrc7_royalties,
            icrc7_royalty_recipient: self.icrc7_royalty_recipient(),
            icrc7_description: self.config.icrc7_description.clone(),
            icrc7_logo: self.config.icrc7_logo.clone(),
            icrc7_total_supply: self.total_supply,
            icrc7_supply_cap: self.config.icrc7_supply_cap,
        }
    }

    /// The name of the collection.
    pub fn icrc7_name(&self) -> (r: String)
        ensures
            r@ == self.config().icrc7_name@,
    {
        self.config.icrc7_name.clone()
    }

    /// The symbol of the collection.
    pub fn icrc7_symbol(&self) -> (r: String)
        ensures
            r@ == self.config().icrc7_symbol@,
    {
        self.config.icrc7_symbol.clone()
    }

    /// The description of the collection, if it has one.
    pub fn icrc7_description(&self) -> (r: Option<String>)
        ensures
            opt_text_view(r) == opt_text_view(self.config().icrc7_description),
    {
        self.config.icrc7_description.clone()
    }

    /// The logo of the collection, if it has one.
    pub fn icrc7_logo(&self) -> (r: Option<String>)
        ensures
            opt_text_view(r) == opt_text_view(self.config().icrc7_logo),
    {
        self.config.icrc7_logo.clone()
    }

    /// The royalties that the collection suggests, if any.
    pub fn icrc7_royalties(&self) -> (r: Option<u16>)
        ensures
            r == self.config().icrc7_royalties,
    {
        self.config.icrc7_royalties
    }

    /// The account that royalties go to, if any.
    pub fn icrc7_royalty_recipient(&self) -> (r: Option<Account>)
        ensures
            opt_account_view(r) == opt_account_view(self.config().icrc7_royalty_recipient),
    {
        match &self.config.icrc7_royalty_recipient {
            Some(account) => Some(account.clone()),
            None => None,
        }
    }

    /// The number of tokens minted so far.
    pub fn icrc7_total_supply(&self) -> (r: u128)
        ensures
            r == self@.total_supply,
    {
        self.total_supply
    }

    /// The greatest number of tokens that may be minted, if there is a cap.
    pub fn icrc7_supply_cap(&self) -> (r: Option<u128>)
        ensures
            r == self@.rules.supply_cap,
    {
        self.config.icrc7_supply_cap
    }

    /// The configured limit on the size of a query, if any.
    pub fn icrc7_max_query_batch_size(&self) -> (r: Option<u128>)
        ensures
            r == self.config().icrc7_max_query_batch_size,
    {
        self.config.icrc7_max_query_batch_size
    }

    /// The configured limit on the size of an update, if any.
    pub fn icrc7_max_update_batch_size(&self) -> (r: Option<u128>)
        ensures
            r == self.config().icrc7_max_update_batch_size,
    {
        self.config.icrc7_max_update_batch_size
    }

    /// The size of a page where none is asked for, if configured.
    pub fn icrc7_default_take_value(&self) -> (r: Option<u128>)
        ensures
            r == self@.rules.default_take_value,
    {
        self.config.icrc7_default_take_value
    }

    /// The greatest size of a page, if configured.
    pub fn icrc7_max_take_value(&self) -> (r: Option<u128>)
        ensures
            r == self@.rules.max_take_value,
    {
        self.config.icrc7_max_take_value
    }

    /// The longest memo, in bytes.
    pub fn icrc7_max_memo_size(&self) -> (r: Option<u128>)
        ensures
            r == Some(self@.rules.max_memo_size),
    {
        Some(self.config.icrc7_max_memo_size)
    }

    /// Whether the collection is configured for atomic batch transfers.
    pub fn icrc7_atomic_batch_transfers(&self) -> (r: Option<bool>)
        ensures
            r == self.config().icrc7_atomic_batch_transfers,
    {
        self.config.icrc7_atomic_batch_transfers
    }

    /// How far back deduplication looks, in nanoseconds.
    pub fn icrc7_tx_window(&self) -> (r: Option<u128>)
        ensures
            r == Some(self@.rules.tx_window as u128),
    {
        Some(self.config.tx_window as u128)
    }

    /// How far a creation time may lie in the future, in nanoseconds.
    pub fn icrc7_permitted_drift(&self) -> (r: Option<u128>)
        ensures
            r == Some(self@.rules.permitted_drift as u128),
    {
        Some(self.config.permitted_drift as u128)
    }

    /// The account that may mint.
    pub fn minting_authority(&self) -> (r: Account)
        ensures
            r@ == self@.rules.minting_authority,
    {
        self.config.minting_authority.clone()
    }

    /// The account that burned tokens go to.
    pub fn burn_account(&self) -> (r: Account)
        ensures
            r@ == self@.rules.burn_account,
    {
        self.config.burn_account.clone()
    }

    /// The transaction with identifier `id`, if there is one.
    pub fn transaction(&self, id: u128) -> (r: Option<Transaction>)
        requires
            self.wf(),
        ensures
            r is Some == (1 <= id <= self@.log.len()),
            r matches Some(t) ==> t@ == self@.log[id - 1],
    {
        self.tx_log.get(id)
    }
}

/// The identifier that the next transaction gets: one more than that of the
/// last.
pub fn get_txn_id(collection: &Collection) -> (id: u128)
    requires
        collection.wf(),
    ensures
        id == collection@.next_txn_id(),
{
    collection.tx_log.len() as u128 + 1
}

/// The transaction that `log_transaction` appends.
pub open spec fn transaction_view(
    token_id: Seq<u128>,
    txn_type: crate::transaction::TransactionTypeView,
    memo: Option<Seq<u8>>,
    now: u64,
) -> TransactionView {
    TransactionView { token_id, txn_type, created_at: now, memo }
}

/// Appends a transaction with the time `now` to the log and returns its
/// identifier, which is one more than that of the last transaction.
///
/// The row of the transaction must fit into stable memory, and the log must
/// have room for one more.
pub fn log_transaction(
    collection: &mut Collection,
    token_id: Vec<u128>,
    txn_type: TransactionType,
    memo: Option<Vec<u8>>,
    now: u64,
) -> (id: u128)
    requires
        old(collection).wf(),
        old(collection)@.log.len() < u64::MAX,
        transaction_row_fits(transaction_view(token_id@, txn_type@, opt_bytes_view(memo), now)),
    ensures
        final(collection).wf(),
        final(collection)@ == old(collection)@.logged(
            transaction_view(token_id@, txn_type@, opt_bytes_view(memo), now),
        ),
        final(collection).config() == old(collection).config(),
        id == old(collection)@.next_txn_id(),
{
    let transaction = Transaction { token_id, txn_type, created_at: now, memo };
    collection.tx_log.append(&transaction)
}

} // verus!
