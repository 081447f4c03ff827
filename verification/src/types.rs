//! The arguments and the errors of the ledger's operations.
//!
//! Each error type has a view, in which lists and texts are mathematical
//! sequences; the contracts of the operations state the error by its view.

use crate::account::{Account, AccountView, Subaccount};
use vstd::prelude::*;

verus! {

/// The view of an optional byte string.
pub open spec fn opt_bytes_view(x: Option<Vec<u8>>) -> Option<Seq<u8>> {
    match x {
        Some(b) => Some(b@),
        None => None,
    }
}

/// The view of an optional text.
pub open spec fn opt_text_view(x: Option<String>) -> Option<Seq<char>> {
    match x {
        Some(t) => Some(t@),
        None => None,
    }
}

/// The view of an optional account.
pub open spec fn opt_account_view(x: Option<Account>) -> Option<AccountView> {
    match x {
        Some(a) => Some(a@),
        None => None,
    }
}

/// The account of `owner` under the sub-identifier `subaccount`, or under the
/// default one where that is absent.
pub open spec fn account_of(owner: Seq<u8>, subaccount: Option<Subaccount>) -> AccountView {
    (AccountView {
        owner,
        subaccount: match subaccount {
            Some(s) => Some(s@),
            None => None,
        },
    }).normalized()
}

/// A copy of a list of identifiers.
pub fn copy_ids(ids: &Vec<u128>) -> (r: Vec<u128>)
    ensures
        r@ == ids@,
{
    let mut out: Vec<u128> = Vec::new();
    let mut i: usize = 0;
    while i < ids.len()
        invariant
            i <= ids@.len(),
            out@ == ids@.take(i as int),
        decreases ids@.len() - i,
    {
        out.push(ids[i]);
        i += 1;
        assert(out@ =~= ids@.take(i as int));
    }
    assert(ids@.take(ids@.len() as int) =~= ids@);
    out
}

/// A copy of a memo.
pub fn copy_memo(memo: &Option<Vec<u8>>) -> (r: Option<Vec<u8>>)
    ensures
        opt_bytes_view(r) == opt_bytes_view(*memo),
{
    match memo {
        Some(m) => Some(crate::account::bytes_clone(m.as_slice())),
        None => None,
    }
}

/// Whether `memo` is longer than `limit` bytes.
pub fn memo_exceeds(memo: &Option<Vec<u8>>, limit: u128) -> (r: bool)
    ensures
        r == (opt_bytes_view(*memo) matches Some(m) && m.len() > limit),
{
    match memo {
        Some(m) => m.len() as u128 > limit,
        None => false,
    }
}

// ----- error codes --------------------------------------------------------

/// The code of the error for an empty list of token identifiers.
pub const EMPTY_TOKEN_IDS: u128 = 2;

/// The code of the error for a caller who owns no token.
pub const NO_TOKEN_OWNED: u128 = 3;

/// The code of the error for a row that stable memory cannot take.
pub const STORAGE_LIMIT: u128 = 4;

/// The code of the error for an anonymous identity.
pub const ANONYMOUS_IDENTITY: u128 = 100;

/// The code of the error for a memo over the configured size.
pub const MEMO_TOO_LARGE: u128 = 112;

/// The message of the error for an empty list of token identifiers.
pub open spec fn empty_token_ids_text() -> Seq<char> {
    "Empty Token Ids"@
}

/// The message of the error for a caller who owns no token.
pub open spec fn no_token_owned_text() -> Seq<char> {
    "No Token Owned"@
}

/// The message of the error for a row that stable memory cannot take.
pub open spec fn storage_limit_text() -> Seq<char> {
    "Storage Limit Reached"@
}

/// The message of the error for an anonymous identity.
pub open spec fn anonymous_identity_text() -> Seq<char> {
    "Anonymous Identity"@
}

/// The message of the error for a memo over the configured size.
pub open spec fn memo_too_large_text() -> Seq<char> {
    "Exceeds Max Memo Size"@
}

/// What stands for a generic error in the model: its code and its message.
pub struct GenericView {
    pub error_code: u128,
    pub message: Seq<char>,
}

/// The error for an empty list of token identifiers.
pub open spec fn empty_token_ids_error() -> GenericView {
    GenericView { error_code: EMPTY_TOKEN_IDS, message: empty_token_ids_text() }
}

/// The error for a caller who owns no token.
pub open spec fn no_token_owned_error() -> GenericView {
    GenericView { error_code: NO_TOKEN_OWNED, message: no_token_owned_text() }
}

/// The error for a row that stable memory cannot take.
pub open spec fn storage_limit_error() -> GenericView {
    GenericView { error_code: STORAGE_LIMIT, message: storage_limit_text() }
}

/// The error for an anonymous identity.
pub open spec fn anonymous_identity_error() -> GenericView {
    GenericView { error_code: ANONYMOUS_IDENTITY, message: anonymous_identity_text() }
}

/// The error for a memo over the configured size.
pub open spec fn memo_too_large_error() -> GenericView {
    GenericView { error_code: MEMO_TOO_LARGE, message: memo_too_large_text() }
}

/// Which generic error an operation reports.
#[derive(Clone, Copy, Debug)]
pub enum GenericKind {
    EmptyTokenIds,
    NoTokenOwned,
    StorageLimit,
    AnonymousIdentity,
    MemoTooLarge,
}

impl GenericKind {
    /// The code and the message of the error.
    pub open spec fn view(self) -> GenericView {
        match self {
            GenericKind::EmptyTokenIds => empty_token_ids_error(),
            GenericKind::NoTokenOwned => no_token_owned_error(),
            GenericKind::StorageLimit => storage_limit_error(),
            GenericKind::AnonymousIdentity => anonymous_identity_error(),
            GenericKind::MemoTooLarge => memo_too_large_error(),
        }
    }

    /// The code of the error.
    pub fn error_code(self) -> (r: u128)
        ensures
            r == self.view().error_code,
    {
        match self {
            GenericKind::EmptyTokenIds => EMPTY_TOKEN_IDS,
            GenericKind::NoTokenOwned => NO_TOKEN_OWNED,
            GenericKind::StorageLimit => STORAGE_LIMIT,
            GenericKind::AnonymousIdentity => ANONYMOUS_IDENTITY,
            GenericKind::MemoTooLarge => MEMO_TOO_LARGE,
        }
    }

    /// The message of the error.
    pub fn message(self) -> (r: String)
        ensures
            r@ == self.view().message,
    {
        match self {
            GenericKind::EmptyTokenIds => "Empty Token Ids".to_string(),
            GenericKind::NoTokenOwned => "No Token Owned".to_string(),
            GenericKind::StorageLimit => "Storage Limit Reached".to_string(),
            GenericKind::AnonymousIdentity => "Anonymous Identity".to_string(),
            GenericKind::MemoTooLarge => "Exceeds Max Memo Size".to_string(),
        }
    }
}

// ----- transfer -----------------------------------------------------------

/// A request to move tokens from one account to another.
#[derive(Debug)]
pub struct TransferArgs {
    /// The sub-identifier of the caller, who is the spender.
    pub spender_subaccount: Option<Subaccount>,
    pub from: Account,
    pub to: Account,
    pub token_ids: Vec<u128>,
    pub memo: Option<Vec<u8>>,
    pub created_at_time: Option<u64>,
    /// Whether one unauthorized token fails the whole request; absent means
    /// that it does.
    pub is_atomic: Option<bool>,
}

/// Why a transfer is refused.
#[derive(Debug)]
pub enum TransferError {
    Unauthorized { token_ids: Vec<u128> },
    TooOld,
    CreatedInFuture { ledger_time: u64 },
    Duplicate { duplicate_of: u128 },
    TemporarilyUnavailable,
    InvalidRecipient,
    GenericError { error_code: u128, message: String },
}

/// The mathematical value of a [`TransferError`].
pub enum TransferErrorView {
    Unauthorized { token_ids: Seq<u128> },
    TooOld,
    CreatedInFuture { ledger_time: u64 },
    Duplicate { duplicate_of: u128 },
    TemporarilyUnavailable,
    InvalidRecipient,
    GenericError { error: GenericView },
}

impl View for TransferError {
    type V = TransferErrorView;

    open spec fn view(&self) -> TransferErrorView {
        match *self {
            TransferError::Unauthorized { token_ids } => TransferErrorView::Unauthorized {
                token_ids: token_ids@,
            },
            TransferError::TooOld => TransferErrorView::TooOld,
            TransferError::CreatedInFuture { ledger_time } => TransferErrorView::CreatedInFuture {
                ledger_time,
            },
            TransferError::Duplicate { duplicate_of } => TransferErrorView::Duplicate {
                duplicate_of,
            },
            TransferError::TemporarilyUnavailable => TransferErrorView::TemporarilyUnavailable,
            TransferError::InvalidRecipient => TransferErrorView::InvalidRecipient,
            TransferError::GenericError { error_code, message } => TransferErrorView::GenericError {
                error: GenericView { error_code, message: message@ },
            },
        }
    }
}

impl TransferError {
    /// The generic error of the given kind.
    pub fn generic(kind: GenericKind) -> (r: TransferError)
        ensures
            r@ == (TransferErrorView::GenericError { error: kind.view() }),
    {
        TransferError::GenericError { error_code: kind.error_code(), message: kind.message() }
    }
}

// ----- approval -----------------------------------------------------------

/// The tokens that an approval is for.
#[derive(Debug)]
pub enum TokenType {
    /// Every token that the caller owns.
    Collection,
    /// The listed tokens.
    TokenIds(Vec<u128>),
}

/// A request to let `spender` transfer tokens of the caller.
#[derive(Debug)]
pub struct ApprovalArgs {
    pub from_subaccount: Option<Subaccount>,
    pub spender: Account,
    pub token_ids: TokenType,
    pub expires_at: Option<u64>,
    pub memo: Option<Vec<u8>>,
    pub created_at_time: Option<u64>,
}

/// Why an approval is refused.
#[derive(Debug)]
pub enum ApprovalError {
    Unauthorized { token_ids: Vec<u128> },
    TooOld,
    TemporarilyUnavailable,
    GenericError { error_code: u128, message: String },
}

/// The mathematical value of an [`ApprovalError`].
pub enum ApprovalErrorView {
    Unauthorized { token_ids: Seq<u128> },
    TooOld,
    TemporarilyUnavailable,
    GenericError { error: GenericView },
}

impl View for ApprovalError {
    type V = ApprovalErrorView;

    open spec fn view(&self) -> ApprovalErrorView {
        match *self {
            ApprovalError::Unauthorized { token_ids } => ApprovalErrorView::Unauthorized {
                token_ids: token_ids@,
            },
            ApprovalError::TooOld => ApprovalErrorView::TooOld,
            ApprovalError::TemporarilyUnavailable => ApprovalErrorView::TemporarilyUnavailable,
            ApprovalError::GenericError { error_code, message } => ApprovalErrorView::GenericError {
                error: GenericView { error_code, message: message@ },
            },
        }
    }
}

impl ApprovalError {
    /// The generic error of the given kind.
    pub fn generic(kind: GenericKind) -> (r: ApprovalError)
        ensures
            r@ == (ApprovalErrorView::GenericError { error: kind.view() }),
    {
        ApprovalError::GenericError { error_code: kind.error_code(), message: kind.message() }
    }
}

/// The errors of revoking an approval.
#[derive(Debug)]
pub enum RevokeError {
    Unauthorized,
    ApprovalDoesNotExist,
    TooOld,
    TemporarilyUnavailable,
    GenericError { error_code: u128, message: String },
}

// ----- mint ---------------------------------------------------------------

/// A request to create tokens, all with the same display data.
#[derive(Debug)]
pub struct MintArgs {
    pub token_ids: Vec<u128>,
    pub name: String,
    pub logo: Option<String>,
    pub description: Option<String>,
    /// The first owner; absent means the caller.
    pub to: Option<Account>,
    pub memo: Option<Vec<u8>>,
}

/// Why a mint is refused.
#[derive(Debug)]
pub enum MintError {
    Unauthorized,
    InvalidRecipient,
    SupplyCapReached,
    TokenIdAlreadyExists { ids: Vec<u128> },
    GenericError { error_code: u128, message: String },
}

/// The mathematical value of a [`MintError`].
pub enum MintErrorView {
    Unauthorized,
    InvalidRecipient,
    SupplyCapReached,
    TokenIdAlreadyExists { ids: Seq<u128> },
    GenericError { error: GenericView },
}

impl View for MintError {
    type V = MintErrorView;

    open spec fn view(&self) -> MintErrorView {
        match *self {
            MintError::Unauthorized => MintErrorView::Unauthorized,
            MintError::InvalidRecipient => MintErrorView::InvalidRecipient,
            MintError::SupplyCapReached => MintErrorView::SupplyCapReached,
            MintError::TokenIdAlreadyExists { ids } => MintErrorView::TokenIdAlreadyExists {
                ids: ids@,
            },
            MintError::GenericError { error_code, message } => MintErrorView::GenericError {
                error: GenericView { error_code, message: message@ },
            },
        }
    }
}

impl MintError {
    /// The generic error of the given kind.
    pub fn generic(kind: GenericKind) -> (r: MintError)
        ensures
            r@ == (MintErrorView::GenericError { error: kind.view() }),
    {
        MintError::GenericError { error_code: kind.error_code(), message: kind.message() }
    }
}

// ----- burn ---------------------------------------------------------------

/// A request to burn tokens of the caller.
#[derive(Debug)]
pub struct BurnArgs {
    pub from_subaccount: Option<Subaccount>,
    pub token_ids: Vec<u128>,
    pub memo: Option<Vec<u8>>,
}

/// Why a burn is refused.
#[derive(Debug)]
pub enum BurnError {
    Unauthorized { token_ids: Vec<u128> },
    NonExistingTokenId,
    GenericError { error_code: u128, message: String },
    GenericBatchError { error_code: u128, message: String },
}

/// The mathematical value of a [`BurnError`].
pub enum BurnErrorView {
    Unauthorized { token_ids: Seq<u128> },
    NonExistingTokenId,
    GenericError { error: GenericView },
    GenericBatchError { error: GenericView },
}

impl View for BurnError {
    type V = BurnErrorView;

    open spec fn view(&self) -> BurnErrorView {
        match *self {
            BurnError::Unauthorized { token_ids } => BurnErrorView::Unauthorized {
                token_ids: token_ids@,
            },
            BurnError::NonExistingTokenId => BurnErrorView::NonExistingTokenId,
            BurnError::GenericError { error_code, message } => BurnErrorView::GenericError {
                error: GenericView { error_code, message: message@ },
            },
            BurnError::GenericBatchError { error_code, message } => BurnErrorView::GenericBatchError {
                error: GenericView { error_code, message: message@ },
            },
        }
    }
}

impl BurnError {
    /// The generic error of the given kind.
    pub fn generic(kind: GenericKind) -> (r: BurnError)
        ensures
            r@ == (BurnErrorView::GenericError { error: kind.view() }),
    {
        BurnError::GenericError { error_code: kind.error_code(), message: kind.message() }
    }
}

// ----- setting up ---------------------------------------------------------

/// What a ledger is set up with.
#[derive(Debug)]
pub struct InitArgs {
    /// The account that may mint; absent means the default account of the
    /// caller.
    pub minting_authority: Option<Account>,
    pub icrc7_name: String,
    pub icrc7_symbol: String,
    pub icrc7_royalties: Option<u16>,
    pub icrc7_royalty_recipient: Option<Account>,
    pub icrc7_description: Option<String>,
    pub icrc7_logo: Option<String>,
    pub icrc7_supply_cap: Option<u128>,
    pub icrc7_max_query_batch_size: Option<u128>,
    pub icrc7_max_update_batch_size: Option<u128>,
    pub icrc7_default_take_value: Option<u128>,
    pub icrc7_max_take_value: Option<u128>,
    /// The longest memo, in bytes; absent means 32.
    pub icrc7_max_memo_size: Option<u128>,
    pub icrc7_atomic_batch_transfers: Option<bool>,
    /// How far a creation time may lie in the future, in minutes.
    pub permitted_drift: u64,
    /// How far back deduplication looks, in hours.
    pub tx_window: u64,
}

/// The display data of the collection.
#[derive(Debug)]
pub struct Icrc7CollectionMetadata {
    pub icrc7_name: String,
    pub icrc7_symbol: String,
    pub icrc7_royalties: Option<u16>,
    pub icrc7_royalty_recipient: Option<Account>,
    pub icrc7_description: Option<String>,
    pub icrc7_logo: Option<String>,
    pub icrc7_total_supply: u128,
    pub icrc7_supply_cap: Option<u128>,
}

// ----- display data -------------------------------------------------------

/// A value of a metadata entry.
#[derive(Debug)]
pub enum MetadataValue {
    Nat(u128),
    Text(String),
}

/// The mathematical value of a [`MetadataValue`].
pub enum MetadataValueView {
    Nat(u128),
    Text(Seq<char>),
}

impl View for MetadataValue {
    type V = MetadataValueView;

    open spec fn view(&self) -> MetadataValueView {
        match *self {
            MetadataValue::Nat(n) => MetadataValueView::Nat(n),
            MetadataValue::Text(t) => MetadataValueView::Text(t@),
        }
    }
}

/// The entries of a metadata list, as pairs of a key and a value.
pub open spec fn metadata_view(entries: Seq<(String, MetadataValue)>) -> Seq<
    (Seq<char>, MetadataValueView),
> {
    Seq::new(entries.len(), |i: int| (entries[i].0@, entries[i].1@))
}

/// A standard that the ledger implements.
#[derive(Debug)]
pub struct Standard {
    pub name: String,
    pub url: String,
}

} // verus!
