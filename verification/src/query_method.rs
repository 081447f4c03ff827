//! Queries: who owns what, and the identifiers page by page.

use crate::account::Account;
use crate::approve::owned_tokens;
use crate::model::{beyond, page, page_size, CollectionView};
use crate::order::lemma_filter_step;
use crate::state::{Collection, CollectionConfig};
use crate::token::token_metadata_entries;
use crate::types::{metadata_view, opt_account_view, MetadataValue, MetadataValueView, Standard};
use vstd::prelude::*;

verus! {

/// The number of identifiers on a page: the requested number, or the default
/// where none is requested, and at most the maximum.
pub fn page_limit(default_take: Option<u128>, max_take: Option<u128>, take: Option<u128>) -> (r:
    Option<u128>)
    ensures
        r == page_size(default_take, max_take, take),
{
    let wanted = match take {
        Some(n) => Some(n),
        None => default_take,
    };
    match (wanted, max_take) {
        (Some(n), Some(m)) => Some(if n <= m {
            n
        } else {
            m
        }),
        (Some(n), None) => Some(n),
        (None, Some(m)) => Some(m),
        (None, None) => None,
    }
}

/// A page of `ids`: the identifiers greater than `prev`, or all where that is
/// absent, up to `size` of them, in the order of `ids`.
pub fn page_of(ids: &Vec<u128>, prev: Option<u128>, size: Option<u128>) -> (r: Vec<u128>)
    ensures
        r@ == page(ids@, prev, size),
{
    let mut out: Vec<u128> = Vec::new();
    let mut i: usize = 0;
    assert(ids@.take(0).filter(beyond(prev)) =~= Seq::<u128>::empty());
    while i < ids.len()
        invariant
            i <= ids@.len(),
            out@ == page(ids@.take(i as int), prev, size),
        decreases ids@.len() - i,
    {
        proof {
            lemma_filter_step(ids@, i as int, beyond(prev));
        }
        let id = ids[i];
        let passes = match prev {
            Some(p) => id > p,
            None => true,
        };
        let room = match size {
            Some(n) => (out.len() as u128) < n,
            None => true,
        };
        let ghost rest = ids@.take(i as int).filter(beyond(prev));
        if passes && room {
            out.push(id);
            assert(out@ =~= page(ids@.take(i + 1), prev, size)) by {
                assert(out@ =~= rest.push(id));
            }
        } else if passes {
            assert(out@ =~= page(ids@.take(i + 1), prev, size)) by {
                let n = size->0 as int;
                assert(rest.push(id).take(n) =~= rest.take(n));
            }
        }
        i += 1;
    }
    assert(ids@.take(ids@.len() as int) =~= ids@);
    out
}

impl Collection {
    /// The token `id`, if the ledger has that token.
    pub fn token(&self, id: u128) -> (r: Option<crate::token::Token>)
        requires
            self.wf(),
        ensures
            r is Some == self@.tokens.contains_key(id),
            r matches Some(t) ==> t@ == self@.tokens[id],
    {
        self.tokens.get(id)
    }

    /// The owner of the token `token_id`, if the ledger has that token.
    pub fn owner_of(&self, token_id: &u128) -> (r: Option<Account>)
        requires
            self.wf(),
        ensures
            opt_account_view(r) == if self@.tokens.contains_key(*token_id) {
                Some(self@.tokens[*token_id].owner)
            } else {
                None
            },
    {
        match self.tokens.get(*token_id) {
            Some(token) => Some(token.owner),
            None => None,
        }
    }

    /// The number of tokens that `account` owns.
    pub fn balance_of(&self, account: &Account) -> (r: u128)
        requires
            self.wf(),
        ensures
            r == self@.tokens_of(account@).len(),
    {
        owned_tokens(self, account).len() as u128
    }

    /// The identifiers of the tokens that `account` owns, in ascending order.
    pub fn icrc7_tokens_of(&self, account: &Account) -> (r: Vec<u128>)
        requires
            self.wf(),
        ensures
            r@ == self@.tokens_of(account@),
    {
        owned_tokens(self, account)
    }

    /// The display data of the token `id`; nothing where the ledger has no
    /// such token.
    pub fn icrc7_token_metadata(&self, id: &u128) -> (r: Vec<(String, MetadataValue)>)
        requires
            self.wf(),
        ensures
            metadata_view(r@) == token_metadata_of(self@, *id),
    {
        match self.tokens.get(*id) {
            Some(token) => token.token_metadata(),
            None => {
                let r: Vec<(String, MetadataValue)> = Vec::new();
                assert(metadata_view(r@) =~= Seq::empty());
                r
            },
        }
    }
}

/// The display data of the token `id`; nothing where there is no such
/// token.
pub open spec fn token_metadata_of(s: CollectionView, id: u128) -> Seq<
    (Seq<char>, MetadataValueView),
> {
    if s.tokens.contains_key(id) {
        token_metadata_entries(s.tokens[id])
    } else {
        Seq::empty()
    }
}

/// A page of the identifiers of all tokens, in ascending order: those
/// greater than `prev`, or all where that is absent, up to the page size.
pub fn icrc7_tokens(collection: &Collection, prev: Option<u128>, take: Option<u128>) -> (r: Vec<
    u128,
>)
    requires
        collection.wf(),
    ensures
        r@ == page(collection@.token_ids(), prev, page_size(
            collection@.rules.default_take_value,
            collection@.rules.max_take_value,
            take,
        )),
{
    let ids = collection.tokens.ids();
    let size = page_limit(
        collection.config.icrc7_default_take_value,
        collection.config.icrc7_max_take_value,
        take,
    );
    page_of(&ids, prev, size)
}

/// A page of the identifiers of the tokens of `account`, in ascending order:
/// those greater than `prev`, or all where that is absent, up to the page
/// size.
pub fn icrc7_tokens_of(
    collection: &Collection,
    account: &Account,
    prev: Option<u128>,
    take: Option<u128>,
) -> (r: Vec<u128>)
    requires
        collection.wf(),
    ensures
        r@ == page(collection@.tokens_of(account@), prev, page_size(
            collection@.rules.default_take_value,
            collection@.rules.max_take_value,
            take,
        )),
{
    let ids = owned_tokens(collection, account);
    let size = page_limit(
        collection.config.icrc7_default_take_value,
        collection.config.icrc7_max_take_value,
        take,
    );
    page_of(&ids, prev, size)
}

/// The owner of each token of `ids`, where the ledger has that token.
pub fn icrc7_owner_of(collection: &Collection, ids: &Vec<u128>) -> (r: Vec<Option<Account>>)
    requires
        collection.wf(),
    ensures
        r@.len() == ids@.len(),
        forall|i: int|
            0 <= i < ids@.len() ==> opt_account_view(#[trigger] r@[i]) == if collection@.tokens.contains_key(
                ids@[i],
            ) {
                Some(collection@.tokens[ids@[i]].owner)
            } else {
                None
            },
{
    let mut out: Vec<Option<Account>> = Vec::new();
    let mut i: usize = 0;
    while i < ids.len()
        invariant
            collection.wf(),
            i <= ids@.len(),
            out@.len() == i,
            forall|k: int|
                0 <= k < i ==> opt_account_view(#[trigger] out@[k]) == if collection@.tokens.contains_key(
                    ids@[k],
                ) {
                    Some(collection@.tokens[ids@[k]].owner)
                } else {
                    None
                },
        decreases ids@.len() - i,
    {
        out.push(collection.owner_of(&ids[i]));
        i += 1;
    }
    out
}

/// The number of tokens of each account of `accounts`.
pub fn icrc7_balance_of(collection: &Collection, accounts: &Vec<Account>) -> (r: Vec<u128>)
    requires
        collection.wf(),
    ensures
        r@.len() == accounts@.len(),
        forall|i: int|
            0 <= i < accounts@.len() ==> #[trigger] r@[i] == collection@.tokens_of(
                accounts@[i]@,
            ).len(),
{
    let mut out: Vec<u128> = Vec::new();
    let mut i: usize = 0;
    while i < accounts.len()
        invariant
            collection.wf(),
            i <= accounts@.len(),
            out@.len() == i,
            forall|k: int|
                0 <= k < i ==> #[trigger] out@[k] == collection@.tokens_of(accounts@[k]@).len(),
        decreases accounts@.len() - i,
    {
        out.push(collection.balance_of(&accounts[i]));
        i += 1;
    }
    out
}

/// The display data of each token of `token_ids`, where the ledger has that
/// token.
pub fn icrc7_token_metadata(collection: &Collection, token_ids: &Vec<u128>) -> (r: Vec<
    Option<Vec<(String, MetadataValue)>>,
>)
    requires
        collection.wf(),
    ensures
        r@.len() == token_ids@.len(),
        forall|i: int|
            0 <= i < token_ids@.len() ==> match #[trigger] r@[i] {
                Some(entries) => collection@.tokens.contains_key(token_ids@[i]) && metadata_view(
                    entries@,
                ) == token_metadata_entries(collection@.tokens[token_ids@[i]]),
                None => !collection@.tokens.contains_key(token_ids@[i]),
            },
{
    let mut out: Vec<Option<Vec<(String, MetadataValue)>>> = Vec::new();
    let mut i: usize = 0;
    while i < token_ids.len()
        invariant
            collection.wf(),
            i <= token_ids@.len(),
            out@.len() == i,
            forall|k: int|
                0 <= k < i ==> match #[trigger] out@[k] {
                    Some(entries) => collection@.tokens.contains_key(token_ids@[k])
                        && metadata_view(entries@) == token_metadata_entries(
                        collection@.tokens[token_ids@[k]],
                    ),
                    None => !collection@.tokens.contains_key(token_ids@[k]),
                },
        decreases token_ids@.len() - i,
    {
        let entry = match collection.tokens.get(token_ids[i]) {
            Some(token) => Some(token.token_metadata()),
            None => None,
        };
        out.push(entry);
        i += 1;
    }
    out
}

/// An entry with a number, where the number is present.
pub open spec fn number_entry(key: Seq<char>, value: Option<u128>) -> Seq<
    (Seq<char>, MetadataValueView),
> {
    match value {
        Some(n) => seq![(key, MetadataValueView::Nat(n))],
        None => Seq::empty(),
    }
}

/// An entry with a text, where the text is present.
pub open spec fn text_entry(key: Seq<char>, value: Option<Seq<char>>) -> Seq<
    (Seq<char>, MetadataValueView),
> {
    match value {
        Some(t) => seq![(key, MetadataValueView::Text(t))],
        None => Seq::empty(),
    }
}

/// The display data of the collection as a list of entries: name and symbol,
/// logo and description where present, the total supply, and then each limit
/// that is configured.
pub open spec fn collection_metadata_entries(config: CollectionConfig, total_supply: u128) -> Seq<
    (Seq<char>, MetadataValueView),
> {
    seq![
        ("icrc7:name"@, MetadataValueView::Text(config.icrc7_name@)),
        ("icrc7:symbol"@, MetadataValueView::Text(config.icrc7_symbol@)),
    ] + text_entry("icrc7:logo"@, crate::types::opt_text_view(config.icrc7_logo)) + text_entry(
        "icrc7:description"@,
        crate::types::opt_text_view(config.icrc7_description),
    ) + seq![("icrc7:total_supply"@, MetadataValueView::Nat(total_supply))] + number_entry(
        "icrc7:supply_cap"@,
        config.icrc7_supply_cap,
    ) + number_entry("icrc7:max_query_batch_size"@, config.icrc7_max_query_batch_size)
        + number_entry("icrc7:max_update_batch_size"@, config.icrc7_max_update_batch_size)
        + number_entry("icrc7:default_take_value"@, config.icrc7_default_take_value)
        + number_entry("icrc7:max_take_value"@, config.icrc7_max_take_value) + seq![
        ("icrc7:max_memo_size"@, MetadataValueView::Nat(config.icrc7_max_memo_size)),
        ("icrc7:permitted_drift"@, MetadataValueView::Nat(config.permitted_drift as u128)),
        ("icrc7:tx_window"@, MetadataValueView::Nat(config.tx_window as u128)),
    ]
}

/// Appends an entry with a number, where the number is present.
fn push_number(out: &mut Vec<(String, MetadataValue)>, key: &str, value: Option<u128>)
    ensures
        metadata_view(final(out)@) == metadata_view(old(out)@) + number_entry(key@, value),
{
    match value {
        Some(n) => {
            out.push((key.to_string(), MetadataValue::Nat(n)));
        },
        None => {},
    }
    assert(metadata_view(out@) =~= metadata_view(old(out)@) + number_entry(key@, value));
}

/// Appends an entry with a text, where the text is present.
fn push_text(out: &mut Vec<(String, MetadataValue)>, key: &str, value: &Option<String>)
    ensures
        metadata_view(final(out)@) == metadata_view(old(out)@) + text_entry(
            key@,
            crate::types::opt_text_view(*value),
        ),
{
    match value {
        Some(t) => {
            out.push((key.to_string(), MetadataValue::Text(t.clone())));
        },
        None => {},
    }
    assert(metadata_view(out@) =~= metadata_view(old(out)@) + text_entry(
        key@,
        crate::types::opt_text_view(*value),
    ));
}

/// The display data of the collection as a list of entries.
pub fn icrc7_collection_metadata(collection: &Collection) -> (r: Vec<(String, MetadataValue)>)
    ensures
        metadata_view(r@) == collection_metadata_entries(
            collection.config(),
            collection@.total_supply,
        ),
{
    let config = &collection.config;
    let mut out: Vec<(String, MetadataValue)> = Vec::new();
    assert(metadata_view(out@) =~= Seq::empty());
    push_text(&mut out, "icrc7:name", &Some(config.icrc7_name.clone()));
    push_text(&mut out, "icrc7:symbol", &Some(config.icrc7_symbol.clone()));
    push_text(&mut out, "icrc7:logo", &config.icrc7_logo);
    push_text(&mut out, "icrc7:description", &config.icrc7_description);
    push_number(&mut out, "icrc7:total_supply", Some(collection.total_supply));
    push_number(&mut out, "icrc7:supply_cap", config.icrc7_supply_cap);
    push_number(&mut out, "icrc7:max_query_batch_size", config.icrc7_max_query_batch_size);
    push_number(&mut out, "icrc7:max_update_batch_size", config.icrc7_max_update_batch_size);
    push_number(&mut out, "icrc7:default_take_value", config.icrc7_default_take_value);
    push_number(&mut out, "icrc7:max_take_value", config.icrc7_max_take_value);
    push_number(&mut out, "icrc7:max_memo_size", Some(config.icrc7_max_memo_size));
    push_number(&mut out, "icrc7:permitted_drift", Some(config.permitted_drift as u128));
    push_number(&mut out, "icrc7:tx_window", Some(config.tx_window as u128));
    assert(metadata_view(out@) =~= collection_metadata_entries(
        collection.config(),
        collection@.total_supply,
    ));
    out
}

/// A kind of block in the log of transactions.
#[derive(Debug)]
pub struct BlockType {
    pub block_type: String,
    pub url: String,
}

/// The kinds of block, as pairs of a name and an address.
pub open spec fn block_types_view(kinds: Seq<BlockType>) -> Seq<(Seq<char>, Seq<char>)> {
    Seq::new(kinds.len(), |i: int| (kinds[i].block_type@, kinds[i].url@))
}

/// The kinds of block that the log of transactions holds.
pub fn icrc3_supported_block_types() -> (r: Vec<BlockType>)
    ensures
        block_types_view(r@) == seq![
            ("7mint"@, "https://github.com/dfinity/ICRC/blob/main/ICRCs/ICRC-7/ICRC-7.md"@),
            ("7burn"@, "https://github.com/dfinity/ICRC/blob/main/ICRCs/ICRC-7/ICRC-7.md"@),
            ("7xfer"@, "https://github.com/dfinity/ICRC/blob/main/ICRCs/ICRC-7/ICRC-7.md"@),
            ("7approve"@, "https://github.com/dfinity/ICRC/blob/main/ICRCs/ICRC-7/ICRC-7.md"@),
        ],
{
    let mut out: Vec<BlockType> = Vec::new();
    out.push(
        BlockType {
            block_type: "7mint".to_string(),
            url: "https://github.com/dfinity/ICRC/blob/main/ICRCs/ICRC-7/ICRC-7.md".to_string(),
        },
    );
    out.push(
        BlockType {
            block_type: "7burn".to_string(),
            url: "https://github.com/dfinity/ICRC/blob/main/ICRCs/ICRC-7/ICRC-7.md".to_string(),
        },
    );
    out.push(
        BlockType {
            block_type: "7xfer".to_string(),
            url: "https://github.com/dfinity/ICRC/blob/main/ICRCs/ICRC-7/ICRC-7.md".to_string(),
        },
    );
    out.push(
        BlockType {
            block_type: "7approve".to_string(),
            url: "https://github.com/dfinity/ICRC/blob/main/ICRCs/ICRC-7/ICRC-7.md".to_string(),
        },
    );
    assert(block_types_view(out@) =~= seq![
        ("7mint"@, "https://github.com/dfinity/ICRC/blob/main/ICRCs/ICRC-7/ICRC-7.md"@),
        ("7burn"@, "https://github.com/dfinity/ICRC/blob/main/ICRCs/ICRC-7/ICRC-7.md"@),
        ("7xfer"@, "https://github.com/dfinity/ICRC/blob/main/ICRCs/ICRC-7/ICRC-7.md"@),
        ("7approve"@, "https://github.com/dfinity/ICRC/blob/main/ICRCs/ICRC-7/ICRC-7.md"@),
    ]);
    out
}

/// The standards that the ledger implements, as pairs of a name and an
/// address.
pub open spec fn standards_view(standards: Seq<Standard>) -> Seq<(Seq<char>, Seq<char>)> {
    Seq::new(standards.len(), |i: int| (standards[i].name@, standards[i].url@))
}

/// The standard of the ledger's interface.
pub fn icrc7_supported_standards() -> (r: Vec<Standard>)
    ensures
        standards_view(r@) == seq![("ICRC-7"@, "https://github.com/dfinity/ICRC/ICRCs/ICRC-7"@)],
{
    let mut out: Vec<Standard> = Vec::new();
    out.push(
        Standard {
            name: "ICRC-7".to_string(),
            url: "https://github.com/dfinity/ICRC/ICRCs/ICRC-7".to_string(),
        },
    );
    assert(standards_view(out@) =~= seq![
        ("ICRC-7"@, "https://github.com/dfinity/ICRC/ICRCs/ICRC-7"@),
    ]);
    out
}

/// The standards that the ledger implements.
pub fn icrc10_supported_standards() -> (r: Vec<Standard>)
    ensures
        standards_view(r@) == seq![
            ("ICRC-7"@, "https://github.com/dfinity/ICRC/ICRCs/ICRC-7"@),
            ("ICRC-61"@, "https://github.com/dfinity/ICRC/ICRCs/ICRC-61"@),
        ],
{
    let mut out: Vec<Standard> = Vec::new();
    out.push(
        Standard {
            name: "ICRC-7".to_string(),
            url: "https://github.com/dfinity/ICRC/ICRCs/ICRC-7".to_string(),
        },
    );
    out.push(
        Standard {
            name: "ICRC-61".to_string(),
            url: "https://github.com/dfinity/ICRC/ICRCs/ICRC-61".to_string(),
        },
    );
    assert(standards_view(out@) =~= seq![
        ("ICRC-7"@, "https://github.com/dfinity/ICRC/ICRCs/ICRC-7"@),
        ("ICRC-61"@, "https://github.com/dfinity/ICRC/ICRCs/ICRC-61"@),
    ]);
    out
}

} // verus!
