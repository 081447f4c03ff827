//! The two durable maps of the ledger: tokens by identifier, and the log of
//! transactions by position.
//!
//! Each map keeps rows of bytes in stable memory. A store is well formed
//! when every row it keeps is the row of a token, or of a transaction; its
//! view is what those rows hold.

use crate::memory::{
    fresh_row_maps, row_get, row_insert, row_keys, row_len_fits, rows_of, stored_row_maps, RowMap,
};
use crate::order::{lemma_lists_is, lists};
use crate::token::{
    decode_token, enc_token, encode_token, lemma_token_round_trip, parse_token, Token, TokenView,
};
use crate::transaction::{
    decode_transaction, enc_transaction, encode_transaction, lemma_transaction_round_trip,
    parse_transaction, Transaction, TransactionView,
};
use vstd::prelude::*;

verus! {

/// The virtual memory of the token map.
pub const TOKEN_MEMORY: u8 = 1;

/// The virtual memory of the transaction log.
pub const LOG_MEMORY: u8 = 2;

/// Whether the row of `t` fits into stable memory.
pub open spec fn token_row_fits(t: TokenView) -> bool {
    row_len_fits(enc_token(t).len())
}

/// Whether the row of `t` fits into stable memory.
pub open spec fn transaction_row_fits(t: TransactionView) -> bool {
    row_len_fits(enc_transaction(t).len())
}

/// Whether the row of `token` fits into stable memory.
pub fn token_fits(token: &Token) -> (r: bool)
    ensures
        r == token_row_fits(token@),
{
    let row = encode_token(token);
    row.len() <= u32::MAX as usize
}

/// Whether the row of `transaction` fits into stable memory.
pub fn transaction_fits(transaction: &Transaction) -> (r: bool)
    ensures
        r == transaction_row_fits(transaction@),
{
    let row = encode_transaction(transaction);
    row.len() <= u32::MAX as usize
}

/// Whether every row of `rows` is the row of a token.
pub open spec fn hold_tokens(rows: Map<u128, Seq<u8>>) -> bool {
    forall|k: u128| #[trigger] rows.contains_key(k) ==> parse_token(rows[k]) is Some
}

/// The tokens that the rows of `rows` hold, each under the key of its row.
pub open spec fn tokens_in(rows: Map<u128, Seq<u8>>) -> Map<u128, TokenView> {
    Map::new(|k: u128| rows.contains_key(k), |k: u128| parse_token(rows[k])->0)
}

/// Whether `set` holds exactly the numbers 1 to `n`.
pub open spec fn counts_to(set: Set<u128>, n: nat) -> bool {
    forall|k: u128| #[trigger] set.contains(k) <==> 1 <= k <= n
}

/// Whether the rows of `rows` are the rows of transactions, under the keys
/// 1, 2, 3 and so on without a gap.
pub open spec fn hold_transactions(rows: Map<u128, Seq<u8>>) -> bool {
    &&& exists|n: nat| #[trigger] counts_to(rows.dom(), n)
    &&& forall|k: u128| #[trigger] rows.contains_key(k) ==> parse_transaction(rows[k]) is Some
}

/// The first `n` transactions that the rows of `rows` hold: the one at
/// position `i` is that of the row under the key `i + 1`.
pub open spec fn transactions_in(rows: Map<u128, Seq<u8>>, n: nat) -> Seq<TransactionView> {
    Seq::new(n, |i: int| parse_transaction(rows[(i + 1) as u128])->0)
}

/// The tokens of the ledger, by identifier.
pub struct TokenStore {
    rows: RowMap,
}

impl TokenStore {
    /// Every row is the row of a token.
    pub closed spec fn wf(&self) -> bool {
        &&& rows_of(self.rows).dom().finite()
        &&& hold_tokens(rows_of(self.rows))
    }

    /// The tokens that the rows hold.
    pub closed spec fn view(&self) -> Map<u128, TokenView> {
        tokens_in(rows_of(self.rows))
    }

    /// A well-formed store holds finitely many tokens.
    pub proof fn lemma_finite(&self)
        requires
            self.wf(),
        ensures
            self@.dom().finite(),
    {
        assert(self@.dom() =~= rows_of(self.rows).dom());
    }

    /// Makes a store of `rows`, if every row is the row of a token. The store
    /// then holds the tokens of these rows.
    pub(crate) fn open(rows: RowMap) -> (r: Option<TokenStore>)
        ensures
            r is Some <==> hold_tokens(rows_of(rows)),
            r matches Some(s) ==> s.wf() && s@ == tokens_in(rows_of(rows)),
    {
        let keys = row_keys(&rows);
        proof {
            assert forall|k: u128| rows_of(rows).dom().contains(k) <==> keys@.contains(k) by {}
            lemma_lists_is(keys@, rows_of(rows).dom());
        }
        let mut i: usize = 0;
        while i < keys.len()
            invariant
                i <= keys@.len(),
                forall|k: u128| rows_of(rows).contains_key(k) <==> keys@.contains(k),
                forall|j: int|
                    0 <= j < i ==> parse_token(rows_of(rows)[#[trigger] keys@[j]]) is Some,
            decreases keys@.len() - i,
        {
            assert(keys@.contains(keys@[i as int]));
            let held = match row_get(&rows, keys[i]) {
                Some(row) => decode_token(row.as_slice()).is_some(),
                None => false,
            };
            if !held {
                assert(rows_of(rows).contains_key(keys@[i as int]));
                return None;
            }
            i += 1;
        }
        proof {
            assert forall|k: u128| #[trigger] rows_of(rows).contains_key(k) implies parse_token(
                rows_of(rows)[k],
            ) is Some by {
                let j = choose|j: int| 0 <= j < keys@.len() && keys@[j] == k;
                assert(parse_token(rows_of(rows)[keys@[j]]) is Some);
            }
        }
        Some(TokenStore { rows })
    }

    /// The token under `id`, if the store has one.
    pub fn get(&self, id: u128) -> (r: Option<Token>)
        requires
            self.wf(),
        ensures
            r is Some == self@.contains_key(id),
            r matches Some(t) ==> t@ == self@[id],
    {
        match row_get(&self.rows, id) {
            Some(row) => {
                assert(rows_of(self.rows).contains_key(id));
                decode_token(row.as_slice())
            },
            None => None,
        }
    }

    /// Whether the store has a token under `id`.
    pub fn contains(&self, id: u128) -> (r: bool)
        requires
            self.wf(),
        ensures
            r == self@.contains_key(id),
    {
        row_get(&self.rows, id).is_some()
    }

    /// Stores `token` under its identifier.
    pub fn put(&mut self, token: &Token)
        requires
            old(self).wf(),
            token_row_fits(token@),
            old(self)@.contains_key(token.id) || old(self)@.dom().len() < u64::MAX,
        ensures
            final(self).wf(),
            final(self)@ == old(self)@.insert(token.id, token@),
    {
        let row = encode_token(token);
        proof {
            lemma_token_round_trip(token@);
            assert(old(self)@.dom() =~= rows_of(old(self).rows).dom());
        }
        row_insert(&mut self.rows, token.id, row);
        proof {
            assert forall|k: u128| #[trigger]
                rows_of(self.rows).contains_key(k) implies parse_token(rows_of(self.rows)[k])
                is Some by {
                if k != token.id {
                    assert(rows_of(old(self).rows).contains_key(k));
                }
            }
            assert(self@ =~= old(self)@.insert(token.id, token@));
        }
    }

    /// The identifiers of all tokens, in ascending order.
    pub fn ids(&self) -> (r: Vec<u128>)
        requires
            self.wf(),
        ensures
            r@ == crate::order::ascending_list(self@.dom()),
            lists(r@, self@.dom()),
            r@.len() == self@.dom().len(),
    {
        let r = row_keys(&self.rows);
        proof {
            assert forall|k: u128| self@.dom().contains(k) <==> r@.contains(k) by {
                assert(self@.contains_key(k) == rows_of(self.rows).contains_key(k));
            }
            lemma_lists_is(r@, self@.dom());
        }
        r
    }
}

/// The log of transactions. The transaction at position `i`, counted from
/// 0, has the identifier `i + 1`.
pub struct TxnLog {
    rows: RowMap,
    count: u64,
}

impl TxnLog {
    /// The rows are those of the transactions 1 to `count`.
    pub closed spec fn wf(&self) -> bool {
        &&& rows_of(self.rows).dom().finite()
        &&& rows_of(self.rows).dom().len() == self.count
        &&& forall|k: u128| #[trigger]
            rows_of(self.rows).contains_key(k) <==> 1 <= k <= self.count
        &&& forall|k: u128| #[trigger]
            rows_of(self.rows).contains_key(k) ==> parse_transaction(rows_of(self.rows)[k])
                is Some
    }

    /// The transactions, oldest first.
    pub closed spec fn view(&self) -> Seq<TransactionView> {
        transactions_in(rows_of(self.rows), self.count as nat)
    }

    /// Makes a log of `rows`, if they are the rows of transactions under the
    /// identifiers 1, 2, 3 and so on. The log then holds the transactions of
    /// these rows, in the order of their identifiers.
    pub(crate) fn open(rows: RowMap) -> (r: Option<TxnLog>)
        ensures
            r is Some <==> hold_transactions(rows_of(rows)),
            r matches Some(s) ==> s.wf() && s@ == transactions_in(
                rows_of(rows),
                rows_of(rows).dom().len(),
            ),
    {
        let keys = row_keys(&rows);
        proof {
            assert forall|k: u128| rows_of(rows).dom().contains(k) <==> keys@.contains(k) by {}
            lemma_lists_is(keys@, rows_of(rows).dom());
        }
        let count: u64 = keys.len() as u64;
        let mut i: usize = 0;
        while i < keys.len()
            invariant
                i <= keys@.len(),
                keys@.len() == count,
                lists(keys@, rows_of(rows).dom()),
                forall|j: int| 0 <= j < i ==> #[trigger] keys@[j] == j + 1,
                forall|j: int|
                    0 <= j < i ==> parse_transaction(rows_of(rows)[#[trigger] keys@[j]]) is Some,
            decreases keys@.len() - i,
        {
            assert(keys@.contains(keys@[i as int]));
            assert(rows_of(rows).dom().contains(keys@[i as int]));
            if keys[i] != (i as u128) + 1 {
                proof {
                    lemma_gap(keys@, rows_of(rows).dom(), i as int);
                }
                return None;
            }
            let held = match row_get(&rows, keys[i]) {
                Some(row) => decode_transaction(row.as_slice()).is_some(),
                None => false,
            };
            if !held {
                return None;
            }
            i += 1;
        }
        proof {
            assert forall|k: u128| #[trigger] rows_of(rows).contains_key(k) <==> 1 <= k
                <= count by {
                if rows_of(rows).dom().contains(k) {
                    let j = choose|j: int| 0 <= j < keys@.len() && keys@[j] == k;
                    assert(keys@[j] == j + 1);
                }
                if 1 <= k <= count {
                    assert(keys@[k - 1] == k);
                    assert(keys@.contains(k));
                }
            }
            assert forall|k: u128| #[trigger]
                rows_of(rows).contains_key(k) implies parse_transaction(
                rows_of(rows)[k],
            ) is Some by {
                assert(keys@[k - 1] == k);
            }
            assert(counts_to(rows_of(rows).dom(), count as nat));
        }
        Some(TxnLog { rows, count })
    }

    /// The number of transactions.
    pub fn len(&self) -> (r: u64)
        requires
            self.wf(),
        ensures
            r == self@.len(),
    {
        self.count
    }

    /// The transaction with identifier `id`, if there is one.
    pub fn get(&self, id: u128) -> (r: Option<Transaction>)
        requires
            self.wf(),
        ensures
            r is Some == (1 <= id <= self@.len()),
            r matches Some(t) ==> t@ == self@[id - 1],
    {
        match row_get(&self.rows, id) {
            Some(row) => {
                assert(rows_of(self.rows).contains_key(id));
                decode_transaction(row.as_slice())
            },
            None => None,
        }
    }

    /// Appends `transaction` and returns its identifier.
    pub fn append(&mut self, transaction: &Transaction) -> (id: u128)
        requires
            old(self).wf(),
            transaction_row_fits(transaction@),
            old(self)@.len() < u64::MAX,
        ensures
            final(self).wf(),
            final(self)@ == old(self)@.push(transaction@),
            id == old(self)@.len() + 1,
    {
        let row = encode_transaction(transaction);
        let next: u64 = self.count + 1;
        let id: u128 = next as u128;
        proof {
            lemma_transaction_round_trip(transaction@);
            assert(!rows_of(self.rows).contains_key(id));
        }
        row_insert(&mut self.rows, id, row);
        self.count = next;
        proof {
            let before = rows_of(old(self).rows);
            let after = rows_of(self.rows);
            assert(after.dom() =~= before.dom().insert(id));
            assert forall|k: u128| #[trigger] after.contains_key(k) implies parse_transaction(
                after[k],
            ) is Some by {
                if k != id {
                    assert(before.contains_key(k));
                }
            }
            assert forall|i: int| 0 <= i < self@.len() implies self@[i] == old(self)@.push(
                transaction@,
            )[i] by {
                if i < old(self)@.len() {
                    assert(before.contains_key((i + 1) as u128));
                }
            }
            assert(self@ =~= old(self)@.push(transaction@));
        }
        id
    }
}

/// Where the key at position `i` of an ascending list of keys is not
/// `i + 1`, while the keys before it are 1 to `i`, the keys are not the
/// numbers 1 to `n`, whatever `n` is.
proof fn lemma_gap(keys: Seq<u128>, set: Set<u128>, i: int)
    requires
        lists(keys, set),
        0 <= i < keys.len(),
        forall|j: int| 0 <= j < i ==> #[trigger] keys[j] == j + 1,
        keys[i] != i + 1,
    ensures
        !exists|n: nat| #[trigger] counts_to(set, n),
{
    if exists|n: nat| #[trigger] counts_to(set, n) {
        let n = choose|n: nat| #[trigger] counts_to(set, n);
        let key = keys[i];
        assert(keys.contains(key));
        assert(set.contains(key));
        assert(1 <= key <= n);
        // Every key before position `i` is smaller than `i + 1`, and the key at
        // `i` and all later ones are greater: `i + 1` is no key.
        if i > 0 {
            assert(keys[i - 1] == i);
            assert(keys[i - 1] < keys[i]);
        }
        assert(key > i + 1);
        let missing = (i + 1) as u128;
        assert(set.contains(missing));
        assert(keys.contains(missing));
        let j = choose|j: int| 0 <= j < keys.len() && keys[j] == missing;
        if j < i {
            assert(keys[j] == j + 1);
        } else if j > i {
            assert(keys[i] < keys[j]);
        }
    }
}

/// Makes the two stores of the ledger of two maps of rows: a store of tokens
/// of `tokens` and a log of `log`. There are such stores exactly when every
/// row of `tokens` is the row of a token and the rows of `log` are those of
/// transactions under the identifiers 1, 2, 3 and so on; the stores then hold
/// what these rows hold.
pub fn open_stores(tokens: RowMap, log: RowMap) -> (r: Option<(TokenStore, TxnLog)>)
    ensures
        r is Some <==> hold_tokens(rows_of(tokens)) && hold_transactions(rows_of(log)),
        r matches Some(stores) ==> stores.0.wf() && stores.1.wf() && stores.0@ == tokens_in(
            rows_of(tokens),
        ) && stores.1@ == transactions_in(rows_of(log), rows_of(log).dom().len()),
{
    let tokens = match TokenStore::open(tokens) {
        Some(store) => store,
        None => {
            return None;
        },
    };
    match TxnLog::open(log) {
        Some(log) => Some((tokens, log)),
        None => None,
    }
}

/// The two stores that stable memory holds, if its rows are those of tokens
/// and of transactions. Which rows stable memory holds is not known here:
/// [`open_stores`] says what becomes of each pair of maps.
pub fn stored_stores() -> (r: Option<(TokenStore, TxnLog)>)
    ensures
        r matches Some(stores) ==> stores.0.wf() && stores.1.wf(),
{
    let (tokens, log) = stored_row_maps(TOKEN_MEMORY, LOG_MEMORY);
    open_stores(tokens, log)
}

/// Two empty stores in stable memory.
pub fn fresh_stores() -> (r: (TokenStore, TxnLog))
    ensures
        r.0.wf(),
        r.1.wf(),
        r.0@ == (Map::<u128, TokenView>::empty()),
        r.1@ == (Seq::<TransactionView>::empty()),
{
    let (tokens, log) = fresh_row_maps(TOKEN_MEMORY, LOG_MEMORY);
    let tokens = TokenStore { rows: tokens };
    let log = TxnLog { rows: log, count: 0 };
    assert(tokens@ =~= Map::<u128, TokenView>::empty());
    assert(log@ =~= Seq::<TransactionView>::empty());
    (tokens, log)
}

} // verus!
