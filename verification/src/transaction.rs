//! Transactions: the record of each committed operation.

use crate::account::{
    enc_account, lemma_parse_account, parse_account, put_account, take_account, Account,
    AccountView,
};
use crate::codec::{
    enc_ids, enc_opt_bytes, enc_u64, lemma_parse_ids, lemma_parse_opt_bytes, lemma_parse_u64,
    lemma_parse_u8, parse_ids, parse_opt_bytes, parse_u64, parse_u8, put_ids, put_opt_bytes,
    put_u64, put_u8, take_ids, take_opt_bytes, take_u64, take_u8,
};
use crate::types::opt_bytes_view;
use vstd::prelude::*;

verus! {

/// What an operation did, and for whom.
#[derive(Debug)]
pub enum TransactionType {
    Transfer { from: Account, spender: Account, to: Account },
    Approval { spender: Account },
    Mint { to: Account },
    Burn { from: Account, to: Account },
}

/// The mathematical value of a [`TransactionType`].
pub enum TransactionTypeView {
    Transfer { from: AccountView, spender: AccountView, to: AccountView },
    Approval { spender: AccountView },
    Mint { to: AccountView },
    Burn { from: AccountView, to: AccountView },
}

impl View for TransactionType {
    type V = TransactionTypeView;

    open spec fn view(&self) -> TransactionTypeView {
        match *self {
            TransactionType::Transfer { from, spender, to } => TransactionTypeView::Transfer {
                from: from@,
                spender: spender@,
                to: to@,
            },
            TransactionType::Approval { spender } => TransactionTypeView::Approval {
                spender: spender@,
            },
            TransactionType::Mint { to } => TransactionTypeView::Mint { to: to@ },
            TransactionType::Burn { from, to } => TransactionTypeView::Burn {
                from: from@,
                to: to@,
            },
        }
    }
}

impl TransactionTypeView {
    /// Whether every account in it can be written as bytes and read back.
    pub open spec fn encodable(self) -> bool {
        match self {
            TransactionTypeView::Transfer { from, spender, to } => from.encodable()
                && spender.encodable() && to.encodable(),
            TransactionTypeView::Approval { spender } => spender.encodable(),
            TransactionTypeView::Mint { to } => to.encodable(),
            TransactionTypeView::Burn { from, to } => from.encodable() && to.encodable(),
        }
    }
}

/// A committed operation: the tokens it touched, what it did, when it was
/// committed, and the memo of the request.
#[derive(Debug)]
pub struct Transaction {
    pub token_id: Vec<u128>,
    pub txn_type: TransactionType,
    pub created_at: u64,
    pub memo: Option<Vec<u8>>,
}

/// The mathematical value of a [`Transaction`].
pub struct TransactionView {
    pub token_id: Seq<u128>,
    pub txn_type: TransactionTypeView,
    pub created_at: u64,
    pub memo: Option<Seq<u8>>,
}

impl View for Transaction {
    type V = TransactionView;

    open spec fn view(&self) -> TransactionView {
        TransactionView {
            token_id: self.token_id@,
            txn_type: self.txn_type@,
            created_at: self.created_at,
            memo: opt_bytes_view(self.memo),
        }
    }
}

impl Transaction {
    /// A transaction of the kind `txn_type` on the tokens `token_id`,
    /// committed at `created_at`.
    pub fn new(
        token_id: Vec<u128>,
        txn_type: TransactionType,
        created_at: u64,
        memo: Option<Vec<u8>>,
    ) -> (r: Transaction)
        ensures
            r@ == (TransactionView {
                token_id: token_id@,
                txn_type: txn_type@,
                created_at,
                memo: opt_bytes_view(memo),
            }),
    {
        Transaction { token_id, txn_type, created_at, memo }
    }

    /// The name of the operation that the transaction records.
    pub fn op(&self) -> (r: String)
        ensures
            r@ == op_name(self@.txn_type),
    {
        match &self.txn_type {
            TransactionType::Transfer { .. } => "7xfer".to_string(),
            TransactionType::Approval { .. } => "7approve".to_string(),
            TransactionType::Mint { .. } => "7mint".to_string(),
            TransactionType::Burn { .. } => "7burn".to_string(),
        }
    }
}

/// The name of each kind of operation.
pub open spec fn op_name(t: TransactionTypeView) -> Seq<char> {
    match t {
        TransactionTypeView::Transfer { .. } => "7xfer"@,
        TransactionTypeView::Approval { .. } => "7approve"@,
        TransactionTypeView::Mint { .. } => "7mint"@,
        TransactionTypeView::Burn { .. } => "7burn"@,
    }
}

impl TransactionView {
    /// Whether the transaction can be written as a row and read back.
    pub open spec fn encodable(self) -> bool {
        &&& self.txn_type.encodable()
        &&& self.token_id.len() <= u64::MAX
        &&& self.memo matches Some(m) ==> m.len() <= u64::MAX
    }
}

/// What the search for an earlier, identical transfer found.
#[derive(Clone, Copy, Debug, PartialEq, Eq, Structural)]
pub enum TransactionDeduplicationType {
    NotFound,
    DuplicateOf { index: u128 },
}

// ----- the search for a duplicate -----------------------------------------

/// A transfer request as far as deduplication looks at it.
pub struct TransferRequest {
    pub token_ids: Seq<u128>,
    pub from: AccountView,
    pub spender: AccountView,
    pub to: AccountView,
    pub memo: Option<Seq<u8>>,
    pub created_at_time: u64,
}

impl TransactionView {
    /// Whether the transaction is a transfer with exactly the fields of
    /// `request`.
    pub open spec fn repeats(self, request: TransferRequest) -> bool {
        &&& match self.txn_type {
            TransactionTypeView::Transfer { from, spender, to } => from.same(request.from)
                && spender.same(request.spender) && to.same(request.to),
            _ => false,
        }
        &&& self.token_id == request.token_ids
        &&& self.memo == request.memo
        &&& self.created_at == request.created_at_time
    }
}

/// The oldest time that deduplication still looks at.
pub open spec fn dedup_horizon(now: u64, tx_window: u64, permitted_drift: u64) -> int {
    now - tx_window - permitted_drift
}

/// The backward scan over the first `n` transactions of `log`: from the
/// newest to the oldest, it stops without a result at the first transaction
/// older than `horizon`, and with a result at the first that repeats
/// `request`. The result is the identifier of that transaction, which is its
/// position counted from 1.
pub open spec fn scan_for_duplicate(
    log: Seq<TransactionView>,
    horizon: int,
    request: TransferRequest,
    n: nat,
) -> Option<nat>
    decreases n,
{
    if n == 0 || n > log.len() {
        None
    } else if log[n - 1].created_at < horizon {
        None
    } else if log[n - 1].repeats(request) {
        Some(n)
    } else {
        scan_for_duplicate(log, horizon, request, (n - 1) as nat)
    }
}

/// Whether the transaction with identifier `id` is the duplicate of
/// `request`: it repeats the request, no newer transaction does, and neither
/// it nor any newer transaction is older than `horizon`.
pub open spec fn is_duplicate(
    log: Seq<TransactionView>,
    horizon: int,
    request: TransferRequest,
    id: nat,
) -> bool {
    &&& 1 <= id <= log.len()
    &&& log[id - 1].repeats(request)
    &&& forall|j: int| id - 1 <= j < log.len() ==> (#[trigger] log[j]).created_at >= horizon
    &&& forall|j: int| id <= j < log.len() ==> !(#[trigger] log[j]).repeats(request)
}

/// The scan finds the duplicate, and only that.
pub proof fn lemma_scan_finds_duplicate(
    log: Seq<TransactionView>,
    horizon: int,
    request: TransferRequest,
    id: nat,
)
    ensures
        scan_for_duplicate(log, horizon, request, log.len()) == Some(id) <==> is_duplicate(
            log,
            horizon,
            request,
            id,
        ),
{
    lemma_scan_prefix(log, horizon, request, log.len(), id);
}

/// The scan from position `n` finds `id` exactly when `id` is the duplicate
/// among the first `n` transactions.
proof fn lemma_scan_prefix(
    log: Seq<TransactionView>,
    horizon: int,
    request: TransferRequest,
    n: nat,
    id: nat,
)
    requires
        n <= log.len(),
    ensures
        scan_for_duplicate(log, horizon, request, n) == Some(id) <==> {
            &&& 1 <= id <= n
            &&& log[id - 1].repeats(request)
            &&& forall|j: int| id - 1 <= j < n ==> (#[trigger] log[j]).created_at >= horizon
            &&& forall|j: int| id <= j < n ==> !(#[trigger] log[j]).repeats(request)
        },
    decreases n,
{
    if n == 0 {
    } else if log[n - 1].created_at < horizon {
        if 1 <= id <= n {
            assert(log[n - 1].created_at < horizon);
        }
    } else if log[n - 1].repeats(request) {
        if 1 <= id < n {
            assert(log[n - 1].repeats(request));
        }
    } else {
        lemma_scan_prefix(log, horizon, request, (n - 1) as nat, id);
    }
}

// ----- the row of a transaction -------------------------------------------

/// The bytes of the kind of a transaction.
pub open spec fn enc_txn_type(t: TransactionTypeView) -> Seq<u8> {
    match t {
        TransactionTypeView::Transfer { from, spender, to } => seq![0u8] + (enc_account(from) + (
        enc_account(spender) + enc_account(to))),
        TransactionTypeView::Approval { spender } => seq![1u8] + enc_account(spender),
        TransactionTypeView::Mint { to } => seq![2u8] + enc_account(to),
        TransactionTypeView::Burn { from, to } => seq![3u8] + (enc_account(from) + enc_account(to)),
    }
}

/// Splits the kind of a transaction from the front of `s`.
#[verifier::opaque]
pub open spec fn parse_txn_type(s: Seq<u8>) -> Option<(TransactionTypeView, Seq<u8>)> {
    match parse_u8(s) {
        Some((tag, r0)) => if tag == 0 {
            match parse_account(r0) {
                Some((from, r1)) => match parse_account(r1) {
                    Some((spender, r2)) => match parse_account(r2) {
                        Some((to, r3)) => Some(
                            (TransactionTypeView::Transfer { from, spender, to }, r3),
                        ),
                        None => None,
                    },
                    None => None,
                },
                None => None,
            }
        } else if tag == 1 {
            match parse_account(r0) {
                Some((spender, r1)) => Some((TransactionTypeView::Approval { spender }, r1)),
                None => None,
            }
        } else if tag == 2 {
            match parse_account(r0) {
                Some((to, r1)) => Some((TransactionTypeView::Mint { to }, r1)),
                None => None,
            }
        } else if tag == 3 {
            match parse_account(r0) {
                Some((from, r1)) => match parse_account(r1) {
                    Some((to, r2)) => Some((TransactionTypeView::Burn { from, to }, r2)),
                    None => None,
                },
                None => None,
            }
        } else {
            None
        },
        None => None,
    }
}

/// Parsing undoes the encoding of the kind of a transaction.
pub proof fn lemma_parse_txn_type(t: TransactionTypeView, rest: Seq<u8>)
    requires
        t.encodable(),
    ensures
        parse_txn_type(enc_txn_type(t) + rest) == Some((t, rest)),
{
    reveal(parse_txn_type);
    match t {
        TransactionTypeView::Transfer { from, spender, to } => {
            let e2 = enc_account(to) + rest;
            let e1 = enc_account(spender) + e2;
            let e0 = enc_account(from) + e1;
            assert(enc_txn_type(t) + rest =~= seq![0u8] + e0);
            lemma_parse_u8(0u8, e0);
            lemma_parse_account(from, e1);
            lemma_parse_account(spender, e2);
            lemma_parse_account(to, rest);
        },
        TransactionTypeView::Approval { spender } => {
            let e0 = enc_account(spender) + rest;
            assert(enc_txn_type(t) + rest =~= seq![1u8] + e0);
            lemma_parse_u8(1u8, e0);
            lemma_parse_account(spender, rest);
        },
        TransactionTypeView::Mint { to } => {
            let e0 = enc_account(to) + rest;
            assert(enc_txn_type(t) + rest =~= seq![2u8] + e0);
            lemma_parse_u8(2u8, e0);
            lemma_parse_account(to, rest);
        },
        TransactionTypeView::Burn { from, to } => {
            let e1 = enc_account(to) + rest;
            let e0 = enc_account(from) + e1;
            assert(enc_txn_type(t) + rest =~= seq![3u8] + e0);
            lemma_parse_u8(3u8, e0);
            lemma_parse_account(from, e1);
            lemma_parse_account(to, rest);
        },
    }
}

/// The row of a transaction: time, kind, tokens, memo.
pub open spec fn enc_transaction(t: TransactionView) -> Seq<u8> {
    enc_u64(t.created_at) + (enc_txn_type(t.txn_type) + (enc_ids(t.token_id) + enc_opt_bytes(
        t.memo,
    )))
}

/// The transaction that a row holds, if the row is that of a transaction.
pub open spec fn parse_transaction(s: Seq<u8>) -> Option<TransactionView> {
    match parse_u64(s) {
        Some((created_at, r1)) => match parse_txn_type(r1) {
            Some((txn_type, r2)) => match parse_ids(r2) {
                Some((token_id, r3)) => match parse_opt_bytes(r3) {
                    Some((memo, r4)) => if r4.len() == 0 {
                        Some(TransactionView { token_id, txn_type, created_at, memo })
                    } else {
                        None
                    },
                    None => None,
                },
                None => None,
            },
            None => None,
        },
        None => None,
    }
}

/// Reading a row gives back the transaction that was written.
pub proof fn lemma_transaction_round_trip(t: TransactionView)
    requires
        t.encodable(),
    ensures
        parse_transaction(enc_transaction(t)) == Some(t),
{
    let e3 = enc_opt_bytes(t.memo);
    let e2 = enc_ids(t.token_id) + e3;
    let e1 = enc_txn_type(t.txn_type) + e2;
    lemma_parse_u64(t.created_at, e1);
    lemma_parse_txn_type(t.txn_type, e2);
    lemma_parse_ids(t.token_id, e3);
    assert(e3 =~= e3 + Seq::<u8>::empty());
    lemma_parse_opt_bytes(t.memo, Seq::<u8>::empty());
}

/// The length of a row does not depend on the time of the transaction.
pub proof fn lemma_transaction_row_len(t: TransactionView, time: u64)
    ensures
        enc_transaction(TransactionView { created_at: time, ..t }).len() == enc_transaction(
            t,
        ).len(),
{
    crate::codec::lemma_enc_u64_len(time);
    crate::codec::lemma_enc_u64_len(t.created_at);
}

/// Appends the bytes of `t` to `out`.
fn put_txn_type(out: &mut Vec<u8>, t: &TransactionType)
    ensures
        final(out)@ == old(out)@ + enc_txn_type(t@),
        t@.encodable(),
{
    match t {
        TransactionType::Transfer { from, spender, to } => {
            put_u8(out, 0u8);
            put_account(out, from);
            put_account(out, spender);
            put_account(out, to);
            assert(out@ =~= old(out)@ + enc_txn_type(t@));
        },
        TransactionType::Approval { spender } => {
            put_u8(out, 1u8);
            put_account(out, spender);
            assert(out@ =~= old(out)@ + enc_txn_type(t@));
        },
        TransactionType::Mint { to } => {
            put_u8(out, 2u8);
            put_account(out, to);
            assert(out@ =~= old(out)@ + enc_txn_type(t@));
        },
        TransactionType::Burn { from, to } => {
            put_u8(out, 3u8);
            put_account(out, from);
            put_account(out, to);
            assert(out@ =~= old(out)@ + enc_txn_type(t@));
        },
    }
}

/// Reads the kind of a transaction at `pos`.
fn take_txn_type(buf: &[u8], pos: usize) -> (r: Option<(TransactionType, usize)>)
    requires
        pos <= buf@.len(),
    ensures
        match parse_txn_type(buf@.skip(pos as int)) {
            Some((v, rest)) => r matches Some((got, next)) && got@ == v && pos <= next <= buf@.len()
                && rest == buf@.skip(next as int),
            None => r is None,
        },
{
    reveal(parse_txn_type);
    let (tag, pos0) = match take_u8(buf, pos) {
        Some(x) => x,
        None => {
            return None;
        },
    };
    if tag == 0 {
        let (from, pos1) = match take_account(buf, pos0) {
            Some(x) => x,
            None => {
                return None;
            },
        };
        let (spender, pos2) = match take_account(buf, pos1) {
            Some(x) => x,
            None => {
                return None;
            },
        };
        match take_account(buf, pos2) {
            Some((to, pos3)) => Some((TransactionType::Transfer { from, spender, to }, pos3)),
            None => None,
        }
    } else if tag == 1 {
        match take_account(buf, pos0) {
            Some((spender, pos1)) => Some((TransactionType::Approval { spender }, pos1)),
            None => None,
        }
    } else if tag == 2 {
        match take_account(buf, pos0) {
            Some((to, pos1)) => Some((TransactionType::Mint { to }, pos1)),
            None => None,
        }
    } else if tag == 3 {
        let (from, pos1) = match take_account(buf, pos0) {
            Some(x) => x,
            None => {
                return None;
            },
        };
        match take_account(buf, pos1) {
            Some((to, pos2)) => Some((TransactionType::Burn { from, to }, pos2)),
            None => None,
        }
    } else {
        None
    }
}

/// The row of `t`.
pub fn encode_transaction(t: &Transaction) -> (r: Vec<u8>)
    ensures
        r@ == enc_transaction(t@),
        t@.encodable(),
{
    let mut out: Vec<u8> = Vec::new();
    put_u64(&mut out, t.created_at);
    put_txn_type(&mut out, &t.txn_type);
    put_ids(&mut out, &t.token_id);
    put_opt_bytes(&mut out, &t.memo);
    assert(out@ =~= enc_transaction(t@));
    assert(t.token_id@.len() == t.token_id.len());
    match &t.memo {
        Some(m) => {
            assert(m@.len() == m.len());
        },
        None => {},
    }
    out
}

/// The transaction that `row` holds, if it is the row of a transaction.
pub fn decode_transaction(row: &[u8]) -> (r: Option<Transaction>)
    ensures
        match parse_transaction(row@) {
            Some(v) => r matches Some(t) && t@ == v,
            None => r is None,
        },
{
    assert(row@.skip(0) =~= row@);
    let (created_at, pos1) = match take_u64(row, 0) {
        Some(x) => x,
        None => {
            return None;
        },
    };
    let (txn_type, pos2) = match take_txn_type(row, pos1) {
        Some(x) => x,
        None => {
            return None;
        },
    };
    let (token_id, pos3) = match take_ids(row, pos2) {
        Some(x) => x,
        None => {
            return None;
        },
    };
    let (memo, pos4) = match take_opt_bytes(row, pos3) {
        Some(x) => x,
        None => {
            return None;
        },
    };
    if pos4 != row.len() {
        return None;
    }
    Some(Transaction { token_id, txn_type, created_at, memo })
}

} // verus!
