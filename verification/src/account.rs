//! Accounts: an identity together with a sub-identifier.
//!
//! An identity is the byte string of a principal. Two accounts are compared
//! only after normalization, which replaces an absent sub-identifier by the
//! all-zero default.

use crate::codec::{
    enc_bytes, enc_opt_fixed, lemma_parse_bytes, lemma_parse_opt_fixed, parse_bytes,
    parse_opt_fixed, put_bytes, put_opt_fixed, take_bytes, take_opt_fixed,
};
use vstd::prelude::*;

verus! {

/// The sub-identifier of an account.
pub type Subaccount = [u8; 32];

/// An identity with an optional sub-identifier.
#[derive(Debug)]
pub struct Account {
    pub owner: Vec<u8>,
    pub subaccount: Option<Subaccount>,
}

/// The mathematical value of an [`Account`].
pub struct AccountView {
    pub owner: Seq<u8>,
    pub subaccount: Option<Seq<u8>>,
}

impl View for Account {
    type V = AccountView;

    open spec fn view(&self) -> AccountView {
        AccountView {
            owner: self.owner@,
            subaccount: match self.subaccount {
                Some(s) => Some(s@),
                None => None,
            },
        }
    }
}

/// The bytes of the anonymous identity.
pub open spec fn anonymous_bytes() -> Seq<u8> {
    seq![4u8]
}

/// The all-zero sub-identifier.
pub open spec fn default_subaccount_bytes() -> Seq<u8> {
    Seq::new(32, |i: int| 0u8)
}

impl AccountView {
    /// The account with an absent sub-identifier replaced by the default.
    pub open spec fn normalized(self) -> AccountView {
        AccountView {
            owner: self.owner,
            subaccount: match self.subaccount {
                Some(s) => Some(s),
                None => Some(default_subaccount_bytes()),
            },
        }
    }

    /// Whether the account is normalized: its sub-identifier is present.
    pub open spec fn is_normalized(self) -> bool {
        self.subaccount is Some
    }

    /// Whether the sub-identifier, where present, has its 32 bytes.
    pub open spec fn well_formed(self) -> bool {
        self.subaccount is Some ==> self.subaccount->0.len() == 32
    }

    /// Whether two accounts are the same: they have the same identity and,
    /// once normalized, the same sub-identifier.
    pub open spec fn same(self, other: AccountView) -> bool {
        self.normalized() == other.normalized()
    }

    /// Whether the identity is the anonymous one.
    pub open spec fn is_anonymous(self) -> bool {
        self.owner == anonymous_bytes()
    }
}

/// `candid::Principal::anonymous`: the anonymous principal is the single
/// byte 4.
#[verifier::external_body]
fn anonymous_principal() -> (r: Vec<u8>)
    ensures
        r@ == anonymous_bytes(),
{
    candid::Principal::anonymous().as_slice().to_vec()
}

/// `icrc_ledger_types::icrc1::account::DEFAULT_SUBACCOUNT`: thirty-two zero
/// bytes.
#[verifier::external_body]
fn default_subaccount() -> (r: Subaccount)
    ensures
        r@ == default_subaccount_bytes(),
{
    *icrc_ledger_types::icrc1::account::DEFAULT_SUBACCOUNT
}

/// Whether two byte strings are equal.
pub fn bytes_eq(a: &[u8], b: &[u8]) -> (r: bool)
    ensures
        r == (a@ == b@),
{
    if a.len() != b.len() {
        return false;
    }
    let mut i: usize = 0;
    while i < a.len()
        invariant
            a@.len() == b@.len(),
            i <= a@.len(),
            forall|j: int| 0 <= j < i ==> a@[j] == b@[j],
        decreases a@.len() - i,
    {
        if a[i] != b[i] {
            return false;
        }
        i += 1;
    }
    assert(a@ =~= b@);
    true
}

/// A copy of a byte string.
pub fn bytes_clone(a: &[u8]) -> (r: Vec<u8>)
    ensures
        r@ == a@,
{
    let mut out: Vec<u8> = Vec::new();
    let mut i: usize = 0;
    while i < a.len()
        invariant
            i <= a@.len(),
            out@ == a@.subrange(0, i as int),
        decreases a@.len() - i,
    {
        out.push(a[i]);
        i += 1;
        assert(out@ =~= a@.subrange(0, i as int));
    }
    assert(out@ =~= a@);
    out
}

/// Whether `owner` is the anonymous identity.
pub fn is_anonymous(owner: &Vec<u8>) -> (r: bool)
    ensures
        r == (owner@ == anonymous_bytes()),
{
    let anonymous = anonymous_principal();
    bytes_eq(owner.as_slice(), anonymous.as_slice())
}

/// The account of `owner` with the default sub-identifier.
pub fn default_account_from_principal(owner: Vec<u8>) -> (r: Account)
    ensures
        r@ == (AccountView { owner: owner@, subaccount: Some(default_subaccount_bytes()) }),
{
    Account { owner, subaccount: Some(default_subaccount()) }
}

/// Normalizes an account: an absent sub-identifier becomes the default, a
/// present one is kept.
pub fn account_transformer(account: Account) -> (r: Account)
    ensures
        r@ == account@.normalized(),
{
    match account.subaccount {
        Some(subaccount) => Account { owner: account.owner, subaccount: Some(subaccount) },
        None => default_account_from_principal(account.owner),
    }
}

impl Account {
    /// Whether two accounts are the same: they have the same identity and,
    /// once normalized, the same sub-identifier.
    pub fn same(&self, other: &Account) -> (r: bool)
        ensures
            r == self@.same(other@),
    {
        if !bytes_eq(self.owner.as_slice(), other.owner.as_slice()) {
            return false;
        }
        let mine = match self.subaccount {
            Some(s) => s,
            None => default_subaccount(),
        };
        let theirs = match other.subaccount {
            Some(s) => s,
            None => default_subaccount(),
        };
        bytes_eq(mine.as_slice(), theirs.as_slice())
    }

    /// Whether the account is normalized: its sub-identifier is present.
    pub fn is_normalized(&self) -> (r: bool)
        ensures
            r == self@.is_normalized(),
    {
        self.subaccount.is_some()
    }

    /// Whether the identity of the account is the anonymous one.
    pub fn is_anonymous(&self) -> (r: bool)
        ensures
            r == self@.is_anonymous(),
    {
        is_anonymous(&self.owner)
    }
}

// ----- the byte format of an account ---------------------------------------

/// The bytes of an account: the identity as a byte string, then the optional
/// sub-identifier.
pub open spec fn enc_account(a: AccountView) -> Seq<u8> {
    enc_bytes(a.owner) + enc_opt_fixed(a.subaccount)
}

/// Splits an account from the front of `s`.
pub open spec fn parse_account(s: Seq<u8>) -> Option<(AccountView, Seq<u8>)> {
    match parse_bytes(s) {
        Some((owner, rest)) => match parse_opt_fixed(rest) {
            Some((subaccount, rest2)) => Some((AccountView { owner, subaccount }, rest2)),
            None => None,
        },
        None => None,
    }
}

impl AccountView {
    /// Whether the account can be written as bytes and read back.
    pub open spec fn encodable(self) -> bool {
        self.well_formed() && self.owner.len() <= u64::MAX
    }
}

/// Parsing undoes encoding.
pub proof fn lemma_parse_account(a: AccountView, rest: Seq<u8>)
    requires
        a.encodable(),
    ensures
        parse_account(enc_account(a) + rest) == Some((a, rest)),
{
    assert(enc_account(a) + rest =~= enc_bytes(a.owner) + (enc_opt_fixed(a.subaccount) + rest));
    lemma_parse_bytes(a.owner, enc_opt_fixed(a.subaccount) + rest);
    lemma_parse_opt_fixed(a.subaccount, rest);
}

/// Appends the bytes of `a` to `out`.
pub fn put_account(out: &mut Vec<u8>, a: &Account)
    ensures
        final(out)@ == old(out)@ + enc_account(a@),
        a@.encodable(),
{
    put_bytes(out, a.owner.as_slice());
    put_opt_fixed(out, &a.subaccount);
    assert(out@ =~= old(out)@ + enc_account(a@));
    assert(a.owner@.len() == a.owner.len());
}

/// Reads an account at `pos`.
pub fn take_account(buf: &[u8], pos: usize) -> (r: Option<(Account, usize)>)
    requires
        pos <= buf@.len(),
    ensures
        match parse_account(buf@.skip(pos as int)) {
            Some((v, rest)) => r matches Some((got, next)) && got@ == v && pos <= next <= buf@.len()
                && rest == buf@.skip(next as int),
            None => r is None,
        },
{
    let (owner, pos1) = match take_bytes(buf, pos) {
        Some(x) => x,
        None => {
            return None;
        },
    };
    match take_opt_fixed(buf, pos1) {
        Some((subaccount, pos2)) => Some((Account { owner, subaccount }, pos2)),
        None => None,
    }
}

impl Clone for Account {
    fn clone(&self) -> (r: Account)
        ensures
            r@ == self@,
    {
        Account { owner: bytes_clone(self.owner.as_slice()), subaccount: self.subaccount }
    }
}

} // verus!
