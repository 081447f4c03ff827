//! Tokens and the approvals on them.

use crate::account::{
    enc_account, lemma_parse_account, parse_account, put_account, take_account, Account,
    AccountView,
};
use crate::codec::{
    enc_opt_text, enc_opt_u64, enc_text, enc_u128, enc_u64, lemma_parse_opt_text,
    lemma_parse_opt_u64, lemma_parse_text, lemma_parse_u128, lemma_parse_u64, parse_opt_text,
    parse_opt_u64, parse_text, parse_u128, parse_u64, put_opt_text, put_opt_u64, put_text, put_u128,
    put_u64, take_opt_text, take_opt_u64, take_text, take_u128, take_u64,
};
use crate::types::{opt_text_view, ApprovalArgs, MetadataValue, MetadataValueView};
use vstd::prelude::*;
use vstd::utf8::encode_utf8;

verus! {

/// The right of `account` to transfer a token, until `expires_at` where that
/// is present.
#[derive(Debug)]
pub struct Approval {
    pub expires_at: Option<u64>,
    pub account: Account,
}

/// The mathematical value of an [`Approval`].
pub struct ApprovalView {
    pub expires_at: Option<u64>,
    pub account: AccountView,
}

impl View for Approval {
    type V = ApprovalView;

    open spec fn view(&self) -> ApprovalView {
        ApprovalView { expires_at: self.expires_at, account: self.account@ }
    }
}

impl ApprovalView {
    /// An approval is valid while its expiry is absent or strictly in the
    /// future.
    pub open spec fn valid_at(self, now: u64) -> bool {
        match self.expires_at {
            None => true,
            Some(t) => t > now,
        }
    }
}

impl Clone for Approval {
    fn clone(&self) -> (r: Approval)
        ensures
            r@ == self@,
    {
        Approval { expires_at: self.expires_at, account: self.account.clone() }
    }
}

/// What the approvals of a token say of an account.
#[derive(Clone, Copy, Debug, PartialEq, Eq, Structural)]
pub enum ApprovalResult {
    /// The account holds a valid approval.
    Approved,
    /// The account holds an approval, and none that is valid.
    Expired,
    /// The account holds no approval.
    NotApproved,
}

/// A token: its identifier, its owner, its display data and the approvals
/// that its owner gave.
#[derive(Debug)]
pub struct Token {
    pub owner: Account,
    pub id: u128,
    pub logo: Option<String>,
    pub description: Option<String>,
    pub name: String,
    pub approvals: Vec<Approval>,
}

/// The mathematical value of a [`Token`].
pub struct TokenView {
    pub owner: AccountView,
    pub id: u128,
    pub logo: Option<Seq<char>>,
    pub description: Option<Seq<char>>,
    pub name: Seq<char>,
    pub approvals: Seq<ApprovalView>,
}

/// The views of a list of approvals.
pub open spec fn approvals_view(approvals: Seq<Approval>) -> Seq<ApprovalView> {
    Seq::new(approvals.len(), |i: int| approvals[i]@)
}

impl View for Token {
    type V = TokenView;

    open spec fn view(&self) -> TokenView {
        TokenView {
            owner: self.owner@,
            id: self.id,
            logo: opt_text_view(self.logo),
            description: opt_text_view(self.description),
            name: self.name@,
            approvals: approvals_view(self.approvals@),
        }
    }
}

impl TokenView {
    /// Whether `account` holds an approval on the token.
    pub open spec fn has_approval(self, account: AccountView) -> bool {
        exists|i: int|
            0 <= i < self.approvals.len() && (#[trigger] self.approvals[i]).account.same(account)
    }

    /// Whether `account` holds an approval on the token that is valid at
    /// `now`.
    pub open spec fn has_valid_approval(self, account: AccountView, now: u64) -> bool {
        exists|i: int|
            0 <= i < self.approvals.len() && (#[trigger] self.approvals[i]).account.same(account)
                && self.approvals[i].valid_at(now)
    }

    /// What the approvals say of `account` at `now`.
    pub open spec fn approval_status(self, account: AccountView, now: u64) -> ApprovalResult {
        if self.has_valid_approval(account, now) {
            ApprovalResult::Approved
        } else if self.has_approval(account) {
            ApprovalResult::Expired
        } else {
            ApprovalResult::NotApproved
        }
    }

    /// Whether `caller` may transfer the token at `now`: as its owner, or by
    /// a valid approval.
    pub open spec fn is_authorized(self, caller: AccountView, now: u64) -> bool {
        caller.same(self.owner) || self.has_valid_approval(caller, now)
    }

    /// The token after its owner approved `spender` until `expires_at`: an
    /// approval that `spender` held is replaced, else the new one is added at
    /// the end.
    pub open spec fn approved(self, spender: AccountView, expires_at: Option<u64>) -> TokenView {
        let fresh = ApprovalView { expires_at, account: spender };
        TokenView {
            approvals: if self.has_approval(spender) {
                Seq::new(
                    self.approvals.len(),
                    |i: int|
                        if self.approvals[i].account.same(spender) {
                            fresh
                        } else {
                            self.approvals[i]
                        },
                )
            } else {
                self.approvals.push(fresh)
            },
            ..self
        }
    }

    /// The token after a transfer to `to`: a new owner and no approvals.
    pub open spec fn transferred(self, to: AccountView) -> TokenView {
        TokenView { owner: to, approvals: Seq::empty(), ..self }
    }

    /// No account holds two approvals on the token.
    pub open spec fn distinct_spenders(self) -> bool {
        forall|i: int, j: int|
            0 <= i < j < self.approvals.len() ==> !(#[trigger] self.approvals[i]).account.same(
                (#[trigger] self.approvals[j]).account,
            )
    }

    /// Whether the token is kept as the ledger keeps its tokens: every
    /// account in it is normalized, and no account holds two approvals.
    pub open spec fn sound(self) -> bool {
        &&& self.owner.is_normalized()
        &&& self.distinct_spenders()
        &&& forall|i: int|
            0 <= i < self.approvals.len() ==> (#[trigger] self.approvals[i]).account.is_normalized()
    }

    /// Whether the token can be written as a row and read back.
    pub open spec fn encodable(self) -> bool {
        &&& self.owner.encodable()
        &&& encode_utf8(self.name).len() <= u64::MAX
        &&& self.logo matches Some(t) ==> encode_utf8(t).len() <= u64::MAX
        &&& self.description matches Some(t) ==> encode_utf8(t).len() <= u64::MAX
        &&& self.approvals.len() <= u64::MAX
        &&& forall|i: int|
            0 <= i < self.approvals.len() ==> (#[trigger] self.approvals[i]).account.encodable()
    }
}

/// Approving keeps the spenders distinct.
pub proof fn lemma_approved_distinct(t: TokenView, spender: AccountView, expires_at: Option<u64>)
    requires
        t.distinct_spenders(),
    ensures
        t.approved(spender, expires_at).distinct_spenders(),
        t.approved(spender, expires_at).has_approval(spender),
{
    let r = t.approved(spender, expires_at);
    if t.has_approval(spender) {
        let k = choose|k: int|
            0 <= k < t.approvals.len() && (#[trigger] t.approvals[k]).account.same(spender);
        assert(r.approvals[k].account.same(spender));
        assert forall|i: int, j: int| 0 <= i < j < r.approvals.len() implies !(
        #[trigger] r.approvals[i]).account.same((#[trigger] r.approvals[j]).account) by {
            assert(r.approvals[i].account.same(t.approvals[i].account));
            assert(r.approvals[j].account.same(t.approvals[j].account));
        }
    } else {
        let n = t.approvals.len() as int;
        assert(r.approvals[n].account == spender);
        assert forall|i: int, j: int| 0 <= i < j < r.approvals.len() implies !(
        #[trigger] r.approvals[i]).account.same((#[trigger] r.approvals[j]).account) by {
            if j < n {
                assert(r.approvals[i] == t.approvals[i]);
                assert(r.approvals[j] == t.approvals[j]);
            } else {
                assert(r.approvals[i] == t.approvals[i]);
            }
        }
    }
}

/// Approving a normalized spender keeps a token sound.
pub proof fn lemma_approved_sound(t: TokenView, spender: AccountView, expires_at: Option<u64>)
    requires
        t.sound(),
        spender.is_normalized(),
    ensures
        t.approved(spender, expires_at).sound(),
{
    lemma_approved_distinct(t, spender, expires_at);
}

/// Approving the same spender again, until the same time, changes nothing.
pub proof fn lemma_approved_twice(t: TokenView, spender: AccountView, expires_at: Option<u64>)
    ensures
        t.approved(spender, expires_at).approved(spender, expires_at) == t.approved(
            spender,
            expires_at,
        ),
{
    let r = t.approved(spender, expires_at);
    let rr = r.approved(spender, expires_at);
    if t.has_approval(spender) {
        let k = choose|k: int|
            0 <= k < t.approvals.len() && (#[trigger] t.approvals[k]).account.same(spender);
        assert(r.approvals[k].account.same(spender));
    } else {
        assert(r.approvals[t.approvals.len() as int].account.same(spender));
    }
    assert(r.has_approval(spender));
    assert(rr.approvals =~= r.approvals);
}

/// The approvals of a token after its owner approved `spender` until
/// `expires_at`.
fn approved_list(approvals: &Vec<Approval>, spender: &Account, expires_at: Option<u64>) -> (r: Vec<
    Approval,
>)
    ensures
        forall|t: TokenView|
            t.approvals == approvals_view(approvals@) ==> approvals_view(r@) == (
            #[trigger] t.approved(spender@, expires_at)).approvals,
{
    let ghost list = approvals_view(approvals@);
    let ghost fresh = ApprovalView { expires_at, account: spender@ };
    let mut out: Vec<Approval> = Vec::new();
    let mut found = false;
    let mut i: usize = 0;
    while i < approvals.len()
        invariant
            i <= approvals@.len(),
            out@.len() == i,
            list == approvals_view(approvals@),
            fresh == (ApprovalView { expires_at, account: spender@ }),
            found == (exists|k: int| 0 <= k < i && (#[trigger] list[k]).account.same(spender@)),
            forall|k: int|
                0 <= k < i ==> (#[trigger] out@[k])@ == if list[k].account.same(spender@) {
                    fresh
                } else {
                    list[k]
                },
        decreases approvals@.len() - i,
    {
        let current = &approvals[i];
        assert(list[i as int] == current@);
        if current.account.same(spender) {
            out.push(Approval { expires_at, account: spender.clone() });
            found = true;
        } else {
            out.push(current.clone());
        }
        i += 1;
    }
    if !found {
        out.push(Approval { expires_at, account: spender.clone() });
    }
    proof {
        assert forall|t: TokenView| t.approvals == list implies approvals_view(out@) == (
        #[trigger] t.approved(spender@, expires_at)).approvals by {
            let want = t.approved(spender@, expires_at).approvals;
            if found {
                assert(t.has_approval(spender@));
                assert(approvals_view(out@) =~= want);
            } else {
                assert(!t.has_approval(spender@));
                assert(approvals_view(out@) =~= want);
            }
        }
    }
    out
}

impl Token {
    /// A token of `owner` without approvals.
    pub fn new(
        id: u128,
        owner: Account,
        name: String,
        logo: Option<String>,
        description: Option<String>,
    ) -> (r: Token)
        ensures
            r@ == (TokenView {
                owner: owner@,
                id,
                logo: opt_text_view(logo),
                description: opt_text_view(description),
                name: name@,
                approvals: Seq::empty(),
            }),
    {
        let r = Token { owner, id, logo, description, name, approvals: Vec::new() };
        assert(r@.approvals =~= Seq::empty());
        r
    }

    /// What the approvals of the token say of `account` at `current_time`.
    pub fn approval_check(&self, account: &Account, current_time: u64) -> (r: ApprovalResult)
        ensures
            r == self@.approval_status(account@, current_time),
    {
        let mut found = false;
        let mut i: usize = 0;
        while i < self.approvals.len()
            invariant
                i <= self.approvals@.len(),
                found == (exists|k: int|
                    0 <= k < i && (#[trigger] self@.approvals[k]).account.same(account@)),
                forall|k: int|
                    0 <= k < i && (#[trigger] self@.approvals[k]).account.same(account@)
                        ==> !self@.approvals[k].valid_at(current_time),
            decreases self.approvals@.len() - i,
        {
            let approval = &self.approvals[i];
            assert(self@.approvals[i as int] == approval@);
            if approval.account.same(account) {
                let valid = match approval.expires_at {
                    None => true,
                    Some(t) => t > current_time,
                };
                if valid {
                    return ApprovalResult::Approved;
                }
                found = true;
            }
            i += 1;
        }
        if found {
            ApprovalResult::Expired
        } else {
            ApprovalResult::NotApproved
        }
    }

    /// Whether `caller` may transfer the token at `now`.
    pub fn is_authorized(&self, caller: &Account, now: u64) -> (r: bool)
        ensures
            r == self@.is_authorized(caller@, now),
    {
        if caller.same(&self.owner) {
            return true;
        }
        match self.approval_check(caller, now) {
            ApprovalResult::Approved => true,
            _ => false,
        }
    }

    /// Whether the token is kept as the ledger keeps its tokens: every
    /// account in it is normalized, and no account holds two approvals.
    pub fn is_sound(&self) -> (r: bool)
        ensures
            r == self@.sound(),
    {
        if !self.owner.is_normalized() {
            return false;
        }
        let mut i: usize = 0;
        while i < self.approvals.len()
            invariant
                i <= self.approvals@.len(),
                forall|k: int|
                    0 <= k < i ==> (#[trigger] self@.approvals[k]).account.is_normalized(),
            decreases self.approvals@.len() - i,
        {
            assert(self@.approvals[i as int] == self.approvals@[i as int]@);
            if !self.approvals[i].account.is_normalized() {
                return false;
            }
            i += 1;
        }
        self.has_distinct_spenders()
    }

    /// Whether no account holds two approvals on the token.
    pub fn has_distinct_spenders(&self) -> (r: bool)
        ensures
            r == self@.distinct_spenders(),
    {
        let mut j: usize = 0;
        while j < self.approvals.len()
            invariant
                j <= self.approvals@.len(),
                forall|a: int, b: int|
                    0 <= a < b < j ==> !(#[trigger] self@.approvals[a]).account.same(
                        (#[trigger] self@.approvals[b]).account,
                    ),
            decreases self.approvals@.len() - j,
        {
            let mut i: usize = 0;
            while i < j
                invariant
                    i <= j < self.approvals@.len(),
                    forall|a: int|
                        0 <= a < i ==> !(#[trigger] self@.approvals[a]).account.same(
                            self@.approvals[j as int].account,
                        ),
                decreases j - i,
            {
                assert(self@.approvals[i as int] == self.approvals@[i as int]@);
                assert(self@.approvals[j as int] == self.approvals@[j as int]@);
                if self.approvals[i].account.same(&self.approvals[j].account) {
                    return false;
                }
                i += 1;
            }
            j += 1;
        }
        true
    }

    /// Records that the owner approved `args.spender` until
    /// `args.expires_at`.
    pub fn approve(&mut self, args: &ApprovalArgs)
        ensures
            final(self)@ == old(self)@.approved(args.spender@, args.expires_at),
    {
        self.grant(&args.spender, args.expires_at);
    }

    /// Records that the owner approved `spender` until `expires_at`.
    pub fn grant(&mut self, spender: &Account, expires_at: Option<u64>)
        ensures
            final(self)@ == old(self)@.approved(spender@, expires_at),
    {
        let updated = approved_list(&self.approvals, spender, expires_at);
        self.approvals = updated;
    }

    /// Gives the token to `to` and drops its approvals.
    pub fn transfer(&mut self, to: Account)
        ensures
            final(self)@ == old(self)@.transferred(to@),
    {
        self.owner = to;
        self.approvals.clear();
        assert(self@.approvals =~= Seq::empty());
    }

    /// The display data of the token: its identifier and its name, then its
    /// logo and its description where it has them.
    pub fn token_metadata(&self) -> (r: Vec<(String, MetadataValue)>)
        ensures
            crate::types::metadata_view(r@) == token_metadata_entries(self@),
    {
        let mut out: Vec<(String, MetadataValue)> = Vec::new();
        out.push(("Id".to_string(), MetadataValue::Nat(self.id)));
        out.push(("Name".to_string(), MetadataValue::Text(self.name.clone())));
        if let Some(logo) = &self.logo {
            out.push(("logo".to_string(), MetadataValue::Text(logo.clone())));
        }
        if let Some(description) = &self.description {
            out.push(("Description".to_string(), MetadataValue::Text(description.clone())));
        }
        assert(crate::types::metadata_view(out@) =~= token_metadata_entries(self@));
        out
    }
}

/// The display data of a token as a list of entries.
pub open spec fn token_metadata_entries(t: TokenView) -> Seq<(Seq<char>, MetadataValueView)> {
    let head = seq![("Id"@, MetadataValueView::Nat(t.id)), ("Name"@, MetadataValueView::Text(t.name))];
    let logo = match t.logo {
        Some(l) => seq![("logo"@, MetadataValueView::Text(l))],
        None => Seq::empty(),
    };
    let description = match t.description {
        Some(d) => seq![("Description"@, MetadataValueView::Text(d))],
        None => Seq::empty(),
    };
    head + logo + description
}

impl Clone for Token {
    fn clone(&self) -> (r: Token)
        ensures
            r@ == self@,
    {
        let mut approvals: Vec<Approval> = Vec::new();
        let mut i: usize = 0;
        while i < self.approvals.len()
            invariant
                i <= self.approvals@.len(),
                approvals@.len() == i,
                forall|k: int| 0 <= k < i ==> (#[trigger] approvals@[k])@ == self.approvals@[k]@,
            decreases self.approvals@.len() - i,
        {
            approvals.push(self.approvals[i].clone());
            i += 1;
        }
        let r = Token {
            owner: self.owner.clone(),
            id: self.id,
            logo: self.logo.clone(),
            description: self.description.clone(),
            name: self.name.clone(),
            approvals,
        };
        assert(r@.approvals =~= self@.approvals);
        r
    }
}

// ----- the row of a token -------------------------------------------------

/// The bytes of an approval.
pub open spec fn enc_approval(a: ApprovalView) -> Seq<u8> {
    enc_account(a.account) + enc_opt_u64(a.expires_at)
}

/// Splits an approval from the front of `s`.
#[verifier::opaque]
pub open spec fn parse_approval(s: Seq<u8>) -> Option<(ApprovalView, Seq<u8>)> {
    match parse_account(s) {
        Some((account, rest)) => match parse_opt_u64(rest) {
            Some((expires_at, rest2)) => Some((ApprovalView { expires_at, account }, rest2)),
            None => None,
        },
        None => None,
    }
}

/// Parsing undoes the encoding of an approval.
pub proof fn lemma_parse_approval(a: ApprovalView, rest: Seq<u8>)
    requires
        a.account.encodable(),
    ensures
        parse_approval(enc_approval(a) + rest) == Some((a, rest)),
{
    reveal(parse_approval);
    assert(enc_approval(a) + rest =~= enc_account(a.account) + (enc_opt_u64(a.expires_at) + rest));
    lemma_parse_account(a.account, enc_opt_u64(a.expires_at) + rest);
    lemma_parse_opt_u64(a.expires_at, rest);
}

/// The bytes of the approvals of a list, without their number.
pub open spec fn enc_approvals_body(a: Seq<ApprovalView>) -> Seq<u8>
    decreases a.len(),
{
    if a.len() == 0 {
        Seq::empty()
    } else {
        enc_approval(a[0]) + enc_approvals_body(a.drop_first())
    }
}

/// Splits the approvals of a list, without their number from the front of `s`.
pub open spec fn parse_approvals_body(s: Seq<u8>, n: nat) -> Option<(Seq<ApprovalView>, Seq<u8>)>
    decreases n,
{
    if n == 0 {
        Some((Seq::empty(), s))
    } else {
        match parse_approval(s) {
            Some((a, rest)) => match parse_approvals_body(rest, (n - 1) as nat) {
                Some((tail, rest2)) => Some((seq![a] + tail, rest2)),
                None => None,
            },
            None => None,
        }
    }
}

/// The bytes of a list of approvals.
pub open spec fn enc_approvals(a: Seq<ApprovalView>) -> Seq<u8> {
    enc_u64(a.len() as u64) + enc_approvals_body(a)
}

/// Splits a list of approvals from the front of `s`.
pub open spec fn parse_approvals(s: Seq<u8>) -> Option<(Seq<ApprovalView>, Seq<u8>)> {
    match parse_u64(s) {
        Some((n, rest)) => parse_approvals_body(rest, n as nat),
        None => None,
    }
}

/// The encoding of a list with one more approval at its end.
pub proof fn lemma_enc_approvals_body_push(a: Seq<ApprovalView>, x: ApprovalView)
    ensures
        enc_approvals_body(a.push(x)) == enc_approvals_body(a) + enc_approval(x),
    decreases a.len(),
{
    if a.len() == 0 {
        assert(a.push(x).drop_first() =~= Seq::<ApprovalView>::empty());
        assert(enc_approvals_body(a.push(x)) =~= enc_approval(x) + enc_approvals_body(
            Seq::<ApprovalView>::empty(),
        ));
        assert(enc_approvals_body(a.push(x)) =~= enc_approvals_body(a) + enc_approval(x));
    } else {
        assert(a.push(x).drop_first() =~= a.drop_first().push(x));
        lemma_enc_approvals_body_push(a.drop_first(), x);
        assert(enc_approvals_body(a.push(x)) =~= enc_approvals_body(a) + enc_approval(x));
    }
}

/// Parsing undoes the encoding of the approvals of a list, without their number.
pub proof fn lemma_parse_approvals_body(a: Seq<ApprovalView>, rest: Seq<u8>)
    requires
        forall|i: int| 0 <= i < a.len() ==> (#[trigger] a[i]).account.encodable(),
    ensures
        parse_approvals_body(enc_approvals_body(a) + rest, a.len()) == Some((a, rest)),
    decreases a.len(),
{
    if a.len() == 0 {
        assert(enc_approvals_body(a) + rest =~= rest);
        assert(a =~= Seq::<ApprovalView>::empty());
    } else {
        let tail = a.drop_first();
        assert(enc_approvals_body(a) + rest =~= enc_approval(a[0]) + (enc_approvals_body(tail)
            + rest));
        lemma_parse_approval(a[0], enc_approvals_body(tail) + rest);
        assert forall|i: int| 0 <= i < tail.len() implies (#[trigger] tail[i]).account.encodable() by {
            assert(tail[i] == a[i + 1]);
        }
        lemma_parse_approvals_body(tail, rest);
        assert(seq![a[0]] + tail =~= a);
    }
}

/// Parsing undoes the encoding of a list of approvals.
pub proof fn lemma_parse_approvals(a: Seq<ApprovalView>, rest: Seq<u8>)
    requires
        a.len() <= u64::MAX,
        forall|i: int| 0 <= i < a.len() ==> (#[trigger] a[i]).account.encodable(),
    ensures
        parse_approvals(enc_approvals(a) + rest) == Some((a, rest)),
{
    let n = a.len() as u64;
    assert(enc_approvals(a) + rest =~= enc_u64(n) + (enc_approvals_body(a) + rest));
    lemma_parse_u64(n, enc_approvals_body(a) + rest);
    lemma_parse_approvals_body(a, rest);
}

/// Parsing a list of one more approval parses the shorter list first.
pub proof fn lemma_parse_approvals_body_step(s: Seq<u8>, n: nat)
    ensures
        parse_approvals_body(s, n + 1) == match parse_approvals_body(s, n) {
            Some((a, rest)) => match parse_approval(rest) {
                Some((x, rest2)) => Some((a.push(x), rest2)),
                None => None,
            },
            None => None,
        },
    decreases n,
{
    reveal_with_fuel(parse_approvals_body, 3);
    if n == 0 {
        match parse_approval(s) {
            Some((x, rest)) => {
                assert(seq![x] + Seq::<ApprovalView>::empty() =~= Seq::<ApprovalView>::empty().push(
                    x,
                ));
            },
            None => {},
        }
    } else {
        match parse_approval(s) {
            Some((x, rest)) => {
                lemma_parse_approvals_body_step(rest, (n - 1) as nat);
                match parse_approvals_body(rest, (n - 1) as nat) {
                    Some((a, rest2)) => {
                        match parse_approval(rest2) {
                            Some((last, rest3)) => {
                                assert(seq![x] + a.push(last) =~= (seq![x] + a).push(last));
                            },
                            None => {},
                        }
                    },
                    None => {},
                }
            },
            None => {},
        }
    }
}

/// A list that cannot be parsed cannot be parsed as a longer list either.
pub proof fn lemma_parse_approvals_body_none(s: Seq<u8>, n: nat, m: nat)
    requires
        parse_approvals_body(s, n) is None,
        n <= m,
    ensures
        parse_approvals_body(s, m) is None,
    decreases m - n,
{
    if n < m {
        lemma_parse_approvals_body_step(s, n);
        lemma_parse_approvals_body_none(s, n + 1, m);
    }
}

/// The row of a token: identifier, owner, name, logo, description,
/// approvals.
pub open spec fn enc_token(t: TokenView) -> Seq<u8> {
    enc_u128(t.id) + (enc_account(t.owner) + (enc_text(t.name) + (enc_opt_text(t.logo) + (
    enc_opt_text(t.description) + enc_approvals(t.approvals)))))
}

/// The token that a row holds, if the row is that of a token.
pub open spec fn parse_token(s: Seq<u8>) -> Option<TokenView> {
    match parse_u128(s) {
        Some((id, r1)) => match parse_account(r1) {
            Some((owner, r2)) => match parse_text(r2) {
                Some((name, r3)) => match parse_opt_text(r3) {
                    Some((logo, r4)) => match parse_opt_text(r4) {
                        Some((description, r5)) => match parse_approvals(r5) {
                            Some((approvals, r6)) => if r6.len() == 0 {
                                Some(TokenView { owner, id, logo, description, name, approvals })
                            } else {
                                None
                            },
                            None => None,
                        },
                        None => None,
                    },
                    None => None,
                },
                None => None,
            },
            None => None,
        },
        None => None,
    }
}

/// Reading a row gives back the token that was written.
pub proof fn lemma_token_round_trip(t: TokenView)
    requires
        t.encodable(),
    ensures
        parse_token(enc_token(t)) == Some(t),
{
    let e6 = enc_approvals(t.approvals);
    let e5 = enc_opt_text(t.description) + e6;
    let e4 = enc_opt_text(t.logo) + e5;
    let e3 = enc_text(t.name) + e4;
    let e2 = enc_account(t.owner) + e3;
    lemma_parse_u128(t.id, e2);
    lemma_parse_account(t.owner, e3);
    lemma_parse_text(t.name, e4);
    lemma_parse_opt_text(t.logo, e5);
    lemma_parse_opt_text(t.description, e6);
    assert(e6 =~= e6 + Seq::<u8>::empty());
    lemma_parse_approvals(t.approvals, Seq::<u8>::empty());
}

/// The length of a row does not depend on the identifier of the token.
pub proof fn lemma_token_row_len(t: TokenView, id: u128)
    ensures
        enc_token(TokenView { id, ..t }).len() == enc_token(t).len(),
{
    crate::codec::lemma_enc_u128_len(id);
    crate::codec::lemma_enc_u128_len(t.id);
}

/// The row of `t`.
pub fn encode_token(t: &Token) -> (r: Vec<u8>)
    ensures
        r@ == enc_token(t@),
        t@.encodable(),
{
    let mut out: Vec<u8> = Vec::new();
    put_u128(&mut out, t.id);
    put_account(&mut out, &t.owner);
    put_text(&mut out, &t.name);
    put_opt_text(&mut out, &t.logo);
    put_opt_text(&mut out, &t.description);
    put_u64(&mut out, t.approvals.len() as u64);
    let ghost start = out@;
    let mut i: usize = 0;
    while i < t.approvals.len()
        invariant
            i <= t.approvals@.len(),
            out@ == start + enc_approvals_body(t@.approvals.take(i as int)),
            forall|k: int| 0 <= k < i ==> (#[trigger] t@.approvals[k]).account.encodable(),
        decreases t.approvals@.len() - i,
    {
        proof {
            lemma_enc_approvals_body_push(t@.approvals.take(i as int), t@.approvals[i as int]);
            assert(t@.approvals.take(i as int).push(t@.approvals[i as int]) =~= t@.approvals.take(
                i + 1,
            ));
        }
        let approval = &t.approvals[i];
        assert(approval@ == t@.approvals[i as int]);
        put_account(&mut out, &approval.account);
        put_opt_u64(&mut out, approval.expires_at);
        i += 1;
        assert(out@ =~= start + enc_approvals_body(t@.approvals.take(i as int)));
    }
    assert(t@.approvals.take(t@.approvals.len() as int) =~= t@.approvals);
    assert(out@ =~= enc_token(t@));
    out
}

/// Reads an approval at `pos`.
fn take_approval(buf: &[u8], pos: usize) -> (r: Option<(Approval, usize)>)
    requires
        pos <= buf@.len(),
    ensures
        match parse_approval(buf@.skip(pos as int)) {
            Some((v, rest)) => r matches Some((got, next)) && got@ == v && pos <= next <= buf@.len()
                && rest == buf@.skip(next as int),
            None => r is None,
        },
{
    reveal(parse_approval);
    let (account, pos1) = match take_account(buf, pos) {
        Some(x) => x,
        None => {
            return None;
        },
    };
    match take_opt_u64(buf, pos1) {
        Some((expires_at, pos2)) => Some((Approval { expires_at, account }, pos2)),
        None => None,
    }
}

/// Reads a list of approvals at `pos`.
fn take_approvals(buf: &[u8], pos: usize) -> (r: Option<(Vec<Approval>, usize)>)
    requires
        pos <= buf@.len(),
    ensures
        match parse_approvals(buf@.skip(pos as int)) {
            Some((v, rest)) => r matches Some((got, next)) && approvals_view(got@) == v && pos
                <= next <= buf@.len() && rest == buf@.skip(next as int),
            None => r is None,
        },
{
    let (n, pos1) = match take_u64(buf, pos) {
        Some(x) => x,
        None => {
            return None;
        },
    };
    let ghost body = buf@.skip(pos1 as int);
    let mut out: Vec<Approval> = Vec::new();
    let mut p: usize = pos1;
    let mut i: u64 = 0;
    assert(approvals_view(out@) =~= Seq::<ApprovalView>::empty());
    while i < n
        invariant
            i <= n,
            pos1 <= p <= buf@.len(),
            body == buf@.skip(pos1 as int),
            parse_u64(buf@.skip(pos as int)) == Some((n, body)),
            parse_approvals_body(body, i as nat) == Some(
                (approvals_view(out@), buf@.skip(p as int)),
            ),
        decreases n - i,
    {
        proof {
            lemma_parse_approvals_body_step(body, i as nat);
        }
        match take_approval(buf, p) {
            Some((approval, pos2)) => {
                let ghost before = approvals_view(out@);
                let ghost added = approval@;
                out.push(approval);
                assert(approvals_view(out@) =~= before.push(added));
                p = pos2;
            },
            None => {
                proof {
                    lemma_parse_approvals_body_none(body, (i + 1) as nat, n as nat);
                }
                return None;
            },
        }
        i += 1;
    }
    Some((out, p))
}

/// The token that `row` holds, if it is the row of a token.
pub fn decode_token(row: &[u8]) -> (r: Option<Token>)
    ensures
        match parse_token(row@) {
            Some(v) => r matches Some(t) && t@ == v,
            None => r is None,
        },
{
    assert(row@.skip(0) =~= row@);
    let (id, pos1) = match take_u128(row, 0) {
        Some(x) => x,
        None => {
            return None;
        },
    };
    let (owner, pos2) = match take_account(row, pos1) {
        Some(x) => x,
        None => {
            return None;
        },
    };
    let (name, pos3) = match take_text(row, pos2) {
        Some(x) => x,
        None => {
            return None;
        },
    };
    let (logo, pos4) = match take_opt_text(row, pos3) {
        Some(x) => x,
        None => {
            return None;
        },
    };
    let (description, pos5) = match take_opt_text(row, pos4) {
        Some(x) => x,
        None => {
            return None;
        },
    };
    let (approvals, pos6) = match take_approvals(row, pos5) {
        Some(x) => x,
        None => {
            return None;
        },
    };
    if pos6 != row.len() {
        return None;
    }
    Some(Token { owner, id, logo, description, name, approvals })
}

} // verus!
