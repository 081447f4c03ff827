//! The byte format of stored rows.
//!
//! A row is a concatenation of fields. Integers are little-endian and of
//! fixed width; a byte string is preceded by its length as a 64-bit integer;
//! a text is the byte string of its UTF-8 encoding; an optional field is
//! preceded by a tag byte, 0 for absent and 1 for present.
//!
//! Each field has an encoder `enc_*`, a parser `parse_*` that splits a field
//! from the front of a byte string, and a lemma that the parser undoes the
//! encoder.

use vstd::bytes::*;
use vstd::prelude::*;
use vstd::slice::slice_subrange;
use vstd::utf8::*;

verus! {

// ----- one byte -----------------------------------------------------------

/// Splits a byte from the front of `s`.
pub open spec fn parse_u8(s: Seq<u8>) -> Option<(u8, Seq<u8>)> {
    if s.len() >= 1 {
        Some((s[0], s.skip(1)))
    } else {
        None
    }
}

/// Parsing undoes the encoding of a byte.
pub proof fn lemma_parse_u8(x: u8, rest: Seq<u8>)
    ensures
        parse_u8(seq![x] + rest) == Some((x, rest)),
{
    assert((seq![x] + rest).skip(1) =~= rest);
}

// ----- 64-bit integers ----------------------------------------------------

/// The bytes of a 64-bit integer.
pub open spec fn enc_u64(x: u64) -> Seq<u8> {
    spec_u64_to_le_bytes(x)
}

/// Splits a 64-bit integer from the front of `s`.
pub open spec fn parse_u64(s: Seq<u8>) -> Option<(u64, Seq<u8>)> {
    if s.len() >= 8 {
        Some((spec_u64_from_le_bytes(s.take(8)), s.skip(8)))
    } else {
        None
    }
}

/// The length of the encoding of a 64-bit integer.
pub proof fn lemma_enc_u64_len(x: u64)
    ensures
        enc_u64(x).len() == 8,
{
    lemma_auto_spec_u64_to_from_le_bytes();
}

/// Parsing undoes the encoding of a 64-bit integer.
pub proof fn lemma_parse_u64(x: u64, rest: Seq<u8>)
    ensures
        parse_u64(enc_u64(x) + rest) == Some((x, rest)),
{
    lemma_auto_spec_u64_to_from_le_bytes();
    let s = enc_u64(x) + rest;
    assert(s.take(8) =~= enc_u64(x));
    assert(s.skip(8) =~= rest);
}

// ----- 128-bit integers ---------------------------------------------------

/// The bytes of a 128-bit integer.
pub open spec fn enc_u128(x: u128) -> Seq<u8> {
    spec_u128_to_le_bytes(x)
}

/// Splits a 128-bit integer from the front of `s`.
pub open spec fn parse_u128(s: Seq<u8>) -> Option<(u128, Seq<u8>)> {
    if s.len() >= 16 {
        Some((spec_u128_from_le_bytes(s.take(16)), s.skip(16)))
    } else {
        None
    }
}

/// The length of the encoding of a 128-bit integer.
pub proof fn lemma_enc_u128_len(x: u128)
    ensures
        enc_u128(x).len() == 16,
{
    lemma_auto_spec_u128_to_from_le_bytes();
}

/// Parsing undoes the encoding of a 128-bit integer.
pub proof fn lemma_parse_u128(x: u128, rest: Seq<u8>)
    ensures
        parse_u128(enc_u128(x) + rest) == Some((x, rest)),
{
    lemma_auto_spec_u128_to_from_le_bytes();
    let s = enc_u128(x) + rest;
    assert(s.take(16) =~= enc_u128(x));
    assert(s.skip(16) =~= rest);
}

// ----- optional 64-bit integers -------------------------------------------

/// The bytes of an optional 64-bit integer.
pub open spec fn enc_opt_u64(x: Option<u64>) -> Seq<u8> {
    match x {
        None => seq![0u8],
        Some(v) => seq![1u8] + enc_u64(v),
    }
}

/// Splits an optional 64-bit integer from the front of `s`.
pub open spec fn parse_opt_u64(s: Seq<u8>) -> Option<(Option<u64>, Seq<u8>)> {
    match parse_u8(s) {
        Some((tag, rest)) => if tag == 0 {
            Some((None, rest))
        } else if tag == 1 {
            match parse_u64(rest) {
                Some((v, rest2)) => Some((Some(v), rest2)),
                None => None,
            }
        } else {
            None
        },
        None => None,
    }
}

/// Parsing undoes the encoding of an optional 64-bit integer.
pub proof fn lemma_parse_opt_u64(x: Option<u64>, rest: Seq<u8>)
    ensures
        parse_opt_u64(enc_opt_u64(x) + rest) == Some((x, rest)),
{
    match x {
        None => {
            lemma_parse_u8(0u8, rest);
        },
        Some(v) => {
            assert(enc_opt_u64(x) + rest =~= seq![1u8] + (enc_u64(v) + rest));
            lemma_parse_u8(1u8, enc_u64(v) + rest);
            lemma_parse_u64(v, rest);
        },
    }
}

// ----- byte strings -------------------------------------------------------

/// The bytes of a byte string.
pub open spec fn enc_bytes(b: Seq<u8>) -> Seq<u8> {
    enc_u64(b.len() as u64) + b
}

/// Splits a byte string from the front of `s`.
pub open spec fn parse_bytes(s: Seq<u8>) -> Option<(Seq<u8>, Seq<u8>)> {
    match parse_u64(s) {
        Some((n, rest)) => if rest.len() >= n {
            Some((rest.take(n as int), rest.skip(n as int)))
        } else {
            None
        },
        None => None,
    }
}

/// Parsing undoes the encoding of a byte string.
pub proof fn lemma_parse_bytes(b: Seq<u8>, rest: Seq<u8>)
    requires
        b.len() <= u64::MAX,
    ensures
        parse_bytes(enc_bytes(b) + rest) == Some((b, rest)),
{
    let n = b.len() as u64;
    assert(enc_bytes(b) + rest =~= enc_u64(n) + (b + rest));
    lemma_parse_u64(n, b + rest);
    assert((b + rest).take(n as int) =~= b);
    assert((b + rest).skip(n as int) =~= rest);
}

// ----- fixed 32-byte strings, optional ------------------------------------

/// The bytes of an optional string of 32 bytes.
pub open spec fn enc_opt_fixed(x: Option<Seq<u8>>) -> Seq<u8> {
    match x {
        None => seq![0u8],
        Some(b) => seq![1u8] + b,
    }
}

/// Splits an optional string of 32 bytes from the front of `s`.
pub open spec fn parse_opt_fixed(s: Seq<u8>) -> Option<(Option<Seq<u8>>, Seq<u8>)> {
    match parse_u8(s) {
        Some((tag, rest)) => if tag == 0 {
            Some((None, rest))
        } else if tag == 1 && rest.len() >= 32 {
            Some((Some(rest.take(32)), rest.skip(32)))
        } else {
            None
        },
        None => None,
    }
}

/// Parsing undoes the encoding of an optional string of 32 bytes.
pub proof fn lemma_parse_opt_fixed(x: Option<Seq<u8>>, rest: Seq<u8>)
    requires
        x is Some ==> x->0.len() == 32,
    ensures
        parse_opt_fixed(enc_opt_fixed(x) + rest) == Some((x, rest)),
{
    match x {
        None => {
            lemma_parse_u8(0u8, rest);
        },
        Some(b) => {
            assert(enc_opt_fixed(x) + rest =~= seq![1u8] + (b + rest));
            lemma_parse_u8(1u8, b + rest);
            assert((b + rest).take(32) =~= b);
            assert((b + rest).skip(32) =~= rest);
        },
    }
}

// ----- texts --------------------------------------------------------------

/// The bytes of a text.
pub open spec fn enc_text(t: Seq<char>) -> Seq<u8> {
    enc_bytes(encode_utf8(t))
}

/// Splits a text from the front of `s`.
pub open spec fn parse_text(s: Seq<u8>) -> Option<(Seq<char>, Seq<u8>)> {
    match parse_bytes(s) {
        Some((b, rest)) => if valid_utf8(b) {
            Some((decode_utf8(b), rest))
        } else {
            None
        },
        None => None,
    }
}

/// Parsing undoes the encoding of a text.
pub proof fn lemma_parse_text(t: Seq<char>, rest: Seq<u8>)
    requires
        encode_utf8(t).len() <= u64::MAX,
    ensures
        parse_text(enc_text(t) + rest) == Some((t, rest)),
{
    lemma_parse_bytes(encode_utf8(t), rest);
    encode_utf8_valid_utf8(t);
    encode_utf8_decode_utf8(t);
}

/// The bytes of an optional text.
pub open spec fn enc_opt_text(x: Option<Seq<char>>) -> Seq<u8> {
    match x {
        None => seq![0u8],
        Some(t) => seq![1u8] + enc_text(t),
    }
}

/// Splits an optional text from the front of `s`.
pub open spec fn parse_opt_text(s: Seq<u8>) -> Option<(Option<Seq<char>>, Seq<u8>)> {
    match parse_u8(s) {
        Some((tag, rest)) => if tag == 0 {
            Some((None, rest))
        } else if tag == 1 {
            match parse_text(rest) {
                Some((t, rest2)) => Some((Some(t), rest2)),
                None => None,
            }
        } else {
            None
        },
        None => None,
    }
}

/// Parsing undoes the encoding of an optional text.
pub proof fn lemma_parse_opt_text(x: Option<Seq<char>>, rest: Seq<u8>)
    requires
        x is Some ==> encode_utf8(x->0).len() <= u64::MAX,
    ensures
        parse_opt_text(enc_opt_text(x) + rest) == Some((x, rest)),
{
    match x {
        None => {
            lemma_parse_u8(0u8, rest);
        },
        Some(t) => {
            assert(enc_opt_text(x) + rest =~= seq![1u8] + (enc_text(t) + rest));
            lemma_parse_u8(1u8, enc_text(t) + rest);
            lemma_parse_text(t, rest);
        },
    }
}

// ----- optional byte strings ----------------------------------------------

/// The bytes of an optional byte string.
pub open spec fn enc_opt_bytes(x: Option<Seq<u8>>) -> Seq<u8> {
    match x {
        None => seq![0u8],
        Some(b) => seq![1u8] + enc_bytes(b),
    }
}

/// Splits an optional byte string from the front of `s`.
pub open spec fn parse_opt_bytes(s: Seq<u8>) -> Option<(Option<Seq<u8>>, Seq<u8>)> {
    match parse_u8(s) {
        Some((tag, rest)) => if tag == 0 {
            Some((None, rest))
        } else if tag == 1 {
            match parse_bytes(rest) {
                Some((b, rest2)) => Some((Some(b), rest2)),
                None => None,
            }
        } else {
            None
        },
        None => None,
    }
}

/// Parsing undoes the encoding of an optional byte string.
pub proof fn lemma_parse_opt_bytes(x: Option<Seq<u8>>, rest: Seq<u8>)
    requires
        x is Some ==> x->0.len() <= u64::MAX,
    ensures
        parse_opt_bytes(enc_opt_bytes(x) + rest) == Some((x, rest)),
{
    match x {
        None => {
            lemma_parse_u8(0u8, rest);
        },
        Some(b) => {
            assert(enc_opt_bytes(x) + rest =~= seq![1u8] + (enc_bytes(b) + rest));
            lemma_parse_u8(1u8, enc_bytes(b) + rest);
            lemma_parse_bytes(b, rest);
        },
    }
}

// ----- lists of 128-bit integers ------------------------------------------

/// The bytes of the identifiers of a list, without their number.
pub open spec fn enc_ids_body(ids: Seq<u128>) -> Seq<u8>
    decreases ids.len(),
{
    if ids.len() == 0 {
        Seq::empty()
    } else {
        enc_u128(ids[0]) + enc_ids_body(ids.drop_first())
    }
}

/// Splits the identifiers of a list, without their number from the front of `s`.
pub open spec fn parse_ids_body(s: Seq<u8>, n: nat) -> Option<(Seq<u128>, Seq<u8>)>
    decreases n,
{
    if n == 0 {
        Some((Seq::empty(), s))
    } else {
        match parse_u128(s) {
            Some((id, rest)) => match parse_ids_body(rest, (n - 1) as nat) {
                Some((ids, rest2)) => Some((seq![id] + ids, rest2)),
                None => None,
            },
            None => None,
        }
    }
}

/// The bytes of a list of identifiers.
pub open spec fn enc_ids(ids: Seq<u128>) -> Seq<u8> {
    enc_u64(ids.len() as u64) + enc_ids_body(ids)
}

/// Splits a list of identifiers from the front of `s`.
pub open spec fn parse_ids(s: Seq<u8>) -> Option<(Seq<u128>, Seq<u8>)> {
    match parse_u64(s) {
        Some((n, rest)) => parse_ids_body(rest, n as nat),
        None => None,
    }
}

/// The encoding of a list with one more identifier at its end.
pub proof fn lemma_enc_ids_body_push(ids: Seq<u128>, id: u128)
    ensures
        enc_ids_body(ids.push(id)) == enc_ids_body(ids) + enc_u128(id),
    decreases ids.len(),
{
    if ids.len() == 0 {
        assert(ids.push(id).drop_first() =~= Seq::<u128>::empty());
        assert(enc_ids_body(ids.push(id)) =~= enc_u128(id) + enc_ids_body(Seq::<u128>::empty()));
        assert(enc_ids_body(ids.push(id)) =~= enc_ids_body(ids) + enc_u128(id));
    } else {
        assert(ids.push(id).drop_first() =~= ids.drop_first().push(id));
        lemma_enc_ids_body_push(ids.drop_first(), id);
        assert(enc_ids_body(ids.push(id)) =~= enc_ids_body(ids) + enc_u128(id));
    }
}

/// Parsing undoes the encoding of the identifiers of a list, without their number.
pub proof fn lemma_parse_ids_body(ids: Seq<u128>, rest: Seq<u8>)
    ensures
        parse_ids_body(enc_ids_body(ids) + rest, ids.len()) == Some((ids, rest)),
    decreases ids.len(),
{
    if ids.len() == 0 {
        assert(enc_ids_body(ids) + rest =~= rest);
        assert(ids =~= Seq::<u128>::empty());
    } else {
        let tail = ids.drop_first();
        assert(enc_ids_body(ids) + rest =~= enc_u128(ids[0]) + (enc_ids_body(tail) + rest));
        lemma_parse_u128(ids[0], enc_ids_body(tail) + rest);
        lemma_parse_ids_body(tail, rest);
        assert(seq![ids[0]] + tail =~= ids);
    }
}

/// Parsing undoes the encoding of a list of identifiers.
pub proof fn lemma_parse_ids(ids: Seq<u128>, rest: Seq<u8>)
    requires
        ids.len() <= u64::MAX,
    ensures
        parse_ids(enc_ids(ids) + rest) == Some((ids, rest)),
{
    let n = ids.len() as u64;
    assert(enc_ids(ids) + rest =~= enc_u64(n) + (enc_ids_body(ids) + rest));
    lemma_parse_u64(n, enc_ids_body(ids) + rest);
    lemma_parse_ids_body(ids, rest);
}

/// Parsing a list of one more element parses the shorter list first.
pub proof fn lemma_parse_ids_body_step(s: Seq<u8>, n: nat)
    ensures
        parse_ids_body(s, n + 1) == match parse_ids_body(s, n) {
            Some((ids, rest)) => match parse_u128(rest) {
                Some((id, rest2)) => Some((ids.push(id), rest2)),
                None => None,
            },
            None => None,
        },
    decreases n,
{
    reveal_with_fuel(parse_ids_body, 3);
    if n == 0 {
        match parse_u128(s) {
            Some((id, rest)) => {
                assert(seq![id] + Seq::<u128>::empty() =~= Seq::<u128>::empty().push(id));
            },
            None => {},
        }
    } else {
        match parse_u128(s) {
            Some((id, rest)) => {
                lemma_parse_ids_body_step(rest, (n - 1) as nat);
                match parse_ids_body(rest, (n - 1) as nat) {
                    Some((ids, rest2)) => {
                        match parse_u128(rest2) {
                            Some((last, rest3)) => {
                                assert(seq![id] + ids.push(last) =~= (seq![id] + ids).push(last));
                            },
                            None => {},
                        }
                    },
                    None => {},
                }
            },
            None => {},
        }
    }
}

// ----- writing ------------------------------------------------------------

/// Appends `src` to `out`.
pub fn put_raw(out: &mut Vec<u8>, src: &[u8])
    ensures
        final(out)@ == old(out)@ + src@,
{
    let mut i: usize = 0;
    while i < src.len()
        invariant
            i <= src@.len(),
            out@ == old(out)@ + src@.subrange(0, i as int),
        decreases src@.len() - i,
    {
        out.push(src[i]);
        i += 1;
        assert(out@ =~= old(out)@ + src@.subrange(0, i as int));
    }
    assert(out@ =~= old(out)@ + src@);
}

/// Appends the bytes of a byte to `out`.
pub fn put_u8(out: &mut Vec<u8>, x: u8)
    ensures
        final(out)@ == old(out)@ + seq![x],
{
    out.push(x);
    assert(out@ =~= old(out)@ + seq![x]);
}

/// Appends the bytes of a 64-bit integer to `out`.
pub fn put_u64(out: &mut Vec<u8>, x: u64)
    ensures
        final(out)@ == old(out)@ + enc_u64(x),
{
    let b = u64_to_le_bytes(x);
    put_raw(out, b.as_slice());
}

/// Appends the bytes of a 128-bit integer to `out`.
pub fn put_u128(out: &mut Vec<u8>, x: u128)
    ensures
        final(out)@ == old(out)@ + enc_u128(x),
{
    let b = u128_to_le_bytes(x);
    put_raw(out, b.as_slice());
}

/// Appends the bytes of an optional 64-bit integer to `out`.
pub fn put_opt_u64(out: &mut Vec<u8>, x: Option<u64>)
    ensures
        final(out)@ == old(out)@ + enc_opt_u64(x),
{
    match x {
        None => {
            put_u8(out, 0u8);
        },
        Some(v) => {
            put_u8(out, 1u8);
            put_u64(out, v);
            assert(out@ =~= old(out)@ + enc_opt_u64(x));
        },
    }
}

/// Appends the bytes of a byte string to `out`.
pub fn put_bytes(out: &mut Vec<u8>, b: &[u8])
    ensures
        final(out)@ == old(out)@ + enc_bytes(b@),
{
    put_u64(out, b.len() as u64);
    put_raw(out, b);
    assert(out@ =~= old(out)@ + enc_bytes(b@));
}

/// Appends the bytes of an optional byte string to `out`.
pub fn put_opt_bytes(out: &mut Vec<u8>, x: &Option<Vec<u8>>)
    ensures
        final(out)@ == old(out)@ + enc_opt_bytes(
            match *x {
                Some(b) => Some(b@),
                None => None,
            },
        ),
{
    match x {
        None => {
            put_u8(out, 0u8);
        },
        Some(b) => {
            put_u8(out, 1u8);
            put_bytes(out, b.as_slice());
            assert(out@ =~= old(out)@ + (seq![1u8] + enc_bytes(b@)));
        },
    }
}

/// Appends the bytes of an optional string of 32 bytes to `out`.
pub fn put_opt_fixed(out: &mut Vec<u8>, x: &Option<[u8; 32]>)
    ensures
        final(out)@ == old(out)@ + enc_opt_fixed(
            match *x {
                Some(b) => Some(b@),
                None => None,
            },
        ),
{
    match x {
        None => {
            put_u8(out, 0u8);
        },
        Some(b) => {
            put_u8(out, 1u8);
            put_raw(out, b.as_slice());
            assert(out@ =~= old(out)@ + (seq![1u8] + b@));
        },
    }
}

/// Appends the bytes of a text to `out`.
pub fn put_text(out: &mut Vec<u8>, t: &String)
    ensures
        final(out)@ == old(out)@ + enc_text(t@),
        encode_utf8(t@).len() <= u64::MAX,
{
    let bytes = t.as_str().as_bytes();
    assert(bytes@.len() == bytes.len());
    put_bytes(out, bytes);
}

/// Appends the bytes of an optional text to `out`.
pub fn put_opt_text(out: &mut Vec<u8>, x: &Option<String>)
    ensures
        final(out)@ == old(out)@ + enc_opt_text(
            match *x {
                Some(t) => Some(t@),
                None => None,
            },
        ),
        *x matches Some(t) ==> encode_utf8(t@).len() <= u64::MAX,
{
    match x {
        None => {
            put_u8(out, 0u8);
        },
        Some(t) => {
            put_u8(out, 1u8);
            put_text(out, t);
            assert(out@ =~= old(out)@ + (seq![1u8] + enc_text(t@)));
        },
    }
}

/// Appends the bytes of a list of identifiers to `out`.
pub fn put_ids(out: &mut Vec<u8>, ids: &Vec<u128>)
    ensures
        final(out)@ == old(out)@ + enc_ids(ids@),
{
    put_u64(out, ids.len() as u64);
    let ghost start = out@;
    let mut i: usize = 0;
    while i < ids.len()
        invariant
            i <= ids@.len(),
            out@ == start + enc_ids_body(ids@.take(i as int)),
        decreases ids@.len() - i,
    {
        proof {
            lemma_enc_ids_body_push(ids@.take(i as int), ids@[i as int]);
            assert(ids@.take(i as int).push(ids@[i as int]) =~= ids@.take(i + 1));
        }
        put_u128(out, ids[i]);
        i += 1;
        assert(out@ =~= start + enc_ids_body(ids@.take(i as int)));
    }
    assert(ids@.take(ids@.len() as int) =~= ids@);
    assert(out@ =~= old(out)@ + enc_ids(ids@));
}

// ----- reading ------------------------------------------------------------

/// `String::from_utf8`: a text exactly when the bytes are valid UTF-8, and
/// then the text whose encoding they are.
#[verifier::external_body]
fn text_from_utf8(bytes: Vec<u8>) -> (r: Option<String>)
    ensures
        r is Some <==> valid_utf8(bytes@),
        r is Some ==> encode_utf8(r->0@) == bytes@,
{
    match String::from_utf8(bytes) {
        Ok(s) => Some(s),
        Err(_) => None,
    }
}

/// Reads a byte at `pos`: the value and the position behind it.
pub fn take_u8(buf: &[u8], pos: usize) -> (r: Option<(u8, usize)>)
    requires
        pos <= buf@.len(),
    ensures
        match parse_u8(buf@.skip(pos as int)) {
            Some((v, rest)) => r matches Some((got, next)) && got == v && pos <= next <= buf@.len()
                && rest == buf@.skip(next as int),
            None => r is None,
        },
{
    if buf.len() - pos < 1 {
        return None;
    }
    assert(buf@.skip(pos as int).skip(1) =~= buf@.skip(pos + 1));
    Some((buf[pos], pos + 1))
}

/// Reads a 64-bit integer at `pos`: the value and the position behind it.
pub fn take_u64(buf: &[u8], pos: usize) -> (r: Option<(u64, usize)>)
    requires
        pos <= buf@.len(),
    ensures
        match parse_u64(buf@.skip(pos as int)) {
            Some((v, rest)) => r matches Some((got, next)) && got == v && pos <= next <= buf@.len()
                && rest == buf@.skip(next as int),
            None => r is None,
        },
{
    if buf.len() - pos < 8 {
        return None;
    }
    let field = slice_subrange(buf, pos, pos + 8);
    assert(buf@.skip(pos as int).take(8) =~= field@);
    assert(buf@.skip(pos as int).skip(8) =~= buf@.skip(pos + 8));
    Some((u64_from_le_bytes(field), pos + 8))
}

/// Reads a 128-bit integer at `pos`: the value and the position behind it.
pub fn take_u128(buf: &[u8], pos: usize) -> (r: Option<(u128, usize)>)
    requires
        pos <= buf@.len(),
    ensures
        match parse_u128(buf@.skip(pos as int)) {
            Some((v, rest)) => r matches Some((got, next)) && got == v && pos <= next <= buf@.len()
                && rest == buf@.skip(next as int),
            None => r is None,
        },
{
    if buf.len() - pos < 16 {
        return None;
    }
    let field = slice_subrange(buf, pos, pos + 16);
    assert(buf@.skip(pos as int).take(16) =~= field@);
    assert(buf@.skip(pos as int).skip(16) =~= buf@.skip(pos + 16));
    Some((u128_from_le_bytes(field), pos + 16))
}

/// Reads an optional 64-bit integer at `pos`: the value and the position behind it.
pub fn take_opt_u64(buf: &[u8], pos: usize) -> (r: Option<(Option<u64>, usize)>)
    requires
        pos <= buf@.len(),
    ensures
        match parse_opt_u64(buf@.skip(pos as int)) {
            Some((v, rest)) => r matches Some((got, next)) && got == v && pos <= next <= buf@.len()
                && rest == buf@.skip(next as int),
            None => r is None,
        },
{
    let (tag, pos1) = match take_u8(buf, pos) {
        Some(x) => x,
        None => {
            return None;
        },
    };
    if tag == 0 {
        Some((None, pos1))
    } else if tag == 1 {
        match take_u64(buf, pos1) {
            Some((v, pos2)) => Some((Some(v), pos2)),
            None => None,
        }
    } else {
        None
    }
}

/// Reads a byte string at `pos`: the value and the position behind it.
pub fn take_bytes(buf: &[u8], pos: usize) -> (r: Option<(Vec<u8>, usize)>)
    requires
        pos <= buf@.len(),
    ensures
        match parse_bytes(buf@.skip(pos as int)) {
            Some((v, rest)) => r matches Some((got, next)) && got@ == v && pos <= next <= buf@.len()
                && rest == buf@.skip(next as int),
            None => r is None,
        },
{
    let (n, pos1) = match take_u64(buf, pos) {
        Some(x) => x,
        None => {
            return None;
        },
    };
    if ((buf.len() - pos1) as u64) < n {
        return None;
    }
    let len = n as usize;
    let field = slice_subrange(buf, pos1, pos1 + len);
    let mut out: Vec<u8> = Vec::new();
    put_raw(&mut out, field);
    assert(out@ =~= field@);
    assert(buf@.skip(pos1 as int).take(n as int) =~= field@);
    assert(buf@.skip(pos1 as int).skip(n as int) =~= buf@.skip(pos1 + len));
    Some((out, pos1 + len))
}

/// Reads an optional byte string at `pos`: the value and the position behind it.
pub fn take_opt_bytes(buf: &[u8], pos: usize) -> (r: Option<(Option<Vec<u8>>, usize)>)
    requires
        pos <= buf@.len(),
    ensures
        match parse_opt_bytes(buf@.skip(pos as int)) {
            Some((v, rest)) => r matches Some((got, next)) && (match got {
                Some(b) => Some(b@),
                None => None,
            }) == v && pos <= next <= buf@.len() && rest == buf@.skip(next as int),
            None => r is None,
        },
{
    let (tag, pos1) = match take_u8(buf, pos) {
        Some(x) => x,
        None => {
            return None;
        },
    };
    if tag == 0 {
        Some((None, pos1))
    } else if tag == 1 {
        match take_bytes(buf, pos1) {
            Some((v, pos2)) => Some((Some(v), pos2)),
            None => None,
        }
    } else {
        None
    }
}

/// Reads an optional string of 32 bytes at `pos`: the value and the position behind it.
pub fn take_opt_fixed(buf: &[u8], pos: usize) -> (r: Option<(Option<[u8; 32]>, usize)>)
    requires
        pos <= buf@.len(),
    ensures
        match parse_opt_fixed(buf@.skip(pos as int)) {
            Some((v, rest)) => r matches Some((got, next)) && (match got {
                Some(b) => Some(b@),
                None => None,
            }) == v && pos <= next <= buf@.len() && rest == buf@.skip(next as int),
            None => r is None,
        },
{
    let (tag, pos1) = match take_u8(buf, pos) {
        Some(x) => x,
        None => {
            return None;
        },
    };
    if tag == 0 {
        Some((None, pos1))
    } else if tag == 1 && buf.len() - pos1 >= 32 {
        let mut out: [u8; 32] = [0u8; 32];
        let mut i: usize = 0;
        while i < 32
            invariant
                i <= 32,
                pos1 + 32 <= buf@.len() <= usize::MAX,
                forall|j: int| 0 <= j < i ==> out@[j] == buf@[pos1 + j],
            decreases 32 - i,
        {
            out[i] = buf[pos1 + i];
            i += 1;
        }
        assert(buf@.skip(pos1 as int).take(32) =~= out@);
        assert(buf@.skip(pos1 as int).skip(32) =~= buf@.skip(pos1 + 32));
        Some((Some(out), pos1 + 32))
    } else {
        None
    }
}

/// Reads a text at `pos`: the value and the position behind it.
pub fn take_text(buf: &[u8], pos: usize) -> (r: Option<(String, usize)>)
    requires
        pos <= buf@.len(),
    ensures
        match parse_text(buf@.skip(pos as int)) {
            Some((v, rest)) => r matches Some((got, next)) && got@ == v && pos <= next <= buf@.len()
                && rest == buf@.skip(next as int),
            None => r is None,
        },
{
    let (b, pos1) = match take_bytes(buf, pos) {
        Some(x) => x,
        None => {
            return None;
        },
    };
    let ghost bytes = b@;
    match text_from_utf8(b) {
        Some(t) => {
            proof {
                encode_utf8_decode_utf8(t@);
            }
            Some((t, pos1))
        },
        None => None,
    }
}

/// Reads an optional text at `pos`: the value and the position behind it.
pub fn take_opt_text(buf: &[u8], pos: usize) -> (r: Option<(Option<String>, usize)>)
    requires
        pos <= buf@.len(),
    ensures
        match parse_opt_text(buf@.skip(pos as int)) {
            Some((v, rest)) => r matches Some((got, next)) && (match got {
                Some(t) => Some(t@),
                None => None,
            }) == v && pos <= next <= buf@.len() && rest == buf@.skip(next as int),
            None => r is None,
        },
{
    let (tag, pos1) = match take_u8(buf, pos) {
        Some(x) => x,
        None => {
            return None;
        },
    };
    if tag == 0 {
        Some((None, pos1))
    } else if tag == 1 {
        match take_text(buf, pos1) {
            Some((v, pos2)) => Some((Some(v), pos2)),
            None => None,
        }
    } else {
        None
    }
}

/// Reads a list of identifiers at `pos`: the value and the position behind it.
pub fn take_ids(buf: &[u8], pos: usize) -> (r: Option<(Vec<u128>, usize)>)
    requires
        pos <= buf@.len(),
    ensures
        match parse_ids(buf@.skip(pos as int)) {
            Some((v, rest)) => r matches Some((got, next)) && got@ == v && pos <= next <= buf@.len()
                && rest == buf@.skip(next as int),
            None => r is None,
        },
{
    let (n, pos1) = match take_u64(buf, pos) {
        Some(x) => x,
        None => {
            return None;
        },
    };
    let ghost body = buf@.skip(pos1 as int);
    let mut out: Vec<u128> = Vec::new();
    let mut p: usize = pos1;
    let mut i: u64 = 0;
    while i < n
        invariant
            i <= n,
            pos1 <= p <= buf@.len(),
            body == buf@.skip(pos1 as int),
            parse_u64(buf@.skip(pos as int)) == Some((n, body)),
            parse_ids_body(body, i as nat) == Some((out@, buf@.skip(p as int))),
        decreases n - i,
    {
        proof {
            lemma_parse_ids_body_step(body, i as nat);
        }
        match take_u128(buf, p) {
            Some((id, pos2)) => {
                out.push(id);
                p = pos2;
            },
            None => {
                proof {
                    lemma_parse_ids_body_none(body, (i + 1) as nat, n as nat);
                }
                return None;
            },
        }
        i += 1;
    }
    Some((out, p))
}

/// A list that cannot be parsed cannot be parsed as a longer list either.
pub proof fn lemma_parse_ids_body_none(s: Seq<u8>, n: nat, m: nat)
    requires
        parse_ids_body(s, n) is None,
        n <= m,
    ensures
        parse_ids_body(s, m) is None,
    decreases m - n,
{
    if n < m {
        lemma_parse_ids_body_step(s, n);
        lemma_parse_ids_body_none(s, n + 1, m);
    }
}

} // verus!
