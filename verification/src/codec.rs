//! Opaque pagination cursors: URL-safe base64 (without padding) over UTF-8 text.
//!
//! Two cursor shapes are used: the search-index cursor carries a page offset in
//! decimal, the database cursor carries a sort value and a uuid separated by a
//! NUL character.
use base64::Engine as _;
use vstd::prelude::*;
use vstd::utf8::*;

use crate::text::{chars_of, decimal, decimal_string, lemma_parse_decimal, parse_decimal, parse_unsigned, push_char};

verus! {

#[verifier::external_type_specification]
#[verifier::external_body]
pub struct ExDecodeError(base64::DecodeError);

#[verifier::external_type_specification]
#[verifier::external_body]
pub struct ExFromUtf8Error(std::string::FromUtf8Error);

/// What `URL_SAFE_NO_PAD.encode` writes for the given bytes.
pub uninterp spec fn base64_url_encoded(data: Seq<u8>) -> Seq<char>;

/// What `URL_SAFE_NO_PAD.decode` gives for the given text: `None` where it reports an error.
pub uninterp spec fn base64_url_decoded(text: Seq<char>) -> Option<Seq<u8>>;

/// `base64::engine::general_purpose::URL_SAFE_NO_PAD.encode`.
/// Claims: the result is the named encoding of `data`, and the same engine
/// decodes that text back to `data`.
#[verifier::external_body]
fn base64_encode(data: &[u8]) -> (res: String)
    ensures
        res@ == base64_url_encoded(data@),
        base64_url_decoded(res@) == Some(data@),
{
    base64::engine::general_purpose::URL_SAFE_NO_PAD.encode(data)
}

/// `base64::engine::general_purpose::URL_SAFE_NO_PAD.decode` on the UTF-8 bytes of `text`.
/// Claims: it succeeds exactly when the named decoding is defined, with those bytes.
#[verifier::external_body]
fn base64_decode(text: &str) -> (res: Result<Vec<u8>, base64::DecodeError>)
    ensures
        match res {
            Ok(v) => base64_url_decoded(text@) == Some(v@),
            Err(_) => base64_url_decoded(text@) is None,
        },
{
    base64::engine::general_purpose::URL_SAFE_NO_PAD.decode(text)
}

/// `String::from_utf8` from std.
/// Claims: it succeeds exactly on valid UTF-8, with the decoded characters.
#[verifier::external_body]
fn string_from_utf8(bytes: Vec<u8>) -> (res: Result<String, std::string::FromUtf8Error>)
    ensures
        match res {
            Ok(s) => valid_utf8(bytes@) && s@ == decode_utf8(bytes@),
            Err(_) => !valid_utf8(bytes@),
        },
{
    String::from_utf8(bytes)
}

/// The text that UTF-8 `bytes` hold, when they are valid UTF-8.
pub open spec fn utf8_text(bytes: Seq<u8>) -> Option<Seq<char>> {
    if valid_utf8(bytes) {
        Some(decode_utf8(bytes))
    } else {
        None
    }
}

/// Decodes a base64 cursor into its text: `None` where the base64 or the UTF-8 is invalid.
pub open spec fn cursor_text(cursor: Seq<char>) -> Option<Seq<char>> {
    match base64_url_decoded(cursor) {
        Some(bytes) => utf8_text(bytes),
        None => None,
    }
}

/// The cursor that encodes `text`.
pub open spec fn cursor_of_text(text: Seq<char>) -> Seq<char> {
    base64_url_encoded(encode_utf8(text))
}

/// Encodes `text` as a cursor; decoding gives the text back.
fn encode_text(text: &str) -> (res: String)
    ensures
        res@ == cursor_of_text(text@),
        cursor_text(res@) == Some(text@),
{
    let res = base64_encode(text.as_bytes());
    proof {
        encode_utf8_valid_utf8(text@);
        encode_utf8_decode_utf8(text@);
    }
    res
}

/// Decodes a cursor into its text.
fn decode_text(cursor: &str) -> (res: Option<String>)
    ensures
        match res {
            Some(s) => cursor_text(cursor@) == Some(s@),
            None => cursor_text(cursor@) is None,
        },
{
    match base64_decode(cursor) {
        Ok(bytes) => match string_from_utf8(bytes) {
            Ok(s) => Some(s),
            Err(_) => None,
        },
        Err(_) => None,
    }
}

// ---------------------------------------------------------------------------
// Search-index cursor: a page offset
// ---------------------------------------------------------------------------
/// The cursor for the search-index page offset `offset`.
pub open spec fn meili_cursor(offset: nat) -> Seq<char> {
    cursor_of_text(decimal(offset))
}

/// The page offset that a search-index cursor names, if any.
pub open spec fn meili_cursor_offset(cursor: Seq<char>) -> Option<int> {
    match cursor_text(cursor) {
        Some(t) => parse_unsigned(t, usize::MAX as int),
        None => None,
    }
}

/// Encodes a page offset as an opaque cursor. Decoding the cursor gives the offset back.
pub fn encode_meili_cursor(offset: usize) -> (res: String)
    ensures
        res@ == meili_cursor(offset as nat),
        meili_cursor_offset(res@) == Some(offset as int),
{
    let digits = decimal_string(offset as u64);
    let res = encode_text(digits.as_str());
    proof {
        lemma_parse_decimal(offset as nat, usize::MAX as int);
    }
    res
}

/// Decodes a search-index cursor into a page offset: `None` unless the cursor
/// is base64 of UTF-8 text that parses as a `usize`.
pub fn decode_meili_cursor(cursor: &str) -> (res: Option<usize>)
    ensures
        match res {
            Some(v) => meili_cursor_offset(cursor@) == Some(v as int),
            None => meili_cursor_offset(cursor@) is None,
        },
{
    match decode_text(cursor) {
        Some(text) => match parse_decimal(text.as_str(), usize::MAX as u64) {
            Some(v) => Some(v as usize),
            None => None,
        },
        None => None,
    }
}

// ---------------------------------------------------------------------------
// Database cursor: a sort value and a uuid
// ---------------------------------------------------------------------------
/// The separator between the sort value and the uuid.
pub open spec fn nul() -> char {
    '\x00'
}

pub open spec fn has_no_nul(s: Seq<char>) -> bool {
    forall|i: int| 0 <= i < s.len() ==> s[i] != nul()
}

/// `p` is the position of the one and only separator in `s`.
pub open spec fn single_nul_at(s: Seq<char>, p: int) -> bool {
    &&& 0 <= p < s.len()
    &&& s[p] == nul()
    &&& forall|q: int| 0 <= q < s.len() && q != p ==> s[q] != nul()
}

/// How a decoded cursor text splits: into the text before and after its
/// separator when there is exactly one, else into an empty sort value and the
/// whole text as uuid.
pub open spec fn cursor_fields(s: Seq<char>) -> (Seq<char>, Seq<char>) {
    if exists|p: int| single_nul_at(s, p) {
        let p = choose|p: int| single_nul_at(s, p);
        (s.take(p), s.skip(p + 1))
    } else {
        (Seq::empty(), s)
    }
}

/// The text that a database cursor carries.
pub open spec fn cursor_payload(sort_val: Seq<char>, uuid: Seq<char>) -> Seq<char> {
    sort_val + seq![nul()] + uuid
}

/// What a database cursor decodes to, if it decodes at all.
pub open spec fn cursor_parts(cursor: Seq<char>) -> Option<(Seq<char>, Seq<char>)> {
    match cursor_text(cursor) {
        Some(t) => Some(cursor_fields(t)),
        None => None,
    }
}

/// The characters `cs[from..to]` as a string.
fn string_of_range(cs: &Vec<char>, from: usize, to: usize) -> (res: String)
    requires
        from <= to <= cs@.len(),
    ensures
        res@ == cs@.subrange(from as int, to as int),
{
    let mut res = String::new();
    for i in from..to
        invariant
            to <= cs@.len(),
            res@ == cs@.subrange(from as int, i as int),
    {
        push_char(&mut res, cs[i]);
        assert(cs@.subrange(from as int, i + 1) == cs@.subrange(from as int, i as int).push(
            cs@[i as int],
        ));
    }
    res
}

/// Encodes a sort value and a uuid as an opaque cursor. Where neither holds
/// the separator, decoding the cursor gives both back.
pub fn encode_cursor(sort_val: &str, uuid: &str) -> (res: String)
    ensures
        res@ == cursor_of_text(cursor_payload(sort_val@, uuid@)),
        has_no_nul(sort_val@) && has_no_nul(uuid@) ==> cursor_parts(res@) == Some(
            (sort_val@, uuid@),
        ),
{
    let mut payload = sort_val.to_owned();
    push_char(&mut payload, '\x00');
    payload.append(uuid);
    assert(payload@ == cursor_payload(sort_val@, uuid@));
    let res = encode_text(payload.as_str());
    proof {
        if has_no_nul(sort_val@) && has_no_nul(uuid@) {
            let s = payload@;
            let p = sort_val@.len() as int;
            assert(single_nul_at(s, p));
            let q = choose|q: int| single_nul_at(s, q);
            assert(q == p);
            assert(s.take(p) =~= sort_val@);
            assert(s.skip(p + 1) =~= uuid@);
        }
    }
    res
}

/// Decodes a database cursor into a sort value and a uuid: `None` unless it is
/// base64 of UTF-8 text; text without exactly one separator is read as a bare uuid.
pub fn decode_cursor(cursor: &str) -> (res: Option<(String, String)>)
    ensures
        match res {
            Some(parts) => cursor_parts(cursor@) == Some((parts.0@, parts.1@)),
            None => cursor_parts(cursor@) is None,
        },
{
    let text = match decode_text(cursor) {
        Some(t) => t,
        None => return None,
    };
    let cs = chars_of(text.as_str());
    let n = cs.len();
    let mut count: usize = 0;
    let mut first: usize = 0;
    for i in 0..n
        invariant
            n == cs@.len(),
            count <= i,
            count == 0 ==> forall|q: int| 0 <= q < i ==> cs@[q] != nul(),
            count >= 1 ==> first < i && cs@[first as int] == nul() && forall|q: int|
                0 <= q < first ==> cs@[q] != nul(),
            count == 1 ==> forall|q: int| first < q < i ==> cs@[q] != nul(),
            count >= 2 ==> exists|q: int| first < q < i && cs@[q] == nul(),
    {
        if cs[i] == '\x00' {
            if count == 0 {
                first = i;
            }
            if count < 2 {
                count = count + 1;
            }
        }
    }
    let ghost s = cs@;
    if count == 1 {
        proof {
            assert(single_nul_at(s, first as int));
            let q = choose|q: int| single_nul_at(s, q);
            assert(q == first as int);
        }
        let a = string_of_range(&cs, 0, first);
        let b = string_of_range(&cs, first + 1, n);
        assert(s.subrange(0, first as int) == s.take(first as int));
        assert(s.subrange(first + 1, n as int) == s.skip(first + 1));
        Some((a, b))
    } else {
        proof {
            assert forall|p: int| !single_nul_at(s, p) by {
                if single_nul_at(s, p) {
                    if count >= 2 {
                        let q = choose|q: int| first < q < n && s[q] == nul();
                        assert(q != p || first != p);
                    }
                }
            }
        }
        Some((String::new(), text))
    }
}

} // verus!
