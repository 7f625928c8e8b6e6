//! Users and their authentication tokens: HS512-signed JWTs whose subject is
//! the user's uuid.
use vstd::prelude::*;

use crate::text::{owned, str_eq};

verus! {

#[derive(Clone, Debug)]
pub struct User {
    pub uuid: String,
    pub display_name: String,
    pub token: String,
}

#[verifier::external_type_specification]
#[verifier::external_body]
pub struct ExJwtError(jwt::Error);

/// Claims as text pairs.
pub open spec fn pair_texts(v: Seq<(String, String)>) -> Seq<(Seq<char>, Seq<char>)> {
    v.map_values(|p: (String, String)| (p.0@, p.1@))
}

/// The claim map a list of pairs makes: a later pair replaces an earlier one
/// with the same name.
pub open spec fn claims_map(pairs: Seq<(Seq<char>, Seq<char>)>) -> Map<Seq<char>, Seq<char>>
    decreases pairs.len(),
{
    if pairs.len() == 0 {
        Map::empty()
    } else {
        claims_map(pairs.drop_last()).insert(pairs.last().0, pairs.last().1)
    }
}

/// No claim name occurs twice.
pub open spec fn distinct_names(pairs: Seq<(Seq<char>, Seq<char>)>) -> bool {
    forall|i: int, j: int| 0 <= i < j < pairs.len() ==> pairs[i].0 != pairs[j].0
}

/// The HS512 JWT that `SignWithKey::sign_with_key` makes for these claims
/// with an HMAC-SHA512 key made of `key`.
pub uninterp spec fn jwt_hs512_token(key: Seq<u8>, claims: Map<Seq<char>, Seq<char>>) -> Seq<char>;

/// The string claims that `VerifyWithKey::verify_with_key` reads from `token`
/// with an HMAC-SHA512 key made of `key`: `None` where it reports an error.
pub uninterp spec fn jwt_hs512_claims(key: Seq<u8>, token: Seq<char>) -> Option<
    Map<Seq<char>, Seq<char>>,
>;

/// `jwt::SignWithKey::sign_with_key` on the claims (as a `BTreeMap`) with the
/// key `Hmac::<Sha512>::new_from_slice(key)`.
/// Claims: it succeeds, with the named token, and verifying that token with
/// the same key gives the claims back. It cannot fail: HMAC takes keys of any
/// length (`new_from_slice` always returns `Ok`), the header it builds names
/// the key's own algorithm, serialising a string-keyed map of strings to JSON
/// does not fail, and HMAC signing returns `Ok`. The claim names are distinct,
/// so the map holds every pair.
#[verifier::external_body]
fn sign_claims(key: &[u8], claims: &Vec<(String, String)>) -> (res: Result<String, jwt::Error>)
    requires
        distinct_names(pair_texts(claims@)),
    ensures
        res is Ok,
        res matches Ok(t) ==> t@ == jwt_hs512_token(key@, claims_map(pair_texts(claims@)))
            && jwt_hs512_claims(key@, t@) == Some(claims_map(pair_texts(claims@))),
{
    let key = <hmac::Hmac<sha2::Sha512> as hmac::Mac>::new_from_slice(key)?;
    let map: std::collections::BTreeMap<String, String> = claims.iter().cloned().collect();
    jwt::SignWithKey::sign_with_key(map, &key)
}

/// `jwt::VerifyWithKey::verify_with_key` on `token` into a `BTreeMap` of
/// strings, with the key `Hmac::<Sha512>::new_from_slice(key)`.
/// Claims: it succeeds exactly where the named claims exist, with those
/// claims, each name once.
#[verifier::external_body]
fn verify_claims(key: &[u8], token: &str) -> (res: Result<Vec<(String, String)>, jwt::Error>)
    ensures
        match res {
            Ok(v) => jwt_hs512_claims(key@, token@) == Some(claims_map(pair_texts(v@)))
                && distinct_names(pair_texts(v@)),
            Err(_) => jwt_hs512_claims(key@, token@) is None,
        },
{
    let key = <hmac::Hmac<sha2::Sha512> as hmac::Mac>::new_from_slice(key)?;
    let claims: std::collections::BTreeMap<String, String> = jwt::VerifyWithKey::verify_with_key(
        token,
        &key,
    )?;
    Ok(claims.into_iter().collect())
}

/// The subject of a claim map.
pub open spec fn subject_of(claims: Map<Seq<char>, Seq<char>>) -> Option<Seq<char>> {
    if claims.contains_key("sub"@) {
        Some(claims["sub"@])
    } else {
        None
    }
}

/// The subject of a token verified with `key`.
pub open spec fn token_subject_spec(key: Seq<u8>, token: Seq<char>) -> Option<Seq<char>> {
    match jwt_hs512_claims(key, token) {
        Some(c) => subject_of(c),
        None => None,
    }
}

/// The claims of a user's token: issued by the API, with the user's uuid as subject.
pub open spec fn user_claims_spec(uuid: Seq<char>) -> Seq<(Seq<char>, Seq<char>)> {
    seq![("iss"@, "API"@), ("sub"@, uuid)]
}

/// The claims of a user's token.
pub fn user_claims(uuid: &str) -> (res: Vec<(String, String)>)
    ensures
        pair_texts(res@) == user_claims_spec(uuid@),
{
    let mut res: Vec<(String, String)> = Vec::new();
    res.push((owned("iss"), owned("API")));
    res.push((owned("sub"), owned(uuid)));
    assert(pair_texts(res@) =~= user_claims_spec(uuid@));
    res
}

proof fn lemma_claims_map_distinct(pairs: Seq<(Seq<char>, Seq<char>)>, i: int)
    requires
        distinct_names(pairs),
        0 <= i < pairs.len(),
    ensures
        claims_map(pairs).contains_key(pairs[i].0),
        claims_map(pairs)[pairs[i].0] == pairs[i].1,
    decreases pairs.len(),
{
    if i < pairs.len() - 1 {
        let prev = pairs.drop_last();
        assert(prev[i] == pairs[i]);
        assert(distinct_names(prev));
        lemma_claims_map_distinct(prev, i);
        assert(pairs.last().0 != pairs[i].0);
    }
}

proof fn lemma_claims_map_absent(pairs: Seq<(Seq<char>, Seq<char>)>, k: Seq<char>)
    requires
        forall|i: int| 0 <= i < pairs.len() ==> pairs[i].0 != k,
    ensures
        !claims_map(pairs).contains_key(k),
    decreases pairs.len(),
{
    if pairs.len() > 0 {
        let prev = pairs.drop_last();
        assert forall|i: int| 0 <= i < prev.len() implies prev[i].0 != k by {
            assert(prev[i] == pairs[i]);
        }
        lemma_claims_map_absent(prev, k);
    }
}

/// The value of the first claim called `name`, from position `i` on.
pub open spec fn first_claim(pairs: Seq<(Seq<char>, Seq<char>)>, name: Seq<char>, i: int) -> Option<
    Seq<char>,
>
    decreases pairs.len() - i,
{
    if i < 0 || i >= pairs.len() {
        None
    } else if pairs[i].0 == name {
        Some(pairs[i].1)
    } else {
        first_claim(pairs, name, i + 1)
    }
}

proof fn lemma_first_claim_is_subject(pairs: Seq<(Seq<char>, Seq<char>)>, i: int)
    requires
        distinct_names(pairs),
        0 <= i <= pairs.len(),
        forall|j: int| 0 <= j < i ==> pairs[j].0 != "sub"@,
    ensures
        first_claim(pairs, "sub"@, i) == subject_of(claims_map(pairs)),
    decreases pairs.len() - i,
{
    if i == pairs.len() {
        lemma_claims_map_absent(pairs, "sub"@);
    } else if pairs[i].0 == "sub"@ {
        lemma_claims_map_distinct(pairs, i);
    } else {
        lemma_first_claim_is_subject(pairs, i + 1);
    }
}

/// The subject of a list of claims: the value of the first claim called `sub`.
pub fn claims_subject(claims: &Vec<(String, String)>) -> (res: Option<String>)
    ensures
        match res {
            Some(s) => first_claim(pair_texts(claims@), "sub"@, 0) == Some(s@),
            None => first_claim(pair_texts(claims@), "sub"@, 0) is None,
        },
{
    let ghost p = pair_texts(claims@);
    let n = claims.len();
    for i in 0..n
        invariant
            n == claims@.len(),
            p == pair_texts(claims@),
            first_claim(p, "sub"@, 0) == first_claim(p, "sub"@, i as int),
    {
        assert(p[i as int] == (claims@[i as int].0@, claims@[i as int].1@));
        if str_eq(claims[i].0.as_str(), "sub") {
            return Some(claims[i].1.clone());
        }
    }
    None
}

/// The subject (user uuid) of a token: `None` unless the token verifies with
/// `key` and names a subject.
pub fn token_subject(key: &[u8], token: &str) -> (res: Option<String>)
    ensures
        match res {
            Some(s) => token_subject_spec(key@, token@) == Some(s@),
            None => token_subject_spec(key@, token@) is None,
        },
{
    match verify_claims(key, token) {
        Ok(claims) => {
            proof {
                lemma_first_claim_is_subject(pair_texts(claims@), 0);
            }
            claims_subject(&claims)
        },
        Err(_) => None,
    }
}

/// Issues the token of the user with uuid `uuid`: the token of the user's
/// claims (issuer `API`, subject the uuid), whose subject is that uuid.
pub fn issue_token(key: &[u8], uuid: &str) -> (res: Option<String>)
    ensures
        res is Some,
        res matches Some(t) ==> t@ == jwt_hs512_token(key@, claims_map(user_claims_spec(uuid@)))
            && token_subject_spec(key@, t@) == Some(uuid@),
{
    let claims = user_claims(uuid);
    let ghost p = user_claims_spec(uuid@);
    proof {
        reveal_strlit("sub");
        reveal_strlit("iss");
        assert("iss"@[0] != "sub"@[0]);
        assert(distinct_names(p));
    }
    match sign_claims(key, &claims) {
        Ok(t) => {
            proof {
                lemma_claims_map_distinct(p, 1);
            }
            Some(t)
        },
        Err(_) => None,
    }
}

} // verus!
