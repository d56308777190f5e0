//! Bearer-token authorization of incoming requests.
use vstd::prelude::*;

use crate::error::Error;
use crate::text::{
    count_char, is_prefix, lemma_trim_end_is_prefix, lemma_trim_idempotent, starts_with,
    strip_prefix_repeatedly, trim_class, trim_start_by, trim_start_matches,
    trim_whitespace, CharClass,
};

verus! {

/// The token that an `Authorization` header value carries: the header must
/// begin with `Bearer `; every leading repetition of `Bearer ` is removed,
/// then the whitespace around the rest.
pub open spec fn bearer_token_spec(header: Seq<char>) -> Option<Seq<char>> {
    if is_prefix("Bearer "@, header) {
        Some(trim_whitespace(strip_prefix_repeatedly(header, "Bearer "@)))
    } else {
        None
    }
}

/// The token of an optional `Authorization` header.
pub open spec fn header_token(header: Option<&str>) -> Option<Seq<char>> {
    match header {
        Some(h) => bearer_token_spec(h@),
        None => None,
    }
}

/// Whether `e` is the refusal that every failed authorization gets:
/// unauthorized, with the message `Invalid token`.
pub open spec fn is_invalid_token(e: Error) -> bool {
    e matches Error::Unauthorized(m) && m@ == "Invalid token"@
}

/// The token carried by an `Authorization` header, if it is a bearer token.
pub fn bearer_token(header: Option<&str>) -> (t: Option<String>)
    ensures
        match t {
            Some(s) => header_token(header) == Some(s@),
            None => header_token(header) is None,
        },
{
    match header {
        None => None,
        Some(h) => {
            if !starts_with(h, "Bearer ") {
                return None;
            }
            let stripped = trim_start_matches(h, "Bearer ");
            Some(trim_class(stripped.as_str(), &CharClass::Whitespace))
        },
    }
}

proof fn lemma_strip_bearer_once(x: Seq<char>)
    ensures
        strip_prefix_repeatedly("Bearer "@ + x, "Bearer "@) == strip_prefix_repeatedly(x, "Bearer "@),
        is_prefix("Bearer "@, "Bearer "@ + x),
{
    reveal_strlit("Bearer ");
    let b = "Bearer "@;
    assert((b + x).take(b.len() as int) =~= b);
    assert((b + x).skip(b.len() as int) =~= x);
}

/// Extra `Bearer ` prefixes and the whitespace around a token do not change
/// it, and `Bearer` without its space carries no token: for a `t` that,
/// leading whitespace aside, does not itself begin with `Bearer `, the
/// headers `Bearer t`, `Bearer Bearer t` and `Bearer` followed by `t`
/// trimmed all carry `t` trimmed.
pub proof fn lemma_bearer_prefixes(t: Seq<char>)
    requires
        !is_prefix("Bearer "@, trim_start_by(t, CharClass::Whitespace.pred())),
    ensures
        bearer_token_spec("Bearer "@ + t) == Some(trim_whitespace(t)),
        bearer_token_spec("Bearer "@ + ("Bearer "@ + t)) == Some(trim_whitespace(t)),
        bearer_token_spec("Bearer "@ + trim_whitespace(t)) == Some(trim_whitespace(t)),
        bearer_token_spec("Bearer"@) is None,
{
    reveal_strlit("Bearer ");
    reveal_strlit("Bearer");
    let b = "Bearer "@;
    let ws = CharClass::Whitespace.pred();
    let ts = trim_start_by(t, ws);
    // `t` itself does not begin with `Bearer `: if it did, its first
    // character would not be whitespace and trimming would keep it whole.
    if is_prefix(b, t) {
        assert(t[0] == b[0]);
        assert(ts == t);
        assert(false);
    }
    // Nor does `t` trimmed, which begins like `ts`.
    lemma_trim_end_is_prefix(ts, ws);
    let tt = trim_whitespace(t);
    if is_prefix(b, tt) {
        assert(tt.take(b.len() as int) =~= ts.take(b.len() as int));
        assert(false);
    }
    lemma_strip_bearer_once(t);
    lemma_strip_bearer_once(b + t);
    lemma_strip_bearer_once(tt);
    lemma_trim_idempotent(t, ws);
    assert(!is_prefix(b, "Bearer"@));
}

/// The algorithms with which the service accepts signed tokens.
pub enum SigningAlgorithm {
    /// HMAC with SHA-256.
    Hs256,
}

/// The members of the claims of `token` as `jsonwebtoken::decode` reads
/// them under HS256 and the UTF-8 bytes of `secret`, the checks that depend
/// on the clock left aside: the token splits at its last two `.` into header,
/// payload and signature; the header is base64url JSON naming HS256; the
/// signature is that of `header.payload` under the key; the payload is
/// base64url text of a JSON object. The members are its names, in order,
/// each with the JSON text of its value as written. `None` when any of this
/// fails.
pub uninterp spec fn hs256_claims(token: Seq<char>, secret: Seq<char>) -> Option<
    Seq<(Seq<char>, Seq<char>)>,
>;

/// The text that `raw` denotes when it is one JSON string (surrounding
/// whitespace allowed), as `serde_json::from_str::<String>` reads it; `None`
/// otherwise.
pub uninterp spec fn json_string_of(raw: Seq<char>) -> Option<Seq<char>>;

/// The views of a list of named texts.
pub open spec fn pair_views(v: Seq<(String, String)>) -> Seq<(Seq<char>, Seq<char>)> {
    v.map_values(|p: (String, String)| (p.0@, p.1@))
}

/// How `jsonwebtoken` describes a failure to decode a token (its errors'
/// `Display`): the name of the failure, or a named failure with its detail.
pub open spec fn jwt_failure_text(e: Seq<char>) -> bool {
    ||| e == "InvalidToken"@ || e == "InvalidSignature"@ || e == "InvalidEcdsaKey"@
    ||| e == "ExpiredSignature"@ || e == "RsaFailedSigning"@ || e == "MissingAlgorithm"@
    ||| e == "InvalidIssuer"@ || e == "InvalidAudience"@ || e == "InvalidSubject"@
    ||| e == "ImmatureSignature"@ || e == "InvalidAlgorithm"@ || e == "InvalidKeyFormat"@
    ||| e == "InvalidAlgorithmName"@
    ||| is_prefix("Missing required claim: "@, e) || is_prefix("RSA key invalid: "@, e)
    ||| is_prefix("JSON error: "@, e) || is_prefix("UTF-8 error: "@, e)
    ||| is_prefix("Crypto error: "@, e) || is_prefix("Base64 error: "@, e)
}

/// How `jsonwebtoken` describes the refusal of claims whose signature checked
/// out: they do not read as the claims it validates, a required claim is
/// missing, they have expired (the one check that depends on the clock), or
/// they name an audience, issuer or subject, or a start, that it refuses.
pub open spec fn claims_failure_text(e: Seq<char>) -> bool {
    ||| is_prefix("JSON error: "@, e) || is_prefix("Missing required claim: "@, e)
    ||| e == "ExpiredSignature"@ || e == "ImmatureSignature"@ || e == "InvalidAudience"@
    ||| e == "InvalidIssuer"@ || e == "InvalidSubject"@
}

/// `jsonwebtoken::decode` with the validation of `algorithm` (the crate's
/// defaults otherwise, among them the check of `exp` against the current
/// time) and a key made from the bytes of `secret`. The claims are read as a
/// JSON object whose values are kept as written (`serde_json`'s raw values),
/// so that, as for a claims struct, members other than `sub` are only
/// skipped over; they are given back as name and JSON text, in name order.
/// Claimed: a token with fewer than two `.` is refused, since the crate
/// splits the token into header, claims and signature at its last two `.`
/// before anything else; and a token that passes has been verified under
/// `secret` with HS256, its members being `hs256_claims` of the token and the
/// secret (`verify_signature` in the crate, then the payload read as JSON).
/// Whether a verified token passes also depends on its claims and the clock
/// (`exp`), and is not stated. A failure is given as the crate's description
/// of it (`jwt_failure_text`); once the signature has checked out, only the
/// claims can fail, and the description says so (`claims_failure_text`), as
/// `decode` then only reads the claims and runs `validate` on them.
#[verifier::external_body]
fn decode_claims(token: &str, secret: &str, algorithm: SigningAlgorithm) -> (r: Result<
    Vec<(String, String)>,
    String,
>)
    ensures
        count_char(token@, '.') < 2 ==> r is Err,
        r is Ok ==> hs256_claims(token@, secret@) == Some(pair_views(r->Ok_0@)),
        r is Err ==> jwt_failure_text(r->Err_0@),
        r is Err && hs256_claims(token@, secret@) is Some ==> claims_failure_text(r->Err_0@),
{
    let key = jsonwebtoken::DecodingKey::from_secret(secret.as_bytes());
    let algorithm = match algorithm {
        SigningAlgorithm::Hs256 => jsonwebtoken::Algorithm::HS256,
    };
    let validation = jsonwebtoken::Validation::new(algorithm);
    match jsonwebtoken::decode::<
        std::collections::BTreeMap<String, Box<serde_json::value::RawValue>>,
    >(token, &key, &validation) {
        Ok(data) => Ok(data.claims.into_iter().map(|(n, v)| (n, v.get().to_owned())).collect()),
        Err(e) => Err(e.to_string()),
    }
}

/// `serde_json::from_str::<String>`: the text of one JSON string. Claimed:
/// its result is `json_string_of` of `raw`, since it depends on nothing
/// else.
#[verifier::external_body]
fn json_string(raw: &str) -> (r: Option<String>)
    ensures
        match r {
            Some(t) => json_string_of(raw@) == Some(t@),
            None => json_string_of(raw@) is None,
        },
{
    serde_json::from_str::<String>(raw).ok()
}

/// The JSON text of the first member named `name`.
pub open spec fn member_of(members: Seq<(Seq<char>, Seq<char>)>, name: Seq<char>) -> Option<
    Seq<char>,
>
    decreases members.len(),
{
    if members.len() == 0 {
        None
    } else if members[0].0 == name {
        Some(members[0].1)
    } else {
        member_of(members.drop_first(), name)
    }
}

/// The subject of a token's claims: the text of their `sub` member, when
/// that member is a JSON string.
pub open spec fn subject_of(members: Seq<(Seq<char>, Seq<char>)>) -> Option<Seq<char>> {
    match member_of(members, "sub"@) {
        Some(raw) => json_string_of(raw),
        None => None,
    }
}

/// Whether two texts are the same.
fn same_text(a: &str, b: &str) -> (r: bool)
    ensures
        r == (a@ == b@),
{
    if a.unicode_len() != b.unicode_len() {
        return false;
    }
    let r = starts_with(a, b);
    proof {
        if r {
            assert(a@.take(b@.len() as int) =~= a@);
        } else if a@ == b@ {
            assert(a@.take(b@.len() as int) =~= b@);
        }
    }
    r
}

/// The JSON text of the first member of `members` named `name`.
pub fn member(members: &Vec<(String, String)>, name: &str) -> (r: Option<String>)
    ensures
        match r {
            Some(t) => member_of(pair_views(members@), name@) == Some(t@),
            None => member_of(pair_views(members@), name@) is None,
        },
{
    let ghost all = pair_views(members@);
    let mut i: usize = 0;
    assert(all.skip(0) =~= all);
    while i < members.len()
        invariant
            i <= members.len(),
            all == pair_views(members@),
            member_of(all, name@) == member_of(all.skip(i as int), name@),
        decreases members.len() - i,
    {
        let ghost rest = all.skip(i as int);
        assert(rest[0] == (members@[i as int].0@, members@[i as int].1@));
        if same_text(members[i].0.as_str(), name) {
            return Some(members[i].1.clone());
        }
        assert(rest.drop_first() =~= all.skip(i + 1));
        i = i + 1;
    }
    None
}

/// The subject (`sub`) of a token's claims, when it is a JSON string.
pub fn claims_subject(members: &Vec<(String, String)>) -> (r: Option<String>)
    ensures
        match r {
            Some(t) => subject_of(pair_views(members@)) == Some(t@),
            None => subject_of(pair_views(members@)) is None,
        },
{
    match member(members, "sub") {
        Some(raw) => json_string(raw.as_str()),
        None => None,
    }
}

/// The refusal of a request whose token is missing or invalid.
pub fn invalid_token() -> (e: Error)
    ensures
        is_invalid_token(e),
{
    Error::Unauthorized(String::from_str("Invalid token"))
}

/// Why a request was not authorized.
#[derive(Debug)]
pub enum AuthRefusal {
    /// The `Authorization` header is missing or carries no bearer token.
    NoBearerToken,
    /// The bearer token was rejected, for the reason given.
    InvalidToken(String),
}

impl AuthRefusal {
    /// The error that answers a refused request: every refusal gets the
    /// same `Unauthorized("Invalid token")`.
    pub fn into_error(self) -> (e: Error)
        ensures
            is_invalid_token(e),
    {
        invalid_token()
    }
}

/// The reason given for decoded claims that name no subject.
pub open spec fn missing_subject_reason() -> Seq<char> {
    "missing or non-text `sub` claim"@
}

/// The verdict on a decoded token: it is accepted exactly when it was
/// decoded and its claims name a subject, which is what the request is made
/// for. A decoding failure keeps its reason.
pub fn token_verdict(decoded: Result<Vec<(String, String)>, String>) -> (r: Result<String, String>)
    ensures
        match decoded {
            Err(e) => r == Err::<String, String>(e),
            Ok(claims) => match subject_of(pair_views(claims@)) {
                Some(s) => r is Ok && r->Ok_0@ == s,
                None => r is Err && r->Err_0@ == missing_subject_reason(),
            },
        },
{
    match decoded {
        Err(e) => Err(e),
        Ok(claims) => match claims_subject(&claims) {
            Some(s) => Ok(s),
            None => Err(String::from_str("missing or non-text `sub` claim")),
        },
    }
}

/// Whether `token` checks out under `secret` with HS256 and its claims name
/// `subject`.
pub open spec fn verified_subject(token: Seq<char>, secret: Seq<char>, subject: Seq<char>) -> bool {
    hs256_claims(token, secret) matches Some(c) && subject_of(c) == Some(subject)
}

/// What the decoder may answer for `token` under `secret`: its members when
/// the token checks out, or a failure described as `jsonwebtoken` does, and
/// only a refusal of the claims once the signature has checked out.
pub open spec fn decoder_answer(
    token: Seq<char>,
    secret: Seq<char>,
    d: Result<Seq<(Seq<char>, Seq<char>)>, Seq<char>>,
) -> bool {
    &&& count_char(token, '.') < 2 ==> d is Err
    &&& d matches Ok(c) ==> hs256_claims(token, secret) == Some(c)
    &&& d matches Err(e) ==> jwt_failure_text(e)
    &&& (d is Err && hs256_claims(token, secret) is Some) ==> claims_failure_text(d->Err_0)
}

/// The verdict on a decoder's answer, as texts (see `token_verdict`).
pub open spec fn verdict_of(d: Result<Seq<(Seq<char>, Seq<char>)>, Seq<char>>) -> Result<
    Seq<char>,
    Seq<char>,
> {
    match d {
        Err(e) => Err(e),
        Ok(c) => match subject_of(c) {
            Some(s) => Ok(s),
            None => Err(missing_subject_reason()),
        },
    }
}

/// The texts of a verdict.
pub open spec fn outcome_view(r: Result<String, String>) -> Result<Seq<char>, Seq<char>> {
    match r {
        Ok(s) => Ok(s@),
        Err(e) => Err(e@),
    }
}

/// Whether `out` is the verdict on some answer that the decoder may give
/// for `token` under `secret`.
pub open spec fn possible_outcome(
    token: Seq<char>,
    secret: Seq<char>,
    out: Result<Seq<char>, Seq<char>>,
) -> bool {
    exists|d: Result<Seq<(Seq<char>, Seq<char>)>, Seq<char>>|
        #[trigger] decoder_answer(token, secret, d) && verdict_of(d) == out
}

/// Checks a bearer token against the signing secret: the token must be
/// signed with HS256 under `secret`, pass the decoder's other checks, and
/// name its subject, which is given back. A refusal gives its reason. The
/// outcome is the verdict on what the decoder answered.
pub fn check_token(token: &str, secret: &str) -> (r: Result<String, String>)
    ensures
        count_char(token@, '.') < 2 ==> r is Err,
        r is Ok ==> verified_subject(token@, secret@, r->Ok_0@),
        possible_outcome(token@, secret@, outcome_view(r)),
{
    let decoded = decode_claims(token, secret, SigningAlgorithm::Hs256);
    let ghost d = match &decoded {
        Ok(c) => Ok::<Seq<(Seq<char>, Seq<char>)>, Seq<char>>(pair_views(c@)),
        Err(e) => Err(e@),
    };
    let r = token_verdict(decoded);
    assert(decoder_answer(token@, secret@, d));
    assert(verdict_of(d) == outcome_view(r));
    r
}

/// A token that checks out under the secret and names a subject in a JSON
/// string is accepted with that subject, unless the decoder refuses its
/// claims (they have expired, lack a required claim, or name an audience it
/// refuses); any success is such a token's subject.
pub proof fn lemma_checked_token_outcome(
    token: Seq<char>,
    secret: Seq<char>,
    out: Result<Seq<char>, Seq<char>>,
)
    requires
        possible_outcome(token, secret, out),
    ensures
        hs256_claims(token, secret) is Some && subject_of(hs256_claims(token, secret)->0) is Some
            ==> (out == Ok::<Seq<char>, Seq<char>>(subject_of(hs256_claims(token, secret)->0)->0)
            || (out is Err && claims_failure_text(out->Err_0))),
        out matches Ok(s) ==> verified_subject(token, secret, s),
        hs256_claims(token, secret) is None ==> out is Err,
{
    let d = choose|d: Result<Seq<(Seq<char>, Seq<char>)>, Seq<char>>|
        #[trigger] decoder_answer(token, secret, d) && verdict_of(d) == out;
    assert(decoder_answer(token, secret, d) && verdict_of(d) == out);
}

/// The texts of an authorization outcome once a bearer token was found.
pub open spec fn auth_outcome(r: Result<String, AuthRefusal>) -> Result<Seq<char>, Seq<char>> {
    match r {
        Ok(s) => Ok(s@),
        Err(AuthRefusal::InvalidToken(e)) => Err(e@),
        Err(AuthRefusal::NoBearerToken) => Err(Seq::empty()),
    }
}

/// Authorizes a request from its `Authorization` header (absent when the
/// header is missing or is not visible ASCII) against the signing secret:
/// the header must carry a bearer token, signed with HS256 under `secret`,
/// that passes the decoder's other checks and names its subject. On success
/// gives the subject.
pub fn authorize(header: Option<&str>, secret: &str) -> (r: Result<String, AuthRefusal>)
    ensures
        (r matches Err(AuthRefusal::NoBearerToken)) <==> header_token(header) is None,
        r is Ok ==> (header_token(header) matches Some(t) && count_char(t, '.') >= 2
            && verified_subject(t, secret@, r->Ok_0@)),
        header_token(header) is Some ==> possible_outcome(
            header_token(header)->0,
            secret@,
            auth_outcome(r),
        ),
{
    let token = match bearer_token(header) {
        Some(t) => t,
        None => return Err(AuthRefusal::NoBearerToken),
    };
    match check_token(token.as_str(), secret) {
        Ok(subject) => Ok(subject),
        Err(reason) => Err(AuthRefusal::InvalidToken(reason)),
    }
}

} // verus!
