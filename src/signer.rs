//! Building and signing the JWT that asserts a service account's identity.
use vstd::prelude::*;
use vstd::string::*;
use base64::Engine;
use crate::credentials::Credentials;
use crate::json::{json_string, decimal, push_json_string, push_decimal, lemma_decimal_injective};

verus! {

/// Seconds between signing and expiry.
pub const TOKEN_LIFETIME_SECS: u64 = 3600;

/// The JOSE header of every token: RS256 signature, JWT type.
pub const HEADER_JSON: &'static str = "{\"typ\":\"JWT\",\"alg\":\"RS256\"}";

/// Why signing failed.
#[derive(Debug, Clone, Copy, PartialEq, Eq, Structural)]
pub enum SigningError {
    /// The private key is not a PEM-encoded RSA key.
    InvalidKey,
    /// The RSA signing operation failed.
    SigningFailed,
}

/// The claim set of one token.
pub struct Claims {
    pub iss: String,
    pub key: String,
    pub aud: String,
    pub sub: String,
    /// Expiry, in seconds since the Unix epoch.
    pub exp: u64,
}

/// The header text, as characters.
pub open spec fn header_json() -> Seq<char> {
    HEADER_JSON@
}

/// The JSON object of a claim set.
pub open spec fn claims_text(iss: Seq<char>, key: Seq<char>, aud: Seq<char>, sub: Seq<char>, exp: nat)
    -> Seq<char> {
    "{\"iss\":"@ + json_string(iss) + ",\"key\":"@ + json_string(key) + ",\"aud\":"@
        + json_string(aud) + ",\"sub\":"@ + json_string(sub) + ",\"exp\":"@ + decimal(exp) + "}"@
}

/// The claims text of a token signed for `creds` at Unix time `now`.
pub open spec fn claims_of(creds: &Credentials, now: nat) -> Seq<char> {
    claims_text(
        creds.client_id@,
        creds.key_id@,
        creds.token_uri@,
        creds.client_id@,
        (now + TOKEN_LIFETIME_SECS) as nat,
    )
}

/// A character of the URL-safe base64 alphabet.
pub open spec fn is_b64url_char(c: char) -> bool {
    ('A' <= c && c <= 'Z') || ('a' <= c && c <= 'z') || ('0' <= c && c <= '9') || c == '-' || c
        == '_'
}

/// Every character of `s` is of the URL-safe base64 alphabet.
pub open spec fn all_b64url(s: Seq<char>) -> bool {
    forall|i: int| 0 <= i < s.len() ==> is_b64url_char(#[trigger] s[i])
}

/// Unpadded URL-safe base64 of the UTF-8 encoding of `s`.
pub uninterp spec fn b64url(s: Seq<char>) -> Seq<char>;

/// `seg` is the base64url encoding of `text`, and decodes to `text` alone.
pub open spec fn encodes(seg: Seq<char>, text: Seq<char>) -> bool {
    seg == b64url(text) && all_b64url(seg) && forall|x: Seq<char>| #[trigger] b64url(x) == seg ==> x
        == text
}

/// Whether `pem` holds a PEM-encoded RSA key that jsonwebtoken accepts.
pub uninterp spec fn is_rsa_pem(pem: Seq<char>) -> bool;

/// Whether the RS256 signing of `msg` under the key in `pem` succeeds.
pub uninterp spec fn rs256_signs(pem: Seq<char>, msg: Seq<char>) -> bool;

/// The RS256 signature of `msg` under the key in `pem`, in unpadded URL-safe
/// base64.
pub uninterp spec fn rs256_sig(pem: Seq<char>, msg: Seq<char>) -> Seq<char>;

/// `t` is the compact serialization of three parts: the parts joined by dots.
pub open spec fn compact(t: Seq<char>, h: Seq<char>, c: Seq<char>, s: Seq<char>) -> bool {
    t == h + seq!['.'] + c + seq!['.'] + s
}

/// The token signed for `creds` at Unix time `now`: the signing input, a dot,
/// and its RS256 signature under the credentials' key.
pub open spec fn token_text(creds: &Credentials, now: nat) -> Seq<char> {
    signing_input_text(creds, now) + seq!['.'] + rs256_sig(
        creds.private_key@,
        signing_input_text(creds, now),
    )
}

/// Signing for `creds` at Unix time `now` succeeds: the key parses and RS256
/// signs the signing input.
pub open spec fn signs_ok(creds: &Credentials, now: nat) -> bool {
    is_rsa_pem(creds.private_key@) && rs256_signs(creds.private_key@, signing_input_text(creds, now))
}

/// The text whose signature ends a token for `creds` at Unix time `now`.
pub open spec fn signing_input_text(creds: &Credentials, now: nat) -> Seq<char> {
    b64url(header_json()) + seq!['.'] + b64url(claims_of(creds, now))
}

/// `t` is a token signed for `creds` at Unix time `now`: base64url header and
/// claims, and a base64url signature.
pub open spec fn signed_token(t: Seq<char>, creds: &Credentials, now: nat) -> bool {
    exists|h: Seq<char>, c: Seq<char>, s: Seq<char>|
        compact(t, h, c, s) && encodes(h, header_json()) && encodes(c, claims_of(creds, now))
            && all_b64url(s) && h.len() > 0 && c.len() > 0 && s.len() > 0
}

/// Number of occurrences of `c` in `s`.
pub open spec fn count_char(s: Seq<char>, c: char) -> nat
    decreases s.len(),
{
    if s.len() == 0 {
        0
    } else {
        count_char(s.drop_last(), c) + if s.last() == c { 1nat } else { 0nat }
    }
}

#[verifier::external_type_specification]
#[verifier::external_body]
pub struct ExEncodingKey(jsonwebtoken::EncodingKey);

#[verifier::external_type_specification]
#[verifier::external_body]
pub struct ExJwtError(jsonwebtoken::errors::Error);

/// Relies on base64's `Engine::encode` with the `URL_SAFE_NO_PAD` engine: the
/// URL-safe alphabet without padding, over the UTF-8 bytes of `s`; base64 is
/// decoded back to its input, so distinct inputs have distinct encodings.
#[verifier::external_body]
fn b64url_encode(s: &str) -> (r: String)
    ensures
        r@ == b64url(s@),
        all_b64url(r@),
        s@.len() > 0 ==> r@.len() > 0,
        forall|x: Seq<char>| #[trigger] b64url(x) == r@ ==> x == s@,
{
    base64::engine::general_purpose::URL_SAFE_NO_PAD.encode(s)
}

/// Relies on `jsonwebtoken::EncodingKey::from_rsa_pem`: it parses the PEM text,
/// and whether it succeeds depends on that text alone.
#[verifier::external_body]
fn parse_rsa_pem(pem: &str) -> (r: Result<jsonwebtoken::EncodingKey, jsonwebtoken::errors::Error>)
    ensures
        r is Ok <==> is_rsa_pem(pem@),
{
    jsonwebtoken::EncodingKey::from_rsa_pem(pem.as_bytes())
}

/// Relies on `jsonwebtoken::EncodingKey::from_rsa_pem` and then
/// `jsonwebtoken::crypto::sign` with RS256 (RSASSA-PKCS1-v1_5 with SHA-256,
/// whose padding uses no randomness): whether it succeeds and the signature it
/// gives depend on the PEM text and the message alone; the signature comes in
/// unpadded URL-safe base64 and is never empty.
#[verifier::external_body]
fn rs256_sign_pem(pem: &str, message: &str) -> (r: Result<String, jsonwebtoken::errors::Error>)
    ensures
        r is Ok <==> (is_rsa_pem(pem@) && rs256_signs(pem@, message@)),
        r matches Ok(s) ==> s@ == rs256_sig(pem@, message@),
        r matches Ok(s) ==> all_b64url(s@),
        r matches Ok(s) ==> s@.len() > 0,
{
    jsonwebtoken::EncodingKey::from_rsa_pem(pem.as_bytes()).and_then(
        |k| jsonwebtoken::crypto::sign(message.as_bytes(), &k, jsonwebtoken::Algorithm::RS256),
    )
}

impl Claims {
    /// The claims of a token for `creds` signed at Unix time `now`.
    pub fn for_credentials(creds: &Credentials, now: u64) -> (r: Claims)
        requires
            now <= u64::MAX - TOKEN_LIFETIME_SECS,
        ensures
            r.iss@ == creds.client_id@,
            r.sub@ == creds.client_id@,
            r.key@ == creds.key_id@,
            r.aud@ == creds.token_uri@,
            r.exp == now + TOKEN_LIFETIME_SECS,
    {
        Claims {
            iss: creds.client_id.clone(),
            key: creds.key_id.clone(),
            aud: creds.token_uri.clone(),
            sub: creds.client_id.clone(),
            exp: now + TOKEN_LIFETIME_SECS,
        }
    }

    /// The claim set as a JSON object.
    pub fn to_json(&self) -> (r: String)
        ensures
            r@ == claims_text(self.iss@, self.key@, self.aud@, self.sub@, self.exp as nat),
    {
        let mut out = String::from_str("{\"iss\":");
        push_json_string(&mut out, self.iss.as_str());
        out.append(",\"key\":");
        push_json_string(&mut out, self.key.as_str());
        out.append(",\"aud\":");
        push_json_string(&mut out, self.aud.as_str());
        out.append(",\"sub\":");
        push_json_string(&mut out, self.sub.as_str());
        out.append(",\"exp\":");
        push_decimal(&mut out, self.exp);
        out.append("}");
        out
    }
}

/// No character of `s` is a dot.
pub open spec fn dot_free(s: Seq<char>) -> bool {
    forall|i: int| 0 <= i < s.len() ==> #[trigger] s[i] != '.'
}

proof fn lemma_count_concat(a: Seq<char>, b: Seq<char>, c: char)
    ensures
        count_char(a + b, c) == count_char(a, c) + count_char(b, c),
    decreases b.len(),
{
    if b.len() == 0 {
        assert(a + b =~= a);
    } else {
        assert((a + b).drop_last() =~= a + b.drop_last());
        lemma_count_concat(a, b.drop_last(), c);
    }
}

proof fn lemma_b64url_no_dot(s: Seq<char>)
    requires
        all_b64url(s),
    ensures
        count_char(s, '.') == 0,
        dot_free(s),
    decreases s.len(),
{
    if s.len() > 0 {
        assert(is_b64url_char(s[s.len() - 1]));
        assert(all_b64url(s.drop_last()));
        lemma_b64url_no_dot(s.drop_last());
    }
}

/// Splitting at the first dot: a dot-free prefix is determined by the text.
proof fn lemma_split_unique(a1: Seq<char>, r1: Seq<char>, a2: Seq<char>, r2: Seq<char>)
    requires
        dot_free(a1),
        dot_free(a2),
        a1 + seq!['.'] + r1 == a2 + seq!['.'] + r2,
    ensures
        a1 == a2,
        r1 == r2,
{
    let t = a1 + seq!['.'] + r1;
    if a1.len() < a2.len() {
        assert(t[a1.len() as int] == '.');
        assert(t[a1.len() as int] == a2[a1.len() as int]);
    } else if a2.len() < a1.len() {
        assert(t[a2.len() as int] == '.');
        assert(t[a2.len() as int] == a1[a2.len() as int]);
    } else {
        assert(a1 =~= t.subrange(0, a1.len() as int));
        assert(a2 =~= t.subrange(0, a2.len() as int));
        assert(r1 =~= t.subrange((a1.len() + 1) as int, t.len() as int));
        assert(r2 =~= t.subrange((a2.len() + 1) as int, t.len() as int));
    }
}

/// Two claim sets that differ only in expiry have different texts.
proof fn lemma_claims_text_exp(
    iss: Seq<char>,
    key: Seq<char>,
    aud: Seq<char>,
    sub: Seq<char>,
    e1: nat,
    e2: nat,
)
    requires
        e1 != e2,
    ensures
        claims_text(iss, key, aud, sub, e1) != claims_text(iss, key, aud, sub, e2),
{
    let p = "{\"iss\":"@ + json_string(iss) + ",\"key\":"@ + json_string(key) + ",\"aud\":"@
        + json_string(aud) + ",\"sub\":"@ + json_string(sub) + ",\"exp\":"@;
    let q = "}"@;
    let d1 = decimal(e1);
    let d2 = decimal(e2);
    let x1 = claims_text(iss, key, aud, sub, e1);
    let x2 = claims_text(iss, key, aud, sub, e2);
    assert(x1 == p + d1 + q);
    assert(x2 == p + d2 + q);
    if x1 == x2 {
        assert(d1 =~= x1.subrange(p.len() as int, (p.len() + d1.len()) as int));
        assert(d2 =~= x2.subrange(p.len() as int, (p.len() + d2.len()) as int));
        lemma_decimal_injective(e1, e2);
    }
}

/// A token has one split into dot-free header, claims and signature parts: its
/// header decodes to the RS256 header alone, and its claims to
/// `{iss, key, aud, sub, exp}` with issuer and subject the client id, key the
/// key id, audience the token endpoint and expiry one hour after signing.
pub proof fn lemma_token_parts(
    creds: &Credentials,
    now: nat,
    t: Seq<char>,
    h: Seq<char>,
    c: Seq<char>,
    s: Seq<char>,
)
    requires
        signed_token(t, creds, now),
        compact(t, h, c, s),
        dot_free(h),
        dot_free(c),
        dot_free(s),
    ensures
        encodes(h, header_json()),
        encodes(
            c,
            claims_text(
                creds.client_id@,
                creds.key_id@,
                creds.token_uri@,
                creds.client_id@,
                (now + TOKEN_LIFETIME_SECS) as nat,
            ),
        ),
{
    let (h0, c0, s0) = choose|h0: Seq<char>, c0: Seq<char>, s0: Seq<char>|
        compact(t, h0, c0, s0) && encodes(h0, header_json()) && encodes(c0, claims_of(creds, now))
            && all_b64url(s0);
    lemma_b64url_no_dot(h0);
    lemma_b64url_no_dot(c0);
    assert(t == h0 + seq!['.'] + (c0 + seq!['.'] + s0));
    assert(t == h + seq!['.'] + (c + seq!['.'] + s));
    lemma_split_unique(h0, c0 + seq!['.'] + s0, h, c + seq!['.'] + s);
    lemma_split_unique(c0, s0, c, s);
}

/// The third part of a signed token is the RS256 signature, under the
/// credentials' key, of the first two parts joined by a dot.
pub proof fn lemma_signature_part(
    creds: &Credentials,
    now: nat,
    t: Seq<char>,
    h: Seq<char>,
    c: Seq<char>,
    s: Seq<char>,
)
    requires
        t == token_text(creds, now),
        signed_token(t, creds, now),
        compact(t, h, c, s),
        dot_free(h),
        dot_free(c),
        dot_free(s),
    ensures
        h + seq!['.'] + c == signing_input_text(creds, now),
        s == rs256_sig(creds.private_key@, h + seq!['.'] + c),
{
    lemma_token_parts(creds, now, t, h, c, s);
    let m = signing_input_text(creds, now);
    let sig = rs256_sig(creds.private_key@, m);
    assert(m == h + seq!['.'] + c);
    assert(t == m + seq!['.'] + s);
    assert(s =~= t.subrange((m.len() + 1) as int, t.len() as int));
    assert(sig =~= t.subrange((m.len() + 1) as int, t.len() as int));
}

/// Tokens signed for the same credentials at different times differ: each
/// signature is made afresh over a different expiry.
pub proof fn lemma_fresh_tokens(creds: &Credentials, now1: nat, now2: nat, t1: Seq<char>, t2: Seq<char>)
    requires
        now1 != now2,
        signed_token(t1, creds, now1),
        signed_token(t2, creds, now2),
    ensures
        t1 != t2,
{
    let (h1, c1, s1) = choose|h: Seq<char>, c: Seq<char>, s: Seq<char>|
        compact(t1, h, c, s) && encodes(h, header_json()) && encodes(c, claims_of(creds, now1))
            && all_b64url(s);
    let (h2, c2, s2) = choose|h: Seq<char>, c: Seq<char>, s: Seq<char>|
        compact(t2, h, c, s) && encodes(h, header_json()) && encodes(c, claims_of(creds, now2))
            && all_b64url(s);
    if t1 == t2 {
        lemma_b64url_no_dot(h1);
        lemma_b64url_no_dot(c1);
        lemma_b64url_no_dot(h2);
        lemma_b64url_no_dot(c2);
        assert(t1 == h1 + seq!['.'] + (c1 + seq!['.'] + s1));
        assert(t2 == h2 + seq!['.'] + (c2 + seq!['.'] + s2));
        lemma_split_unique(h1, c1 + seq!['.'] + s1, h2, c2 + seq!['.'] + s2);
        lemma_split_unique(c1, s1, c2, s2);
        assert(b64url(claims_of(creds, now2)) == c1);
        lemma_claims_text_exp(
            creds.client_id@,
            creds.key_id@,
            creds.token_uri@,
            creds.client_id@,
            (now1 + TOKEN_LIFETIME_SECS) as nat,
            (now2 + TOKEN_LIFETIME_SECS) as nat,
        );
    }
}

/// The two encoded parts of a token for `creds` at Unix time `now`, and the
/// text that is signed: header and claims joined by a dot.
fn signing_parts(creds: &Credentials, now: u64) -> (r: (String, String, String))
    requires
        now <= u64::MAX - TOKEN_LIFETIME_SECS,
    ensures
        r.0@ == r.1@ + seq!['.'] + r.2@,
        encodes(r.1@, header_json()),
        encodes(r.2@, claims_of(creds, now as nat)),
        r.1@.len() > 0,
        r.2@.len() > 0,
{
    let claims = Claims::for_credentials(creds, now);
    let claims_json = claims.to_json();
    proof {
        reveal_strlit("{\"typ\":\"JWT\",\"alg\":\"RS256\"}");
        reveal_strlit("}");
        assert(HEADER_JSON@.len() > 0);
        assert(claims_json@.len() > 0);
    }
    let h = b64url_encode(HEADER_JSON);
    let c = b64url_encode(claims_json.as_str());
    let mut message = h.clone();
    proof { reveal_strlit("."); }
    message.append(".");
    message.append(c.as_str());
    assert(message@ =~= h@ + seq!['.'] + c@);
    (message, h, c)
}

/// The text whose RS256 signature ends a token for `creds` at Unix time
/// `now`: the base64url header, a dot, and the base64url claims.
pub fn signing_input(creds: &Credentials, now: u64) -> (r: String)
    requires
        now <= u64::MAX - TOKEN_LIFETIME_SECS,
    ensures
        r@ == signing_input_text(creds, now as nat),
{
    let (message, _, _) = signing_parts(creds, now);
    message
}

/// Signs a token for `creds` at Unix time `now` (seconds): the RS256 header and
/// the claims of `Claims::for_credentials`, each in base64url, joined by a dot,
/// then a dot and the base64url RS256 signature of those two parts.
pub fn sign(creds: &Credentials, now: u64) -> (r: Result<String, SigningError>)
    requires
        now <= u64::MAX - TOKEN_LIFETIME_SECS,
    ensures
        r == Err::<String, _>(SigningError::InvalidKey) <==> !is_rsa_pem(creds.private_key@),
        r is Ok <==> signs_ok(creds, now as nat),
        r matches Ok(t) ==> t@ == token_text(creds, now as nat),
        r matches Ok(t) ==> signed_token(t@, creds, now as nat),
        r matches Ok(t) ==> count_char(t@, '.') == 2,
{
    if parse_rsa_pem(creds.private_key.as_str()).is_err() {
        return Err(SigningError::InvalidKey);
    }
    let (message, h, c) = signing_parts(creds, now);
    match rs256_sign_pem(creds.private_key.as_str(), message.as_str()) {
        Ok(sig) => {
            let mut token = message;
            proof { reveal_strlit("."); }
            token.append(".");
            token.append(sig.as_str());
            proof {
                assert(token@ =~= h@ + seq!['.'] + c@ + seq!['.'] + sig@);
                assert(compact(token@, h@, c@, sig@));
                assert(token@ == signing_input_text(creds, now as nat) + seq!['.'] + sig@);
                lemma_b64url_no_dot(h@);
                lemma_b64url_no_dot(c@);
                lemma_b64url_no_dot(sig@);
                lemma_count_concat(h@, seq!['.'], '.');
                lemma_count_concat(h@ + seq!['.'], c@, '.');
                lemma_count_concat(h@ + seq!['.'] + c@, seq!['.'], '.');
                lemma_count_concat(h@ + seq!['.'] + c@ + seq!['.'], sig@, '.');
                let dot = seq!['.'];
                assert(dot.last() == '.');
                assert(dot.drop_last() =~= Seq::<char>::empty());
                assert(count_char(dot.drop_last(), '.') == 0);
                assert(count_char(dot, '.') == 1);
                assert(count_char(token@, '.') == 2);
            }
            Ok(token)
        },
        Err(_) => Err(SigningError::SigningFailed),
    }
}

} // verus!
