//! The bearer token: the signed assertion that asks for one, the exchange at
//! the token endpoint, and the rule that says how long a token may be used.
use vstd::prelude::*;
use vstd::utf8::encode_utf8;
use crate::api::firebase::decimal::{digit_char, digits, u64_to_decimal};
use crate::utils::text::{chars_of, push_char};
use crate::api::firebase::http::{
    is_success, Body, BodyModel, FirebaseError, Method, Request, RequestModel, Response,
};
use crate::api::firebase::json::JsonModel;

verus! {

/// How long a token is taken to be valid, in seconds.
pub const TOKEN_LIFETIME: u64 = 3600;

/// A cached token is used only while more than this many seconds of its
/// validity remain.
pub const FRESHNESS_BUFFER: u64 = 60;

/// The address of the token endpoint, which is also the audience of the
/// assertion.
pub open spec fn token_endpoint() -> Seq<char> {
    "https://oauth2.googleapis.com/token"@
}

/// The scope that the assertion asks for.
pub open spec fn datastore_scope() -> Seq<char> {
    "https://www.googleapis.com/auth/datastore"@
}

/// The grant type of the exchange.
pub open spec fn jwt_bearer_grant() -> Seq<char> {
    "urn:ietf:params:oauth:grant-type:jwt-bearer"@
}

/// Whether a token that expires at `expires_at` may still be used at `now`:
/// more than the buffer of its validity remains.
pub open spec fn is_fresh(expires_at: int, now: int) -> bool {
    expires_at > now + FRESHNESS_BUFFER
}

/// The token that a cache hands out at `now`: the token it holds, while
/// that token is fresh. `None` tells the caller to exchange a new assertion.
pub open spec fn usable_token(cached: Option<(Seq<char>, int)>, now: int) -> Option<Seq<char>> {
    match cached {
        Some((token, expires_at)) => if is_fresh(expires_at, now) {
            Some(token)
        } else {
            None
        },
        None => None,
    }
}

/// Token cache freshness. While a cached token is fresh, every request for
/// a token gets that same token, so nothing is exchanged; once no more than
/// the buffer of its validity remains, a request gets none and one exchange
/// is due. The token that this exchange stores at `first`, valid for the
/// lifetime of a token, is handed out at every later time that is less than
/// the lifetime without the buffer away.
pub proof fn lemma_token_cache_freshness(
    token: Seq<char>,
    expires_at: int,
    first: int,
    second: int,
    renewed: Seq<char>,
)
    ensures
        is_fresh(expires_at, first) && is_fresh(expires_at, second) ==> usable_token(
            Some((token, expires_at)),
            first,
        ) == Some(token) && usable_token(Some((token, expires_at)), second) == Some(token),
        expires_at - first <= FRESHNESS_BUFFER ==> usable_token(Some((token, expires_at)), first)
            is None,
        first <= second && second - first < TOKEN_LIFETIME - FRESHNESS_BUFFER ==> usable_token(
            Some((renewed, first + TOKEN_LIFETIME)),
            second,
        ) == Some(renewed),
{
}

/// The claims of the assertion that asks for a token.
#[derive(Clone, Debug, PartialEq, Eq)]
pub struct Claims {
    pub iss: String,
    pub sub: String,
    pub aud: String,
    pub iat: u64,
    pub exp: u64,
    pub scope: String,
}

/// The mathematical value of [`Claims`].
pub struct ClaimsModel {
    pub iss: Seq<char>,
    pub sub: Seq<char>,
    pub aud: Seq<char>,
    pub iat: u64,
    pub exp: u64,
    pub scope: Seq<char>,
}

impl View for Claims {
    type V = ClaimsModel;

    open spec fn view(&self) -> ClaimsModel {
        ClaimsModel {
            iss: self.iss@,
            sub: self.sub@,
            aud: self.aud@,
            iat: self.iat,
            exp: self.exp,
            scope: self.scope@,
        }
    }
}

/// The claims that the service account `email` makes at `now`: it is both
/// issuer and subject, the audience is the token endpoint, and the assertion
/// holds for the lifetime of a token.
pub open spec fn claims_at(email: Seq<char>, now: u64) -> ClaimsModel {
    ClaimsModel {
        iss: email,
        sub: email,
        aud: token_endpoint(),
        iat: now,
        exp: (now + TOKEN_LIFETIME) as u64,
        scope: datastore_scope(),
    }
}

/// Builds the claims of the assertion.
pub fn assertion_claims(email: &str, now: u64) -> (claims: Claims)
    requires
        now + TOKEN_LIFETIME <= u64::MAX,
    ensures
        claims@ == claims_at(email@, now),
{
    Claims {
        iss: email.to_string(),
        sub: email.to_string(),
        aud: "https://oauth2.googleapis.com/token".to_string(),
        iat: now,
        exp: now + TOKEN_LIFETIME,
        scope: "https://www.googleapis.com/auth/datastore".to_string(),
    }
}

/// The character of a hexadecimal digit, in lower case.
pub open spec fn hex_digit(d: int) -> char {
    if d < 10 {
        digit_char(d)
    } else if d == 10 {
        'a'
    } else if d == 11 {
        'b'
    } else if d == 12 {
        'c'
    } else if d == 13 {
        'd'
    } else if d == 14 {
        'e'
    } else {
        'f'
    }
}

/// A character as it stands inside a JSON string: a quotation mark and a
/// backslash after a backslash, the control characters by their short
/// escapes or as `\u00` and two hexadecimal digits, every other character
/// as it is.
pub open spec fn escaped_char(c: char) -> Seq<char> {
    let code = c as u32;
    if c == '"' {
        seq!['\\', '"']
    } else if c == '\\' {
        seq!['\\', '\\']
    } else if code == 8 {
        seq!['\\', 'b']
    } else if code == 9 {
        seq!['\\', 't']
    } else if code == 10 {
        seq!['\\', 'n']
    } else if code == 12 {
        seq!['\\', 'f']
    } else if code == 13 {
        seq!['\\', 'r']
    } else if code < 32 {
        seq!['\\', 'u', '0', '0', hex_digit(code as int / 16), hex_digit(code as int % 16)]
    } else {
        seq![c]
    }
}

/// The first `upto` characters of `s` as they stand inside a JSON string.
pub open spec fn escaped(s: Seq<char>, upto: int) -> Seq<char>
    decreases upto,
{
    if upto <= 0 {
        Seq::empty()
    } else {
        escaped(s, upto - 1) + escaped_char(s[upto - 1])
    }
}

/// A text as a JSON string: between quotation marks, each character
/// escaped where JSON asks for it.
pub open spec fn json_string(s: Seq<char>) -> Seq<char> {
    seq!['"'] + escaped(s, s.len() as int) + seq!['"']
}

/// The character of a hexadecimal digit.
fn hex_char(d: u32) -> (c: char)
    requires
        d < 16,
    ensures
        c == hex_digit(d as int),
{
    if d == 0 {
        '0'
    } else if d == 1 {
        '1'
    } else if d == 2 {
        '2'
    } else if d == 3 {
        '3'
    } else if d == 4 {
        '4'
    } else if d == 5 {
        '5'
    } else if d == 6 {
        '6'
    } else if d == 7 {
        '7'
    } else if d == 8 {
        '8'
    } else if d == 9 {
        '9'
    } else if d == 10 {
        'a'
    } else if d == 11 {
        'b'
    } else if d == 12 {
        'c'
    } else if d == 13 {
        'd'
    } else if d == 14 {
        'e'
    } else {
        'f'
    }
}

/// Writes a text as a JSON string at the end of `out`.
pub fn append_json_string(out: &mut String, s: &str)
    ensures
        final(out)@ == old(out)@ + json_string(s@),
{
    let chars = chars_of(s);
    let ghost before = out@;
    push_char(out, '"');
    let mut i: usize = 0;
    assert(out@ =~= before + (seq!['"'] + escaped(s@, 0)));
    while i < chars.len()
        invariant
            i <= chars.len(),
            chars@ == s@,
            out@ == before + (seq!['"'] + escaped(s@, i as int)),
        decreases chars.len() - i,
    {
        let c = chars[i];
        let code = c as u32;
        let ghost so_far = out@;
        if c == '"' {
            push_char(out, '\\');
            push_char(out, '"');
        } else if c == '\\' {
            push_char(out, '\\');
            push_char(out, '\\');
        } else if code == 8 {
            push_char(out, '\\');
            push_char(out, 'b');
        } else if code == 9 {
            push_char(out, '\\');
            push_char(out, 't');
        } else if code == 10 {
            push_char(out, '\\');
            push_char(out, 'n');
        } else if code == 12 {
            push_char(out, '\\');
            push_char(out, 'f');
        } else if code == 13 {
            push_char(out, '\\');
            push_char(out, 'r');
        } else if code < 32 {
            push_char(out, '\\');
            push_char(out, 'u');
            push_char(out, '0');
            push_char(out, '0');
            push_char(out, hex_char(code / 16));
            push_char(out, hex_char(code % 16));
        } else {
            push_char(out, c);
        }
        assert(out@ =~= so_far + escaped_char(c));
        assert(out@ =~= before + (seq!['"'] + escaped(s@, i + 1)));
        i += 1;
    }
    push_char(out, '"');
    assert(out@ =~= before + json_string(s@));
}

/// The header of the assertion, as JSON text: a JSON Web Token signed with
/// RS256.
pub open spec fn header_text() -> Seq<char> {
    "{\"typ\":\"JWT\",\"alg\":\"RS256\"}"@
}

/// The claims of an assertion as JSON text: issuer, subject, audience, the
/// instant of issue, the instant of expiry and the scope, in this order.
pub open spec fn claims_text(claims: ClaimsModel) -> Seq<char> {
    "{\"iss\":"@ + json_string(claims.iss) + ",\"sub\":"@ + json_string(claims.sub)
        + ",\"aud\":"@ + json_string(claims.aud) + ",\"iat\":"@ + digits(claims.iat as nat)
        + ",\"exp\":"@ + digits(claims.exp as nat) + ",\"scope\":"@ + json_string(claims.scope)
        + "}"@
}

/// Writes the claims of an assertion as JSON text.
pub fn write_claims(claims: &Claims) -> (text: String)
    ensures
        text@ == claims_text(claims@),
{
    let mut text = String::from_str("{\"iss\":");
    append_json_string(&mut text, claims.iss.as_str());
    text.append(",\"sub\":");
    append_json_string(&mut text, claims.sub.as_str());
    text.append(",\"aud\":");
    append_json_string(&mut text, claims.aud.as_str());
    text.append(",\"iat\":");
    let iat = u64_to_decimal(claims.iat);
    text.append(iat.as_str());
    text.append(",\"exp\":");
    let exp = u64_to_decimal(claims.exp);
    text.append(exp.as_str());
    text.append(",\"scope\":");
    append_json_string(&mut text, claims.scope.as_str());
    text.append("}");
    text
}

/// Bytes in base64 with the URL-safe alphabet and without padding, as the
/// crate `base64` writes them.
pub uninterp spec fn base64url(bytes: Seq<u8>) -> Seq<char>;

/// Encodes bytes with `Engine::encode` of the crate `base64`, on its engine
/// `URL_SAFE_NO_PAD`. The result is named, not described.
#[verifier::external_body]
fn base64url_encode(bytes: &Vec<u8>) -> (text: String)
    ensures
        text@ == base64url(bytes@),
{
    base64::Engine::encode(&base64::engine::general_purpose::URL_SAFE_NO_PAD, bytes)
}

/// The RS256 signature of a message under a PEM-encoded RSA private key:
/// RSASSA-PKCS1-v1_5 over SHA-256, as the crate `rsa` computes it. `None`
/// where the text is no RSA private key in PKCS#8 or PKCS#1 form, or the
/// key cannot sign.
pub uninterp spec fn rs256_signature(private_key_pem: Seq<char>, message: Seq<u8>) -> Option<
    Seq<u8>,
>;

/// Signs a message with the crate `rsa`: reads the key with
/// `DecodePrivateKey::from_pkcs8_pem` or, failing that, with
/// `DecodeRsaPrivateKey::from_pkcs1_pem`, and signs with `Signer::try_sign`
/// of `pkcs1v15::SigningKey<Sha256>`. That signer uses no randomness and
/// reports a key that cannot sign as an error, which is `None` here. The
/// result is named, not described.
#[verifier::external_body]
fn rs256_sign(private_key_pem: &str, message: &Vec<u8>) -> (signature: Option<Vec<u8>>)
    ensures
        match signature {
            Some(bytes) => rs256_signature(private_key_pem@, message@) == Some(bytes@),
            None => rs256_signature(private_key_pem@, message@) is None,
        },
{
    let key: rsa::RsaPrivateKey = match rsa::pkcs8::DecodePrivateKey::from_pkcs8_pem(private_key_pem) {
        Ok(key) => key,
        Err(_) => match rsa::pkcs1::DecodeRsaPrivateKey::from_pkcs1_pem(private_key_pem) {
            Ok(key) => key,
            Err(_) => return None,
        },
    };
    let signer = rsa::pkcs1v15::SigningKey::<rsa::sha2::Sha256>::new(key);
    match rsa::signature::Signer::try_sign(&signer, message.as_slice()) {
        Ok(signature) => Some(rsa::signature::SignatureEncoding::to_vec(&signature)),
        Err(_) => None,
    }
}

/// What is signed: the header and the claims, each as the base64 of its
/// JSON text, joined by a full stop.
pub open spec fn signing_input(claims: ClaimsModel) -> Seq<char> {
    base64url(encode_utf8(header_text())) + "."@ + base64url(encode_utf8(claims_text(claims)))
}

/// The signed assertion: what is signed, a full stop, and the base64 of the
/// RS256 signature of it under the key. `None` where the key cannot sign.
pub open spec fn signed_assertion(private_key_pem: Seq<char>, claims: ClaimsModel) -> Option<
    Seq<char>,
> {
    match rs256_signature(private_key_pem, encode_utf8(signing_input(claims))) {
        Some(signature) => Some(signing_input(claims) + "."@ + base64url(signature)),
        None => None,
    }
}

/// Signs the claims with the key: a JSON Web Token in compact form.
pub fn sign_assertion(claims: &Claims, private_key_pem: &str) -> (assertion: Option<String>)
    ensures
        match assertion {
            Some(text) => signed_assertion(private_key_pem@, claims@) == Some(text@),
            None => signed_assertion(private_key_pem@, claims@) is None,
        },
{
    let header = String::from_str("{\"typ\":\"JWT\",\"alg\":\"RS256\"}");
    let header_bytes = header.as_str().as_bytes_vec();
    let mut input = base64url_encode(&header_bytes);
    input.append(".");
    let claims_bytes = write_claims(claims).as_str().as_bytes_vec();
    let encoded_claims = base64url_encode(&claims_bytes);
    input.append(encoded_claims.as_str());
    let input_bytes = input.as_str().as_bytes_vec();
    match rs256_sign(private_key_pem, &input_bytes) {
        Some(signature) => {
            let encoded_signature = base64url_encode(&signature);
            input.append(".");
            input.append(encoded_signature.as_str());
            Some(input)
        },
        None => None,
    }
}

/// The request that exchanges a signed assertion for a token: an
/// unauthenticated form post to the token endpoint.
pub open spec fn exchange_request(assertion: Seq<char>) -> RequestModel {
    RequestModel {
        method: Method::Post,
        url: token_endpoint(),
        bearer: None,
        body: BodyModel::Form(
            seq![("grant_type"@, jwt_bearer_grant()), ("assertion"@, assertion)],
        ),
    }
}

/// Builds the request that exchanges `assertion` for a token.
pub fn token_exchange_request(assertion: &str) -> (request: Request)
    ensures
        request@ == exchange_request(assertion@),
{
    let mut form: Vec<(String, String)> = Vec::new();
    form.push(
        ("grant_type".to_string(), "urn:ietf:params:oauth:grant-type:jwt-bearer".to_string()),
    );
    form.push(("assertion".to_string(), assertion.to_string()));
    let request = Request {
        method: Method::Post,
        url: "https://oauth2.googleapis.com/token".to_string(),
        bearer: None,
        body: Body::Form(form),
    };
    assert(request@.body->Form_0 =~= seq![
        ("grant_type"@, jwt_bearer_grant()),
        ("assertion"@, assertion@),
    ]);
    request
}

/// Signs the assertion of the service account `email` at `now` and builds
/// the exchange request around it; a key that cannot sign gives `Signing`.
pub fn signed_exchange_request(email: &str, private_key_pem: &str, now: u64) -> (outcome: Result<
    Request,
    FirebaseError,
>)
    requires
        now + TOKEN_LIFETIME <= u64::MAX,
    ensures
        match outcome {
            Ok(request) => signed_assertion(private_key_pem@, claims_at(email@, now))
                matches Some(assertion) && request@ == exchange_request(assertion),
            Err(e) => e == FirebaseError::Signing && signed_assertion(
                private_key_pem@,
                claims_at(email@, now),
            ) is None,
        },
{
    let claims = assertion_claims(email, now);
    match sign_assertion(&claims, private_key_pem) {
        Some(assertion) => Ok(token_exchange_request(assertion.as_str())),
        None => Err(FirebaseError::Signing),
    }
}

/// The token in the answer of the token endpoint: the text under
/// `access_token`.
pub open spec fn access_token(answer: Option<JsonModel>) -> Option<Seq<char>> {
    match answer {
        Some(json) => match json.get("access_token"@) {
            Some(JsonModel::Text(token)) => Some(token),
            _ => None,
        },
        None => None,
    }
}

/// Reads the answer of the token endpoint. A refusal carries the endpoint's
/// status and body; nothing is tried again.
pub fn read_token_exchange(response: &Response) -> (outcome: Result<String, FirebaseError>)
    ensures
        !is_success(response.status) ==> (outcome matches Err(e) && e.is_auth_error_of(
            response@,
        )),
        is_success(response.status) ==> match access_token(response@.json) {
            Some(token) => outcome matches Ok(t) && t@ == token,
            None => outcome == Err::<String, FirebaseError>(FirebaseError::MalformedResponse),
        },
{
    if !response.succeeded() {
        return Err(FirebaseError::Auth { status: response.status, body: response.text.clone() });
    }
    match &response.json {
        Some(json) => match json.get("access_token") {
            Some(found) => match found.as_str() {
                Some(token) => Ok(token.to_string()),
                None => Err(FirebaseError::MalformedResponse),
            },
            None => Err(FirebaseError::MalformedResponse),
        },
        None => Err(FirebaseError::MalformedResponse),
    }
}

} // verus!
