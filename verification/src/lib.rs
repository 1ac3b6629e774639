//! Client library for a cryptocurrency exchange's REST API: public market
//! data and private, authenticated account and position queries for
//! perpetual futures.
//!
//! The core is the request authentication subsystem: a canonical prehash
//! string is assembled from the method, path, query string, body hash and
//! timestamp, HMAC-SHA512-signed with the configured secret, and the
//! resulting headers are handed to an HTTP transport that lives outside
//! this crate.

pub mod errors;
pub mod hexstr;
pub mod decstr;
pub mod crypto;
pub mod signing;
pub mod futures;

use vstd::prelude::*;

pub use crate::errors::GateError;

use crate::crypto::{hmac_sha512, sha512_digest, sha512_of};
use crate::decstr::{dec_chars_of, u64_to_dec_string};
use crate::hexstr::{hex_chars_of, hex_encode, is_lower_hex_char, lemma_hex_chars_shape};
use crate::signing::{
    header_value_ok, is_valid_header_value, prehash_chars, signature_chars,
};
use vstd::string::{StringExecFns, StringSliceAdditionalSpecFns};
use vstd::utf8::encode_utf8;

verus! {

/// Base URL that all endpoint paths are appended to, including the
/// versioned mount point of the API.
pub const LIVE_URL: &'static str = "https://api.gateio.ws/api/v4";

/// The exchange client. Credentials are optional: a client built without
/// them can only perform public, unauthenticated queries, and any signed
/// operation fails with `MissingCredential`.
pub struct GateSDK {
    pub api_key: Option<String>,
    pub api_secret: Option<String>,
}

impl GateSDK {
    /// Both credentials are either present or absent: `new` sets both,
    /// `new_readonly` neither.
    pub open spec fn wf(&self) -> bool {
        self.api_key is Some <==> self.api_secret is Some
    }

    /// True when the client can sign requests.
    pub open spec fn has_credentials(&self) -> bool {
        self.api_key is Some && self.api_secret is Some
    }

    pub fn new(api_key: String, api_secret: String) -> (r: Self)
        ensures
            r.wf(),
            r.has_credentials(),
            r.api_key->0 == api_key,
            r.api_secret->0 == api_secret,
    {
        GateSDK { api_key: Some(api_key), api_secret: Some(api_secret) }
    }

    pub fn new_readonly() -> (r: Self)
        ensures
            r.wf(),
            !r.has_credentials(),
    {
        GateSDK { api_key: None, api_secret: None }
    }

    /// Sign an arbitrary message with the configured secret: the lowercase
    /// hex HMAC-SHA512 tag, 128 characters. Fails with `MissingCredential`
    /// on a read-only client, and with nothing else.
    pub fn sign_request(&self, request: String) -> (r: Result<String, GateError>)
        ensures
            r is Ok <==> self.api_secret is Some,
            r is Ok ==> r->Ok_0@ == signature_chars(self.api_secret->0@, request@),
            r is Ok ==> r->Ok_0@.len() == 128 && forall|i: int|
                0 <= i < 128 ==> is_lower_hex_char(#[trigger] r->Ok_0@[i]),
            r is Err ==> r->Err_0 is MissingCredential,
    {
        let secret = match &self.api_secret {
            Some(s) => s,
            None => {
                return Err(GateError::MissingCredential);
            },
        };
        let tag = hmac_sha512(secret.as_str().as_bytes(), request.as_str().as_bytes());
        proof {
            lemma_hex_chars_shape(tag@);
        }
        Ok(hex_encode(tag.as_slice()))
    }
}

/// A fully assembled private request: the URL to call and the values of
/// the `KEY`, `Timestamp` and `SIGN` headers. The `Content-Type` header is
/// always `application/json`.
#[derive(Debug, Clone)]
pub struct SignedRequest {
    pub url: String,
    pub api_key: String,
    pub timestamp: String,
    pub signature: String,
}

/// The fixed versioned base path the service mounts under; every signed
/// path begins with it.
pub open spec fn api_prefix_chars() -> Seq<char> {
    "/api/v4"@
}

/// The URL of a request: the base URL, the endpoint path, and the query
/// string after a `?` when one is present.
pub open spec fn url_chars(endpoint: Seq<char>, query: Seq<char>) -> Seq<char> {
    LIVE_URL@ + endpoint + if query.len() == 0 {
        Seq::<char>::empty()
    } else {
        seq!['?'] + query
    }
}

/// What a correctly signed request looks like for the given credentials,
/// request fields and timestamp: the header values are exactly the key,
/// the decimal timestamp, and the signature over the canonical prehash of
/// the full path, query, body hash and that same timestamp.
pub open spec fn signed_request_matches(
    sr: SignedRequest,
    api_key: Seq<char>,
    secret: Seq<char>,
    method: Seq<char>,
    endpoint: Seq<char>,
    query: Seq<char>,
    body: Seq<u8>,
    timestamp: nat,
) -> bool {
    &&& sr.api_key@ == api_key
    &&& sr.timestamp@ == dec_chars_of(timestamp)
    &&& sr.signature@ == signature_chars(
        secret,
        prehash_chars(
            method,
            api_prefix_chars() + endpoint,
            query,
            hex_chars_of(sha512_of(body)),
            dec_chars_of(timestamp),
        ),
    )
    &&& sr.url@ == url_chars(endpoint, query)
}

/// The canonical message signed for a request determines every field of
/// the request: two requests whose prehash strings agree have the same
/// method, endpoint path, query string, body hash and timestamp, provided
/// no field contains a newline. Changing any one of those fields
/// therefore changes the message that is signed.
pub proof fn lemma_signed_message_injective(
    m1: Seq<char>,
    e1: Seq<char>,
    q1: Seq<char>,
    h1: Seq<char>,
    t1: nat,
    m2: Seq<char>,
    e2: Seq<char>,
    q2: Seq<char>,
    h2: Seq<char>,
    t2: nat,
)
    requires
        !m1.contains('\n') && !e1.contains('\n') && !q1.contains('\n') && !h1.contains('\n'),
        !m2.contains('\n') && !e2.contains('\n') && !q2.contains('\n') && !h2.contains('\n'),
        prehash_chars(m1, api_prefix_chars() + e1, q1, h1, dec_chars_of(t1)) == prehash_chars(
            m2,
            api_prefix_chars() + e2,
            q2,
            h2,
            dec_chars_of(t2),
        ),
    ensures
        m1 == m2,
        e1 == e2,
        q1 == q2,
        h1 == h2,
        t1 == t2,
{
    reveal_strlit("/api/v4");
    let p = api_prefix_chars();
    assert forall|i: int| 0 <= i < (p + e1).len() implies (p + e1)[i] != '\n' by {
        if i >= p.len() {
            assert(!e1.contains('\n'));
            assert((p + e1)[i] == e1[i - p.len()]);
        }
    }
    assert forall|i: int| 0 <= i < (p + e2).len() implies (p + e2)[i] != '\n' by {
        if i >= p.len() {
            assert(!e2.contains('\n'));
            assert((p + e2)[i] == e2[i - p.len()]);
        }
    }
    assert(!(p + e1).contains('\n'));
    assert(!(p + e2).contains('\n'));
    crate::signing::lemma_prehash_injective(
        m1,
        p + e1,
        q1,
        h1,
        dec_chars_of(t1),
        m2,
        p + e2,
        q2,
        h2,
        dec_chars_of(t2),
    );
    assert(e1.len() == e2.len());
    assert forall|i: int| 0 <= i < e1.len() implies #[trigger] e1[i] == e2[i] by {
        assert((p + e1)[p.len() + i] == e1[i]);
        assert((p + e2)[p.len() + i] == e2[i]);
    }
    assert(e1 =~= e2);
    crate::decstr::lemma_dec_chars_injective(t1, t2);
}

/// Building a signed request is deterministic: for one set of
/// credentials, request fields and timestamp there is exactly one signed
/// request, so any two results that match the same inputs agree on every
/// field.
pub proof fn lemma_signed_request_deterministic(
    a: SignedRequest,
    b: SignedRequest,
    api_key: Seq<char>,
    secret: Seq<char>,
    method: Seq<char>,
    endpoint: Seq<char>,
    query: Seq<char>,
    body: Seq<u8>,
    timestamp: nat,
)
    requires
        signed_request_matches(a, api_key, secret, method, endpoint, query, body, timestamp),
        signed_request_matches(b, api_key, secret, method, endpoint, query, body, timestamp),
    ensures
        a.api_key@ == b.api_key@,
        a.timestamp@ == b.timestamp@,
        a.signature@ == b.signature@,
        a.url@ == b.url@,
{
}

impl SignedRequest {
    /// The four request headers, in the order the protocol names them:
    /// the API key, the timestamp, the signature, and the fixed content
    /// type.
    pub fn headers(&self) -> (r: Vec<(String, String)>)
        ensures
            r@.len() == 4,
            r@[0].0@ == "KEY"@ && r@[0].1@ == self.api_key@,
            r@[1].0@ == "Timestamp"@ && r@[1].1@ == self.timestamp@,
            r@[2].0@ == "SIGN"@ && r@[2].1@ == self.signature@,
            r@[3].0@ == "Content-Type"@ && r@[3].1@ == "application/json"@,
    {
        let mut r: Vec<(String, String)> = Vec::new();
        r.push((String::from_str("KEY"), self.api_key.clone()));
        r.push((String::from_str("Timestamp"), self.timestamp.clone()));
        r.push((String::from_str("SIGN"), self.signature.clone()));
        r.push((String::from_str("Content-Type"), String::from_str("application/json")));
        r
    }
}

impl GateSDK {
    /// Assemble the URL and authentication headers for a private request
    /// at a fixed timestamp. The signature is computed over exactly the
    /// values placed in the headers and URL.
    pub fn build_signed_request_at(
        &self,
        method: &str,
        endpoint_path: &str,
        query_string: &str,
        body: &[u8],
        timestamp: u64,
    ) -> (r: Result<SignedRequest, GateError>)
        requires
            self.wf(),
        ensures
            r is Ok <==> self.has_credentials() && header_value_ok(
                encode_utf8(self.api_key->0@),
            ),
            !self.has_credentials() ==> (r matches Err(e) && e is MissingCredential),
            self.has_credentials() && !header_value_ok(encode_utf8(self.api_key->0@))
                ==> (r matches Err(e) && e is HeaderEncodingError),
            r matches Ok(sr) ==> signed_request_matches(
                sr,
                self.api_key->0@,
                self.api_secret->0@,
                method@,
                endpoint_path@,
                query_string@,
                body@,
                timestamp as nat,
            ),
            r matches Ok(sr) ==> sr.signature@.len() == 128 && forall|i: int|
                0 <= i < 128 ==> is_lower_hex_char(#[trigger] sr.signature@[i]),
    {
        let api_key = match &self.api_key {
            Some(k) => k,
            None => {
                return Err(GateError::MissingCredential);
            },
        };
        if !is_valid_header_value(api_key.as_str()) {
            return Err(GateError::HeaderEncodingError);
        }
        let body_digest = sha512_digest(body);
        let body_hash = hex_encode(body_digest.as_slice());
        let ts = u64_to_dec_string(timestamp);

        let mut full_path = String::new();
        full_path.append("/api/v4");
        full_path.append(endpoint_path);
        proof {
            assert(full_path@ =~= api_prefix_chars() + endpoint_path@);
        }

        let mut prehash = String::new();
        prehash.append(method);
        prehash.append("\n");
        prehash.append(full_path.as_str());
        prehash.append("\n");
        prehash.append(query_string);
        prehash.append("\n");
        prehash.append(body_hash.as_str());
        prehash.append("\n");
        prehash.append(ts.as_str());
        proof {
            reveal_strlit("\n");
            assert(prehash@ =~= prehash_chars(
                method@,
                api_prefix_chars() + endpoint_path@,
                query_string@,
                hex_chars_of(sha512_of(body@)),
                dec_chars_of(timestamp as nat),
            ));
        }

        let ghost prehash_view = prehash@;
        let signature = match self.sign_request(prehash) {
            Ok(s) => s,
            Err(e) => {
                return Err(e);
            },
        };
        proof {
            lemma_hex_chars_shape(body_digest@);
            lemma_hex_chars_shape(
                crate::crypto::hmac_sha512_of(
                    encode_utf8(self.api_secret->0@),
                    encode_utf8(prehash_view),
                ),
            );
        }

        let mut url = String::new();
        url.append(LIVE_URL);
        url.append(endpoint_path);
        if !query_string.is_empty() {
            url.append("?");
            url.append(query_string);
        }
        proof {
            reveal_strlit("?");
            assert(url@ =~= url_chars(endpoint_path@, query_string@));
        }

        Ok(
            SignedRequest {
                url,
                api_key: api_key.clone(),
                timestamp: ts,
                signature,
            },
        )
    }

    /// Assemble the URL and authentication headers for a private request,
    /// stamped with the current Unix time in whole seconds. Each call gets
    /// a fresh timestamp; everything else is as `build_signed_request_at`.
    pub fn build_signed_request(
        &self,
        method: &str,
        endpoint_path: &str,
        query_string: &str,
        body: &[u8],
    ) -> (r: Result<SignedRequest, GateError>)
        requires
            self.wf(),
        ensures
            r is Ok <==> self.has_credentials() && header_value_ok(
                encode_utf8(self.api_key->0@),
            ),
            !self.has_credentials() ==> (r matches Err(e) && e is MissingCredential),
            self.has_credentials() && !header_value_ok(encode_utf8(self.api_key->0@))
                ==> (r matches Err(e) && e is HeaderEncodingError),
            r matches Ok(sr) ==> exists|ts: nat|
                signed_request_matches(
                    sr,
                    self.api_key->0@,
                    self.api_secret->0@,
                    method@,
                    endpoint_path@,
                    query_string@,
                    body@,
                    ts,
                ),
    {
        let timestamp = now_unix_seconds();
        self.build_signed_request_at(method, endpoint_path, query_string, body, timestamp)
    }
}

/// Relies on std::time::SystemTime: whole seconds since the Unix epoch,
/// or zero on a clock set before it. Nothing is promised of the value.
#[verifier::external_body]
fn now_unix_seconds() -> u64 {
    match std::time::SystemTime::now().duration_since(std::time::UNIX_EPOCH) {
        Ok(d) => d.as_secs(),
        Err(_) => 0,
    }
}

/// The current Unix time in whole seconds, rendered in decimal: a
/// nonempty string of digit characters.
pub fn get_timestamp() -> (r: String)
    ensures
        exists|n: nat| r@ == dec_chars_of(n),
        r@.len() >= 1,
        forall|i: int| 0 <= i < r@.len() ==> crate::decstr::is_dec_char(#[trigger] r@[i]),
{
    let secs = now_unix_seconds();
    let r = u64_to_dec_string(secs);
    proof {
        assert(r@ == dec_chars_of(secs as nat));
        crate::decstr::lemma_dec_chars_digits(secs as nat);
    }
    r
}

} // verus!
