use vstd::prelude::*;

use crate::credentials::Credentials;
use crate::crypto::{
    base64_decode, base64_decoding, base64_encode, base64_encoding, hmac_sha512, hmac_sha512_of,
    sha256, sha256_of,
};
use vstd::utf8::encode_utf8;

verus! {

/// Failures of a single request attempt.
///
/// The surrounding application keeps the transport, header and decode error
/// values themselves; here each failure is reduced to its kind, which is all
/// the retrieval logic inspects.
#[derive(Clone, Copy, Debug, PartialEq, Eq, Structural)]
pub enum ReqError {
    /// The transport reported a connection error or a non-success status.
    Reqwest,
    /// The system clock could not be read for the nonce.
    SystemTimeFailure,
    /// The HMAC could not be keyed with the decoded secret.
    HmacFailure,
    /// A header value could not be constructed.
    InvalidHeader,
    /// The configured secret is not valid base64.
    SigningError,
    /// The rate limiter rejected the request; retried after a pause.
    OverTheReqLimit,
}

/// The decimal rendering of a nonnegative integer, as ASCII digit bytes.
pub open spec fn dec_digits(n: nat) -> Seq<u8>
    decreases n,
{
    if n < 10 {
        seq![(48 + n) as u8]
    } else {
        dec_digits(n / 10) + seq![(48 + n % 10) as u8]
    }
}

/// Appends a copy of `src` to `dst`.
pub(crate) fn append_bytes(dst: &mut Vec<u8>, src: &[u8])
    ensures
        final(dst)@ == old(dst)@ + src@,
{
    let mut i: usize = 0;
    while i < src.len()
        invariant
            i <= src@.len(),
            dst@ =~= old(dst)@ + src@.subrange(0, i as int),
        decreases src@.len() - i,
    {
        dst.push(src[i]);
        i = i + 1;
        proof {
            assert(dst@ =~= old(dst)@ + src@.subrange(0, i as int));
        }
    }
    proof {
        assert(src@.subrange(0, src@.len() as int) =~= src@);
        assert(dst@ =~= old(dst)@ + src@);
    }
}

/// Renders an integer in decimal, for use as the nonce header value.
pub fn nonce_digits(n: u64) -> (r: Vec<u8>)
    ensures
        r@ == dec_digits(n as nat),
{
    let mut r: Vec<u8> = Vec::new();
    let mut m: u64 = n;
    let first: u8 = 48 + (m % 10) as u8;
    r.push(first);
    m = m / 10;
    proof {
        if n < 10 {
            assert(dec_digits(n as nat) =~= r@);
        } else {
            assert(dec_digits(n as nat) =~= dec_digits((n / 10) as nat) + r@);
        }
    }
    while m > 0
        invariant
            m > 0 ==> dec_digits(n as nat) == dec_digits(m as nat) + r@,
            m == 0 ==> dec_digits(n as nat) == r@,
        decreases m,
    {
        let d: u8 = 48 + (m % 10) as u8;
        r.insert(0, d);
        m = m / 10;
        proof {
            assert(r@ =~= seq![d] + r@.subrange(1, r@.len() as int));
            if m > 0 {
                assert(dec_digits(n as nat) =~= dec_digits(m as nat) + r@);
            } else {
                assert(dec_digits(n as nat) =~= r@);
            }
        }
    }
    r
}

/// The fixed path prefix the signing scheme removes: the bytes of
/// "/derivatives".
pub open spec fn derivatives_prefix() -> Seq<u8> {
    seq![47u8, 100u8, 101u8, 114u8, 105u8, 118u8, 97u8, 116u8, 105u8, 118u8, 101u8, 115u8]
}

pub(crate) fn derivatives_prefix_bytes() -> (r: Vec<u8>)
    ensures
        r@ == derivatives_prefix(),
{
    let mut r: Vec<u8> = Vec::new();
    r.push(47u8);
    r.push(100u8);
    r.push(101u8);
    r.push(114u8);
    r.push(105u8);
    r.push(118u8);
    r.push(97u8);
    r.push(116u8);
    r.push(105u8);
    r.push(118u8);
    r.push(101u8);
    r.push(115u8);
    proof {
        assert(r@ =~= derivatives_prefix());
    }
    r
}

/// Whether an endpoint path begins with the fixed prefix.
pub open spec fn has_derivatives_prefix(endpoint: Seq<u8>) -> bool {
    endpoint.len() >= 12 && endpoint.subrange(0, 12) == derivatives_prefix()
}

/// An endpoint path with the fixed prefix removed, when it carries it.
pub open spec fn strip_derivatives(endpoint: Seq<u8>) -> Seq<u8> {
    if has_derivatives_prefix(endpoint) {
        endpoint.subrange(12, endpoint.len() as int)
    } else {
        endpoint
    }
}

pub(crate) fn strip_derivatives_bytes(endpoint: &Vec<u8>) -> (r: Vec<u8>)
    ensures
        r@ == strip_derivatives(endpoint@),
{
    let prefix = derivatives_prefix_bytes();
    let mut has_prefix: bool = endpoint.len() >= prefix.len();
    let mut i: usize = 0;
    while i < prefix.len() && has_prefix
        invariant
            prefix@ == derivatives_prefix(),
            i <= prefix@.len(),
            has_prefix ==> endpoint@.len() >= 12 && (forall|j: int|
                0 <= j < i ==> endpoint@[j] == prefix@[j]),
            !has_prefix ==> !has_derivatives_prefix(endpoint@),
        decreases (if has_prefix { 1int } else { 0int }), prefix@.len() - i,
    {
        if endpoint[i] != prefix[i] {
            proof {
                if has_derivatives_prefix(endpoint@) {
                    assert(endpoint@.subrange(0, 12)[i as int] == endpoint@[i as int]);
                    assert(false);
                }
            }
            has_prefix = false;
        } else {
            i = i + 1;
        }
    }
    proof {
        if has_prefix {
            assert(endpoint@.subrange(0, 12) =~= derivatives_prefix());
        }
    }
    let start: usize = if has_prefix {
        prefix.len()
    } else {
        0
    };
    let mut r: Vec<u8> = Vec::new();
    let mut k: usize = start;
    while k < endpoint.len()
        invariant
            start <= k <= endpoint@.len() || k == start,
            start as int <= endpoint@.len() || !has_prefix,
            r@ =~= endpoint@.subrange(start as int, k as int),
            start == if has_prefix { 12int } else { 0int },
            has_prefix ==> endpoint@.len() >= 12,
        decreases endpoint@.len() - k,
    {
        r.push(endpoint[k]);
        k = k + 1;
        proof {
            assert(r@ =~= endpoint@.subrange(start as int, k as int));
        }
    }
    proof {
        if has_prefix {
            assert(r@ =~= strip_derivatives(endpoint@));
        } else {
            assert(endpoint@.subrange(0, endpoint@.len() as int) =~= endpoint@);
            assert(r@ =~= strip_derivatives(endpoint@));
        }
    }
    r
}

/// The exact byte string the signing scheme hashes: request data, then
/// nonce, then the endpoint path with the fixed prefix removed, with no
/// separators.
pub open spec fn signing_message(nonce: Seq<u8>, endpoint: Seq<u8>, post_data: Seq<u8>) -> Seq<u8> {
    post_data + nonce + strip_derivatives(endpoint)
}

/// The per-request signature, when the secret is valid base64: the base64
/// rendering of the HMAC-SHA-512, under the decoded secret, of the SHA-256
/// digest of the signing message.
pub open spec fn spec_signature(
    secret: Seq<char>,
    nonce: Seq<u8>,
    endpoint: Seq<u8>,
    post_data: Seq<u8>,
) -> Option<Seq<char>> {
    match base64_decoding(secret) {
        Some(key) => Some(
            base64_encoding(
                hmac_sha512_of(key, sha256_of(signing_message(nonce, endpoint, post_data))),
            ),
        ),
        None => None,
    }
}

/// Signing is deterministic: two successful signings of the same secret,
/// nonce, endpoint and request data agree.
pub proof fn lemma_signing_deterministic(
    secret: Seq<char>,
    nonce: Seq<u8>,
    endpoint: Seq<u8>,
    post_data: Seq<u8>,
    s1: Seq<char>,
    s2: Seq<char>,
)
    requires
        Some(s1) == spec_signature(secret, nonce, endpoint, post_data),
        Some(s2) == spec_signature(secret, nonce, endpoint, post_data),
    ensures
        s1 == s2,
{
}

/// Signing an endpoint that carries the fixed path prefix yields the same
/// signature as signing the endpoint with the prefix already removed, for
/// any remainder that does not itself begin with the prefix.
pub proof fn lemma_sign_prefix_stripping(
    secret: Seq<char>,
    nonce: Seq<u8>,
    endpoint: Seq<u8>,
    post_data: Seq<u8>,
)
    requires
        !has_derivatives_prefix(endpoint),
    ensures
        spec_signature(secret, nonce, derivatives_prefix() + endpoint, post_data)
            == spec_signature(secret, nonce, endpoint, post_data),
{
    let full = derivatives_prefix() + endpoint;
    assert(full.subrange(0, 12) =~= derivatives_prefix());
    assert(full.subrange(12, full.len() as int) =~= endpoint);
    assert(strip_derivatives(full) == endpoint);
    assert(strip_derivatives(endpoint) == endpoint);
}

/// One fully prepared, signed request, ready for an unverified transport to
/// send: the complete URL and the values of the three authentication
/// headers.
#[derive(Debug)]
pub struct SignedRequest {
    pub url: Vec<u8>,
    pub api_key: String,
    pub nonce: Vec<u8>,
    pub authent: String,
}

/// The complete request URL: base, endpoint path, and the query string when
/// one is present.
pub open spec fn spec_request_url(base: Seq<char>, endpoint: Seq<u8>, query: Seq<u8>) -> Seq<u8> {
    if query.len() == 0 {
        encode_utf8(base) + endpoint
    } else {
        encode_utf8(base) + endpoint + seq![63u8] + query
    }
}

/// Builds signed requests against one base URL with one set of credentials.
/// The unverified transport around the library holds the connection pool;
/// this holds what the signing scheme needs.
pub struct RestClient {
    pub api_url: String,
    pub creds: Credentials,
}

impl RestClient {
    pub fn new(api_url: String, creds: Credentials) -> (r: RestClient)
        ensures
            r.api_url@ == api_url@,
            r.creds == creds,
    {
        RestClient { api_url, creds }
    }

    /// Computes the authentication signature for one request.
    ///
    /// Succeeds exactly when the secret is valid base64 — the only failure,
    /// reported as `SigningError` — and the result is pinned to
    /// `spec_signature` of the inputs, so it depends on nothing but the
    /// secret, nonce, endpoint and request data.
    pub fn sign_message(&self, nonce: &Vec<u8>, endpoint_path: &Vec<u8>, post_data: &Vec<u8>) -> (r:
        Result<String, ReqError>)
        ensures
            r is Ok <==> base64_decoding(self.creds.secret@) is Some,
            r matches Ok(sig) ==> Some(sig@) == spec_signature(
                self.creds.secret@,
                nonce@,
                endpoint_path@,
                post_data@,
            ),
            r is Err ==> r == Err::<String, ReqError>(ReqError::SigningError),
    {
        let stripped = strip_derivatives_bytes(endpoint_path);
        let mut message: Vec<u8> = Vec::new();
        append_bytes(&mut message, post_data.as_slice());
        append_bytes(&mut message, nonce.as_slice());
        append_bytes(&mut message, stripped.as_slice());
        proof {
            assert(message@ =~= signing_message(nonce@, endpoint_path@, post_data@));
        }
        let digest = sha256(message.as_slice());
        let decoded = match base64_decode(self.creds.secret.as_str()) {
            Some(k) => k,
            None => {
                return Err(ReqError::SigningError);
            },
        };
        let mac = hmac_sha512(decoded.as_slice(), digest.as_slice());
        Ok(base64_encode(mac.as_slice()))
    }

    /// Prepares one signed GET request: the full URL and the header values,
    /// with the nonce rendered from the supplied clock reading in
    /// milliseconds.
    pub fn prepare_request(
        &self,
        endpoint: &Vec<u8>,
        post_url: &Vec<u8>,
        post_body: &Vec<u8>,
        now_ms: u64,
    ) -> (r: Result<SignedRequest, ReqError>)
        ensures
            r is Ok <==> base64_decoding(self.creds.secret@) is Some,
            r matches Ok(req) ==> {
                &&& req.url@ == spec_request_url(self.api_url@, endpoint@, post_url@)
                &&& req.api_key@ == self.creds.key@
                &&& req.nonce@ == dec_digits(now_ms as nat)
                &&& Some(req.authent@) == spec_signature(
                    self.creds.secret@,
                    dec_digits(now_ms as nat),
                    endpoint@,
                    post_url@ + post_body@,
                )
            },
            r is Err ==> r == Err::<SignedRequest, ReqError>(ReqError::SigningError),
    {
        let mut post_data: Vec<u8> = Vec::new();
        append_bytes(&mut post_data, post_url.as_slice());
        append_bytes(&mut post_data, post_body.as_slice());
        let nonce = nonce_digits(now_ms);
        let authent = match self.sign_message(&nonce, endpoint, &post_data) {
            Ok(sig) => sig,
            Err(e) => {
                return Err(e);
            },
        };
        let mut url: Vec<u8> = Vec::new();
        append_bytes(&mut url, self.api_url.as_str().as_bytes());
        append_bytes(&mut url, endpoint.as_slice());
        if post_url.len() > 0 {
            url.push(63u8);
            append_bytes(&mut url, post_url.as_slice());
        }
        proof {
            assert(url@ =~= spec_request_url(self.api_url@, endpoint@, post_url@));
        }
        Ok(SignedRequest { url, api_key: self.creds.key.clone(), nonce, authent })
    }
}

} // verus!
