//! The canonical prehash string, the signature it determines, and the
//! validity rule for header values.
//!
//! A signature is valid only for the exact tuple (method, full path, query
//! string, body hash, timestamp) it was computed over: the prehash string
//! encodes that tuple injectively (see `lemma_prehash_injective`), so
//! changing any field changes the signed message.

use vstd::prelude::*;

use crate::crypto::hmac_sha512_of;
use crate::hexstr::hex_chars_of;
use vstd::string::StringSliceAdditionalSpecFns;
use vstd::utf8::encode_utf8;

verus! {

/// The canonical prehash: one line per field, in the order method, full
/// path, query string, body hash, timestamp.
pub open spec fn prehash_chars(
    method: Seq<char>,
    full_path: Seq<char>,
    query: Seq<char>,
    body_hash: Seq<char>,
    timestamp: Seq<char>,
) -> Seq<char> {
    method + seq!['\n'] + full_path + seq!['\n'] + query + seq!['\n'] + body_hash + seq!['\n']
        + timestamp
}

/// The signature of a message under a secret: the lowercase hex encoding
/// of the HMAC-SHA512 tag over the UTF-8 bytes of both.
pub open spec fn signature_chars(secret: Seq<char>, message: Seq<char>) -> Seq<char> {
    hex_chars_of(hmac_sha512_of(encode_utf8(secret), encode_utf8(message)))
}

/// Two newline-terminated prefixes of equal sequences agree, provided
/// neither prefix contains a newline itself.
proof fn lemma_newline_split(a1: Seq<char>, r1: Seq<char>, a2: Seq<char>, r2: Seq<char>)
    requires
        !a1.contains('\n'),
        !a2.contains('\n'),
        a1 + seq!['\n'] + r1 == a2 + seq!['\n'] + r2,
    ensures
        a1 == a2,
        r1 == r2,
{
    let s = a1 + seq!['\n'] + r1;
    if a1.len() < a2.len() {
        assert(s[a1.len() as int] == '\n');
        assert(s[a1.len() as int] == a2[a1.len() as int]);
        assert(a2.contains('\n'));
    }
    if a2.len() < a1.len() {
        assert(s[a2.len() as int] == '\n');
        assert(s[a2.len() as int] == a1[a2.len() as int]);
        assert(a1.contains('\n'));
    }
    assert(a1.len() == a2.len());
    assert(s == a2 + seq!['\n'] + r2);
    assert forall|i: int| 0 <= i < a1.len() implies #[trigger] a1[i] == a2[i] by {
        assert(a1[i] == s[i]);
        assert(a2[i] == s[i]);
    }
    assert(a1 =~= a2);
    assert(s.len() == a1.len() + 1 + r1.len());
    assert((a2 + seq!['\n'] + r2).len() == a2.len() + 1 + r2.len());
    assert(r1.len() == r2.len());
    assert forall|i: int| 0 <= i < r1.len() implies #[trigger] r1[i] == r2[i] by {
        assert(r1[i] == s[a1.len() + 1 + i]);
        assert(r2[i] == s[a2.len() + 1 + i]);
    }
    assert(r1 =~= r2);
}

/// The prehash encodes its five fields injectively: two equal prehash
/// strings come from equal fields, provided no field before the timestamp
/// contains a newline. Distinct requests therefore sign distinct messages.
pub proof fn lemma_prehash_injective(
    m1: Seq<char>,
    p1: Seq<char>,
    q1: Seq<char>,
    h1: Seq<char>,
    t1: Seq<char>,
    m2: Seq<char>,
    p2: Seq<char>,
    q2: Seq<char>,
    h2: Seq<char>,
    t2: Seq<char>,
)
    requires
        !m1.contains('\n') && !p1.contains('\n') && !q1.contains('\n') && !h1.contains('\n'),
        !m2.contains('\n') && !p2.contains('\n') && !q2.contains('\n') && !h2.contains('\n'),
        prehash_chars(m1, p1, q1, h1, t1) == prehash_chars(m2, p2, q2, h2, t2),
    ensures
        m1 == m2,
        p1 == p2,
        q1 == q2,
        h1 == h2,
        t1 == t2,
{
    let rest1 = p1 + seq!['\n'] + (q1 + seq!['\n'] + (h1 + seq!['\n'] + t1));
    let rest2 = p2 + seq!['\n'] + (q2 + seq!['\n'] + (h2 + seq!['\n'] + t2));
    assert(prehash_chars(m1, p1, q1, h1, t1) =~= m1 + seq!['\n'] + rest1);
    assert(prehash_chars(m2, p2, q2, h2, t2) =~= m2 + seq!['\n'] + rest2);
    lemma_newline_split(m1, rest1, m2, rest2);
    let rest1b = q1 + seq!['\n'] + (h1 + seq!['\n'] + t1);
    let rest2b = q2 + seq!['\n'] + (h2 + seq!['\n'] + t2);
    lemma_newline_split(p1, rest1b, p2, rest2b);
    lemma_newline_split(q1, h1 + seq!['\n'] + t1, q2, h2 + seq!['\n'] + t2);
    lemma_newline_split(h1, t1, h2, t2);
}

/// A byte that may appear in an HTTP header value: the visible range
/// together with the horizontal tab, excluding DEL. This is the rule the
/// http crate's HeaderValue applies to each byte of a string.
pub open spec fn valid_header_byte(b: u8) -> bool {
    (b >= 32 && b != 127) || b == 9
}

/// A string whose UTF-8 bytes are all legal in an HTTP header value.
pub open spec fn header_value_ok(bytes: Seq<u8>) -> bool {
    forall|i: int| 0 <= i < bytes.len() ==> valid_header_byte(#[trigger] bytes[i])
}

/// Decide whether every byte of `s` is legal in an HTTP header value.
pub fn is_valid_header_value(s: &str) -> (r: bool)
    ensures
        r == header_value_ok(s.spec_bytes()),
{
    let bytes = s.as_bytes();
    let mut i: usize = 0;
    while i < bytes.len()
        invariant
            i <= bytes@.len(),
            bytes@ == s.spec_bytes(),
            forall|j: int| 0 <= j < i ==> valid_header_byte(#[trigger] bytes@[j]),
        decreases bytes@.len() - i,
    {
        let b = bytes[i];
        if !((b >= 32 && b != 127) || b == 9) {
            return false;
        }
        i = i + 1;
    }
    true
}

} // verus!
