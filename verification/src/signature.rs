//! Signature verification for incoming deliveries.
//!
//! A delivery is authenticated by a keyed message-authentication code:
//! HMAC-SHA256 over the raw request body, keyed with the rule's shared
//! secret, rendered as lowercase hexadecimal. The sender puts it in a
//! header of the form `<algorithm-tag>=<hex-digest>`; everything before
//! the first `=` is ignored, everything after it must equal the digest
//! computed here, compared case-sensitively.

use vstd::prelude::*;
use vstd::string::StrSliceExecFns;
use vstd::string::StringExecFns;
use vstd::utf8::encode_utf8;
use hmac::Mac;

verus! {

/// The HMAC-SHA256 digest of `message` keyed with `key`, as the `hmac`
/// crate computes it. The digest is a pure function of key and message;
/// its definition is not restated here.
pub uninterp spec fn hmac_sha256_of(key: Seq<u8>, message: Seq<u8>) -> Seq<u8>;

/// Relies on `hmac::Hmac<sha2::Sha256>` (`new_from_slice`, `update`,
/// `finalize`): the returned bytes are the HMAC-SHA256 digest of
/// `message` under `key`. `new_from_slice` accepts a key of any length
/// for an HMAC, so the call cannot fail.
#[verifier::external_body]
fn hmac_sha256_bytes(key: &[u8], message: &[u8]) -> (mac: Vec<u8>)
    ensures
        mac@ == hmac_sha256_of(key@, message@),
{
    let mut m = <hmac::Hmac<sha2::Sha256> as Mac>::new_from_slice(key)
        .expect("an HMAC accepts a key of any length");
    m.update(message);
    m.finalize().into_bytes().to_vec()
}

/// Relies on `String::push`: it appends the given character to the end
/// of the string.
pub assume_specification[ String::push ](s: &mut String, ch: char)
    ensures
        final(s)@ == old(s)@.push(ch),
;

/// The lowercase hexadecimal digit for a nibble.
pub open spec fn hex_digit(n: u8) -> char
    recommends
        n < 16,
{
    if n == 0 {
        '0'
    } else if n == 1 {
        '1'
    } else if n == 2 {
        '2'
    } else if n == 3 {
        '3'
    } else if n == 4 {
        '4'
    } else if n == 5 {
        '5'
    } else if n == 6 {
        '6'
    } else if n == 7 {
        '7'
    } else if n == 8 {
        '8'
    } else if n == 9 {
        '9'
    } else if n == 10 {
        'a'
    } else if n == 11 {
        'b'
    } else if n == 12 {
        'c'
    } else if n == 13 {
        'd'
    } else if n == 14 {
        'e'
    } else {
        'f'
    }
}

/// The lowercase hexadecimal rendering of a byte sequence: two digits
/// per byte, high nibble first.
pub open spec fn hex_of(bytes: Seq<u8>) -> Seq<char> {
    Seq::new(
        2 * bytes.len(),
        |i: int|
            if i % 2 == 0 {
                hex_digit(bytes[i / 2] / 16)
            } else {
                hex_digit(bytes[i / 2] % 16)
            },
    )
}

fn hex_digit_char(n: u8) -> (c: char)
    requires
        n < 16,
    ensures
        c == hex_digit(n),
{
    if n == 0 {
        '0'
    } else if n == 1 {
        '1'
    } else if n == 2 {
        '2'
    } else if n == 3 {
        '3'
    } else if n == 4 {
        '4'
    } else if n == 5 {
        '5'
    } else if n == 6 {
        '6'
    } else if n == 7 {
        '7'
    } else if n == 8 {
        '8'
    } else if n == 9 {
        '9'
    } else if n == 10 {
        'a'
    } else if n == 11 {
        'b'
    } else if n == 12 {
        'c'
    } else if n == 13 {
        'd'
    } else if n == 14 {
        'e'
    } else {
        'f'
    }
}

/// Renders a byte sequence as lowercase hexadecimal.
pub fn hex_encode(bytes: &[u8]) -> (r: String)
    ensures
        r@ == hex_of(bytes@),
{
    let mut r = String::new();
    let mut k: usize = 0;
    while k < bytes.len()
        invariant
            k <= bytes@.len(),
            r@ == hex_of(bytes@.take(k as int)),
        decreases bytes@.len() - k,
    {
        let b = bytes[k];
        r.push(hex_digit_char(b / 16));
        r.push(hex_digit_char(b % 16));
        proof {
            assert(r@ =~= hex_of(bytes@.take(k + 1)));
        }
        k += 1;
    }
    proof {
        assert(bytes@.take(bytes@.len() as int) =~= bytes@);
    }
    r
}

/// The hex-encoded HMAC-SHA256 digest of `message` under `key`: the
/// textual form a sender is expected to put after the `=` of the
/// signature header.
pub fn hash_hmac_sha256(message: &[u8], key: &[u8]) -> (r: String)
    ensures
        r@ == hex_of(hmac_sha256_of(key@, message@)),
{
    let mac = hmac_sha256_bytes(key, message);
    hex_encode(mac.as_slice())
}

/// The digest a correctly signing sender computes for `body` under
/// `secret`: HMAC-SHA256 keyed with the UTF-8 bytes of the secret,
/// rendered as lowercase hexadecimal.
pub open spec fn expected_digest(body: Seq<u8>, secret: Seq<char>) -> Seq<char> {
    hex_of(hmac_sha256_of(encode_utf8(secret), body))
}

/// `i` is the position of the first `=` in `sig`.
pub open spec fn is_first_separator(sig: Seq<char>, i: int) -> bool {
    &&& 0 <= i < sig.len()
    &&& sig[i] == '='
    &&& forall|j: int| 0 <= j < i ==> sig[j] != '='
}

/// The signature header `sig` authenticates `body` under `secret`: it
/// holds a `=`, and everything after the first `=` is exactly the
/// expected digest. A header without `=` never authenticates anything.
pub open spec fn signature_accepted(body: Seq<u8>, secret: Seq<char>, sig: Seq<char>) -> bool {
    exists|i: int|
        is_first_separator(sig, i) && sig.subrange(i + 1, sig.len() as int) == expected_digest(
            body,
            secret,
        )
}

proof fn lemma_first_separator_unique(sig: Seq<char>, i: int, j: int)
    requires
        is_first_separator(sig, i),
        is_first_separator(sig, j),
    ensures
        i == j,
{
    if i < j {
        assert(sig[i] != '=');
    }
    if j < i {
        assert(sig[j] != '=');
    }
}

fn find_separator(sig: &str) -> (r: Option<usize>)
    ensures
        match r {
            Some(i) => is_first_separator(sig@, i as int),
            None => forall|j: int| 0 <= j < sig@.len() ==> sig@[j] != '=',
        },
{
    let n = sig.unicode_len();
    let mut i: usize = 0;
    while i < n
        invariant
            i <= n,
            n == sig@.len(),
            forall|j: int| 0 <= j < i ==> sig@[j] != '=',
        decreases n - i,
    {
        if sig.get_char(i) == '=' {
            return Some(i);
        }
        i += 1;
    }
    None
}

/// Decides whether the signature header authenticates `bytes` under
/// `secret`: the text after the first `=` of `signature` must equal the
/// hex HMAC-SHA256 digest of `bytes` keyed with the secret's UTF-8
/// bytes. A header without `=` is malformed and is rejected, not an
/// error.
pub fn check_signature_sha256(bytes: &Vec<u8>, secret: &String, signature: &String) -> (r: bool)
    ensures
        r == signature_accepted(bytes@, secret@, signature@),
{
    let hash: String = hash_hmac_sha256(bytes.as_slice(), secret.as_str().as_bytes());
    let sig: &str = signature.as_str();
    match find_separator(sig) {
        None => {
            proof {
                assert forall|i: int| !is_first_separator(signature@, i) by {}
            }
            false
        },
        Some(i) => {
            let n = sig.unicode_len();
            let suffix: String = String::from_str(sig.substring_char(i + 1, n));
            let r = hash == suffix;
            proof {
                if r {
                    assert(is_first_separator(signature@, i as int) && signature@.subrange(
                        i + 1,
                        signature@.len() as int,
                    ) == expected_digest(bytes@, secret@));
                } else {
                    assert forall|k: int|
                        !(is_first_separator(signature@, k) && signature@.subrange(
                            k + 1,
                            signature@.len() as int,
                        ) == expected_digest(bytes@, secret@)) by {
                        if is_first_separator(signature@, k) {
                            lemma_first_separator_unique(signature@, k, i as int);
                        }
                    }
                }
            }
            r
        },
    }
}

/// A delivery signed with the right secret is always accepted: for any
/// body and secret, a header made of any `=`-free algorithm tag, then
/// `=`, then the expected digest, authenticates the body.
pub proof fn lemma_valid_signature_accepted(
    body: Seq<u8>,
    secret: Seq<char>,
    tag: Seq<char>,
    header: Seq<char>,
)
    requires
        forall|j: int| 0 <= j < tag.len() ==> tag[j] != '=',
        header == tag + seq!['='] + expected_digest(body, secret),
    ensures
        signature_accepted(body, secret, header),
{
    let i = tag.len() as int;
    assert(header[i] == '=');
    assert(forall|j: int| 0 <= j < i ==> header[j] == tag[j] && header[j] != '=');
    assert(is_first_separator(header, i));
    assert(header.subrange(i + 1, header.len() as int) =~= expected_digest(body, secret));
    assert(is_first_separator(header, i) && header.subrange(i + 1, header.len() as int)
        == expected_digest(body, secret));
}

/// A header without `=` never authenticates anything: there is no
/// separator, so the digest comparison never takes place.
pub proof fn lemma_missing_separator_rejected(body: Seq<u8>, secret: Seq<char>, header: Seq<char>)
    requires
        forall|j: int| 0 <= j < header.len() ==> header[j] != '=',
    ensures
        !signature_accepted(body, secret, header),
{
}

proof fn lemma_hex_digit_injective(m: u8, n: u8)
    requires
        m < 16,
        n < 16,
        hex_digit(m) == hex_digit(n),
    ensures
        m == n,
{
}

/// Two byte sequences with the same hexadecimal rendering are equal:
/// each byte is recovered from its two digits.
pub proof fn lemma_hex_of_injective(a: Seq<u8>, b: Seq<u8>)
    requires
        hex_of(a) == hex_of(b),
    ensures
        a == b,
{
    assert(hex_of(a).len() == 2 * a.len());
    assert(hex_of(b).len() == 2 * b.len());
    assert forall|i: int| 0 <= i < a.len() implies a[i] == b[i] by {
        assert(hex_of(a)[2 * i] == hex_digit(a[i] / 16));
        assert(hex_of(b)[2 * i] == hex_digit(b[i] / 16));
        assert(hex_of(a)[2 * i + 1] == hex_digit(a[i] % 16));
        assert(hex_of(b)[2 * i + 1] == hex_digit(b[i] % 16));
        lemma_hex_digit_injective(a[i] / 16, b[i] / 16);
        lemma_hex_digit_injective(a[i] % 16, b[i] % 16);
    }
    assert(a =~= b);
}

/// A delivery signed with one secret is rejected when checked against
/// another, whenever the two secrets produce different digests over
/// the body. The proviso is unavoidable: the digest function maps a
/// boundless key space onto fixed-size digests, so no contract can
/// exclude two keys colliding on one body.
pub proof fn lemma_wrong_secret_rejected(
    body: Seq<u8>,
    secret: Seq<char>,
    signer: Seq<char>,
    tag: Seq<char>,
    header: Seq<char>,
)
    requires
        hmac_sha256_of(encode_utf8(secret), body) != hmac_sha256_of(encode_utf8(signer), body),
        forall|j: int| 0 <= j < tag.len() ==> tag[j] != '=',
        header == tag + seq!['='] + expected_digest(body, signer),
    ensures
        !signature_accepted(body, secret, header),
{
    let i = tag.len() as int;
    assert(header[i] == '=');
    assert(forall|j: int| 0 <= j < i ==> header[j] == tag[j] && header[j] != '=');
    assert(is_first_separator(header, i));
    assert(header.subrange(i + 1, header.len() as int) =~= expected_digest(body, signer));
    if signature_accepted(body, secret, header) {
        let k = choose|k: int|
            is_first_separator(header, k) && header.subrange(k + 1, header.len() as int)
                == expected_digest(body, secret);
        lemma_first_separator_unique(header, k, i);
        lemma_hex_of_injective(
            hmac_sha256_of(encode_utf8(secret), body),
            hmac_sha256_of(encode_utf8(signer), body),
        );
    }
}

} // verus!
