//! Content digests: SHA-256 in hexadecimal for media files, and the
//! base64-encoded MD5 that wandb uses for artifact files and manifests.

use vstd::prelude::*;

use crate::text::{hex_lower, hex_string};
use base64::Engine;
use sha2::Digest;

verus! {

/// The SHA-256 digest of `bytes`.
pub uninterp spec fn sha256_digest(bytes: Seq<u8>) -> Seq<u8>;

/// Calls `sha2::Sha256::digest`: the result is the digest `sha256_digest`
/// names, 32 bytes long.
#[verifier::external_body]
fn sha256_of(bytes: &[u8]) -> (r: Vec<u8>)
    ensures
        r@ == sha256_digest(bytes@),
        r@.len() == 32,
{
    sha2::Sha256::digest(bytes).to_vec()
}

/// The SHA-256 digest of `bytes` in lower-case hexadecimal, 64 characters.
pub fn sha256_hex(bytes: &[u8]) -> (r: String)
    ensures
        r@ == hex_lower(sha256_digest(bytes@)),
        r@.len() == 64,
{
    let d = sha256_of(bytes);
    hex_string(d.as_slice())
}

/// The MD5 digest of `bytes`.
pub uninterp spec fn md5_digest(bytes: Seq<u8>) -> Seq<u8>;

/// Calls `md5::compute`: the result is the digest `md5_digest` names,
/// 16 bytes long.
#[verifier::external_body]
fn md5_of(bytes: &[u8]) -> (r: Vec<u8>)
    ensures
        r@ == md5_digest(bytes@),
        r@.len() == 16,
{
    md5::compute(bytes).0.to_vec()
}

/// The character of the standard base64 alphabet for a value below 64.
pub open spec fn base64_char(v: int) -> char {
    if v < 26 {
        ((65 + v) as u8) as char
    } else if v < 52 {
        ((71 + v) as u8) as char
    } else if v < 62 {
        ((v - 4) as u8) as char
    } else if v == 62 {
        '+'
    } else {
        '/'
    }
}

/// Standard base64 with `=` padding (RFC 4648, section 4): each group of
/// three bytes becomes four characters, and a final group of one or two
/// bytes is padded.
pub open spec fn base64_standard(s: Seq<u8>) -> Seq<char>
    decreases s.len(),
{
    if s.len() == 0 {
        Seq::empty()
    } else if s.len() == 1 {
        seq![base64_char((s[0] / 4) as int), base64_char((s[0] % 4) * 16), '=', '=']
    } else if s.len() == 2 {
        seq![
            base64_char((s[0] / 4) as int),
            base64_char((s[0] % 4) * 16 + s[1] / 16),
            base64_char((s[1] % 16) * 4),
            '=',
        ]
    } else {
        seq![
            base64_char((s[0] / 4) as int),
            base64_char((s[0] % 4) * 16 + s[1] / 16),
            base64_char((s[1] % 16) * 4 + s[2] / 64),
            base64_char((s[2] % 64) as int),
        ] + base64_standard(s.skip(3))
    }
}

/// Base64 writes four characters per started group of three bytes.
pub proof fn lemma_base64_len(s: Seq<u8>)
    ensures
        base64_standard(s).len() == 4 * ((s.len() + 2) / 3),
    decreases s.len(),
{
    if s.len() > 2 {
        lemma_base64_len(s.skip(3));
    }
}

/// Each value below 64 has its own base64 character, and none is the
/// padding character `=`.
pub proof fn lemma_base64_char_injective(v1: int, v2: int)
    requires
        0 <= v1 < 64,
        0 <= v2 < 64,
    ensures
        base64_char(v1) != '=',
        base64_char(v1) == base64_char(v2) ==> v1 == v2,
{
}

/// The bytes of a group are given back by its four 6-bit values.
proof fn lemma_group_bits(a: u8, b: u8, c: u8, x: u8, y: u8, z: u8)
    by (bit_vector)
    requires
        a / 4 == x / 4,
        (a % 4) * 16 + b / 16 == (x % 4) * 16 + y / 16,
        (b % 16) * 4 + c / 64 == (y % 16) * 4 + z / 64,
        c % 64 == z % 64,
    ensures
        a == x,
        b == y,
        c == z,
{
}

/// The bytes of a final group of two are given back by its three values.
proof fn lemma_pair_bits(a: u8, b: u8, x: u8, y: u8)
    by (bit_vector)
    requires
        a / 4 == x / 4,
        (a % 4) * 16 + b / 16 == (x % 4) * 16 + y / 16,
        (b % 16) * 4 == (y % 16) * 4,
    ensures
        a == x,
        b == y,
{
}

/// The byte of a final group of one is given back by its two values.
proof fn lemma_single_bits(a: u8, x: u8)
    by (bit_vector)
    requires
        a / 4 == x / 4,
        (a % 4) * 16 == (x % 4) * 16,
    ensures
        a == x,
{
}

/// Base64 loses nothing: different byte strings have different encodings.
pub proof fn lemma_base64_injective(s: Seq<u8>, t: Seq<u8>)
    ensures
        base64_standard(s) == base64_standard(t) ==> s == t,
    decreases s.len(),
{
    lemma_base64_len(s);
    lemma_base64_len(t);
    if base64_standard(s) == base64_standard(t) {
        let e = base64_standard(s);
        if s.len() == 0 || t.len() == 0 {
            assert(s.len() == 0 && t.len() == 0);
            assert(s =~= t);
        } else {
            // the third character is padding exactly when one byte is left;
            // the fourth exactly when one or two are
            if s.len() == 1 {
                lemma_base64_char_injective(((s[0] % 4) * 16) as int, 0);
            } else if s.len() == 2 {
                lemma_base64_char_injective(((s[1] % 16) * 4) as int, 0);
            } else {
                lemma_base64_char_injective(((s[1] % 16) * 4 + s[2] / 64) as int, 0);
                lemma_base64_char_injective((s[2] % 64) as int, 0);
            }
            if t.len() == 1 {
                lemma_base64_char_injective(((t[0] % 4) * 16) as int, 0);
            } else if t.len() == 2 {
                lemma_base64_char_injective(((t[1] % 16) * 4) as int, 0);
            } else {
                lemma_base64_char_injective(((t[1] % 16) * 4 + t[2] / 64) as int, 0);
                lemma_base64_char_injective((t[2] % 64) as int, 0);
            }
            assert(e[2] == '=' <==> s.len() == 1);
            assert(e[2] == '=' <==> t.len() == 1);
            assert(e[3] == '=' <==> s.len() <= 2);
            assert(e[3] == '=' <==> t.len() <= 2);
            lemma_base64_char_injective((s[0] / 4) as int, (t[0] / 4) as int);
            assert(e[0] == base64_char((s[0] / 4) as int));
            assert(e[0] == base64_char((t[0] / 4) as int));
            if s.len() == 1 {
                assert(t.len() == 1);
                lemma_base64_char_injective(((s[0] % 4) * 16) as int, ((t[0] % 4) * 16) as int);
                lemma_single_bits(s[0], t[0]);
                assert(s =~= t);
            } else {
                assert(t.len() >= 2);
                lemma_base64_char_injective(
                    ((s[0] % 4) * 16 + s[1] / 16) as int,
                    ((t[0] % 4) * 16 + t[1] / 16) as int,
                );
                if s.len() == 2 {
                    assert(t.len() == 2);
                    lemma_base64_char_injective(((s[1] % 16) * 4) as int, ((t[1] % 16) * 4) as int);
                    lemma_pair_bits(s[0], s[1], t[0], t[1]);
                    assert(s =~= t);
                } else {
                    assert(t.len() >= 3);
                    assert(e[1] == base64_char(((s[0] % 4) * 16 + s[1] / 16) as int));
                    assert(e[1] == base64_char(((t[0] % 4) * 16 + t[1] / 16) as int));
                    assert(e[2] == base64_char(((s[1] % 16) * 4 + s[2] / 64) as int));
                    assert(e[2] == base64_char(((t[1] % 16) * 4 + t[2] / 64) as int));
                    assert(e[3] == base64_char((s[2] % 64) as int));
                    assert(e[3] == base64_char((t[2] % 64) as int));
                    lemma_base64_char_injective(
                        ((s[1] % 16) * 4 + s[2] / 64) as int,
                        ((t[1] % 16) * 4 + t[2] / 64) as int,
                    );
                    lemma_base64_char_injective((s[2] % 64) as int, (t[2] % 64) as int);
                    lemma_group_bits(s[0], s[1], s[2], t[0], t[1], t[2]);
                    assert(base64_standard(s.skip(3)) =~= e.skip(4));
                    assert(base64_standard(t.skip(3)) =~= e.skip(4));
                    lemma_base64_injective(s.skip(3), t.skip(3));
                    assert(s =~= s.take(3) + s.skip(3));
                    assert(t =~= t.take(3) + t.skip(3));
                    assert(s.take(3) =~= t.take(3));
                }
            }
        }
    }
}

/// Calls `base64::Engine::encode` on `BASE64_STANDARD`, which encodes with
/// the standard alphabet and `=` padding as `base64_standard` states.
#[verifier::external_body]
pub(crate) fn base64_encode(bytes: &[u8]) -> (r: String)
    ensures
        r@ == base64_standard(bytes@),
{
    base64::prelude::BASE64_STANDARD.encode(bytes)
}

/// The digest wandb records for artifact content: the MD5 of the bytes,
/// base64-encoded, 24 characters long.
pub fn digest_bytes(bytes: &[u8]) -> (r: String)
    ensures
        r@ == base64_standard(md5_digest(bytes@)),
        r@.len() == 24,
{
    let d = md5_of(bytes);
    proof {
        lemma_base64_len(d@);
    }
    base64_encode(d.as_slice())
}

} // verus!
