//! Content addressing: a fixed-length lowercase hexadecimal key for a text.
use vstd::prelude::*;
use sha2::Digest;

verus! {

/// The lowercase hexadecimal digit of value `n` (0 to 15).
pub open spec fn hex_digit(n: int) -> char {
    if n == 0 { '0' } else if n == 1 { '1' } else if n == 2 { '2' } else if n == 3 { '3' }
    else if n == 4 { '4' } else if n == 5 { '5' } else if n == 6 { '6' } else if n == 7 { '7' }
    else if n == 8 { '8' } else if n == 9 { '9' } else if n == 10 { 'a' } else if n == 11 { 'b' }
    else if n == 12 { 'c' } else if n == 13 { 'd' } else if n == 14 { 'e' } else { 'f' }
}

/// Two lowercase digits per byte, high nibble first.
pub open spec fn hex_text(b: Seq<u8>) -> Seq<char>
    decreases b.len(),
{
    if b.len() == 0 {
        Seq::empty()
    } else {
        hex_text(b.drop_last()) + seq![
            hex_digit(b.last() as int / 16),
            hex_digit(b.last() as int % 16),
        ]
    }
}

/// The SHA-256 digest of a byte sequence.
pub uninterp spec fn sha256_of(data: Seq<u8>) -> Seq<u8>;

/// The cache key of a text: the hex form of the SHA-256 digest of its UTF-8 bytes.
pub open spec fn content_key(content: Seq<char>) -> Seq<char> {
    hex_text(sha256_of(vstd::utf8::encode_utf8(content)))
}

/// Relies on sha2's `Digest::digest` for `Sha256`: the 32-byte digest of `data`.
#[verifier::external_body]
fn sha256(data: &[u8]) -> (r: Vec<u8>)
    ensures
        r@ == sha256_of(data@),
        r@.len() == 32,
{
    sha2::Sha256::digest(data).to_vec()
}

/// Relies on `hex::encode`: two lowercase digits per byte, high nibble first.
#[verifier::external_body]
fn hex_encode(data: &[u8]) -> (r: String)
    ensures
        r@ == hex_text(data@),
{
    hex::encode(data)
}

/// The cache key of `content`.
pub fn content_hash(content: &str) -> (r: String)
    ensures
        r@ == content_key(content@),
        r@.len() == 64,
{
    let bytes = content.as_bytes();
    let d = sha256(bytes);
    proof {
        lemma_hex_text_len(d@);
    }
    hex_encode(d.as_slice())
}

pub proof fn lemma_hex_text_len(b: Seq<u8>)
    ensures
        hex_text(b).len() == 2 * b.len(),
    decreases b.len(),
{
    if b.len() > 0 {
        lemma_hex_text_len(b.drop_last());
    }
}

pub proof fn lemma_hex_digit_injective(x: int, y: int)
    requires
        0 <= x < 16,
        0 <= y < 16,
        hex_digit(x) == hex_digit(y),
    ensures
        x == y,
{
}

/// Hex encoding loses nothing: equal encodings come from equal bytes.
pub proof fn lemma_hex_text_injective(a: Seq<u8>, b: Seq<u8>)
    requires
        hex_text(a) == hex_text(b),
    ensures
        a == b,
    decreases a.len(),
{
    lemma_hex_text_len(a);
    lemma_hex_text_len(b);
    if a.len() > 0 {
        let ta = hex_text(a.drop_last());
        let tb = hex_text(b.drop_last());
        lemma_hex_text_len(a.drop_last());
        lemma_hex_text_len(b.drop_last());
        let n = ta.len() as int;
        assert(hex_text(a)[n] == hex_text(b)[n]);
        assert(hex_text(a)[n + 1] == hex_text(b)[n + 1]);
        let x = a.last() as int;
        let y = b.last() as int;
        let sa = seq![hex_digit(x / 16), hex_digit(x % 16)];
        let sb = seq![hex_digit(y / 16), hex_digit(y % 16)];
        assert(hex_text(a) == ta + sa);
        assert(hex_text(b) == tb + sb);
        assert((ta + sa)[n] == sa[0]);
        assert((tb + sb)[n] == sb[0]);
        assert((ta + sa)[n + 1] == sa[1]);
        assert((tb + sb)[n + 1] == sb[1]);
        lemma_hex_digit_injective(x / 16, y / 16);
        lemma_hex_digit_injective(x % 16, y % 16);
        assert(ta =~= hex_text(a).subrange(0, n));
        assert(tb =~= hex_text(b).subrange(0, n));
        lemma_hex_text_injective(a.drop_last(), b.drop_last());
        assert(a =~= a.drop_last().push(a.last()));
        assert(b =~= b.drop_last().push(b.last()));
    }
}

} // verus!
