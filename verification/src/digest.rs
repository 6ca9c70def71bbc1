//! Content digests in texe's `sha256:<hex>` form.
use vstd::prelude::*;
use sha2::Digest;

verus! {

/// The SHA-256 hash of some bytes.
pub uninterp spec fn sha256(bytes: Seq<u8>) -> Seq<u8>;

/// `Sha256::digest(bytes)`: the 32-byte SHA-256 hash. Hashing a stream in
/// pieces gives the hash of their concatenation, so callers hash one
/// buffer.
#[verifier::external_body]
pub(crate) fn sha256_of(bytes: &[u8]) -> (r: Vec<u8>)
    ensures
        r@ == sha256(bytes@),
        r@.len() == 32,
{
    sha2::Sha256::digest(bytes).to_vec()
}

/// A lowercase hexadecimal digit.
pub open spec fn hex_digit(n: u8) -> char {
    if n < 10 {
        ((n + 48) as u8) as char
    } else {
        ((n + 87) as u8) as char
    }
}

/// Each byte as two lowercase hexadecimal digits, high nibble first.
pub open spec fn hex_text(bytes: Seq<u8>) -> Seq<char>
    decreases bytes.len(),
{
    if bytes.len() == 0 {
        Seq::empty()
    } else {
        hex_text(bytes.drop_last()) + seq![hex_digit(bytes.last() / 16), hex_digit(bytes.last() % 16)]
    }
}

/// `hex::encode(bytes)`, which writes each byte as two lowercase
/// hexadecimal digits.
#[verifier::external_body]
pub(crate) fn hex_encode(bytes: &[u8]) -> (r: String)
    ensures
        r@ == hex_text(bytes@),
{
    hex::encode(bytes)
}

/// A lowercase hexadecimal digit character.
pub open spec fn is_lower_hex(c: char) -> bool {
    ('0' <= c && c <= '9') || ('a' <= c && c <= 'f')
}

/// The form of texe's digests: `sha256:` and 64 lowercase hexadecimal digits.
pub open spec fn digest_form(s: Seq<char>) -> bool {
    &&& s.len() == 71
    &&& s.subrange(0, 7) == "sha256:"@
    &&& forall|i: int| 7 <= i < 71 ==> is_lower_hex(#[trigger] s[i])
}

pub proof fn lemma_hex_text(bytes: Seq<u8>)
    ensures
        hex_text(bytes).len() == 2 * bytes.len(),
        forall|i: int| 0 <= i < hex_text(bytes).len() ==> is_lower_hex(#[trigger] hex_text(bytes)[i]),
    decreases bytes.len(),
{
    if bytes.len() > 0 {
        lemma_hex_text(bytes.drop_last());
        let h = hex_text(bytes.drop_last());
        let hi = hex_digit(bytes.last() / 16);
        let lo = hex_digit(bytes.last() % 16);
        assert(is_lower_hex(hi) && is_lower_hex(lo)) by {
            let a = bytes.last() / 16;
            let b = bytes.last() % 16;
            assert(a < 16 && b < 16);
            if a < 10 {
                assert(((a + 48) as u8) as char == hi);
            }
        }
        assert(hex_text(bytes) == h + seq![hi, lo]);
        assert forall|i: int| 0 <= i < hex_text(bytes).len() implies is_lower_hex(#[trigger] hex_text(bytes)[i]) by {
            if i < h.len() {
                assert(hex_text(bytes)[i] == h[i]);
            }
        }
    }
}

/// texe's digest of some bytes: `sha256:` and the hexadecimal hash.
pub open spec fn digest_text(bytes: Seq<u8>) -> Seq<char> {
    "sha256:"@ + hex_text(sha256(bytes))
}

pub fn digest(bytes: &[u8]) -> (r: String)
    ensures
        r@ == digest_text(bytes@),
        digest_form(r@),
{
    let hash = sha256_of(bytes);
    let mut r = String::from_str("sha256:");
    r.append(hex_encode(hash.as_slice()).as_str());
    proof {
        reveal_strlit("sha256:");
        lemma_hex_text(hash@);
        let h = hex_text(hash@);
        assert(r@ == "sha256:"@ + h);
        assert(r@.subrange(0, 7) =~= "sha256:"@);
        assert forall|i: int| 7 <= i < 71 implies is_lower_hex(#[trigger] r@[i]) by {
            assert(r@[i] == h[i - 7]);
        }
    }
    r
}

} // verus!
