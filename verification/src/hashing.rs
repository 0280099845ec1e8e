//! Content hashing for change detection: a SHA-256 digest of a feed's raw
//! content, rendered as a lowercase hex string. Equal raw content always
//! yields the equal hash, so a hash comparison can bound refresh work to
//! feeds whose content changed.

use vstd::prelude::*;

verus! {

/// What `sha2::Sha256` computes: a digest that is a function of the input
/// bytes alone.
pub uninterp spec fn sha256_of(b: Seq<u8>) -> Seq<u8>;

/// Relies on sha2::Sha256::digest: a 32-byte digest that depends on the
/// input bytes alone, on every machine.
#[verifier::external_body]
fn sha256_digest(raw: &Vec<u8>) -> (h: Vec<u8>)
    ensures
        h@ == sha256_of(raw@),
        h@.len() == 32,
{
    let digest = <sha2::Sha256 as sha2::Digest>::digest(raw.as_slice());
    digest.to_vec()
}

/// The hex character for a value below 16: position `d` of the lowercase
/// hex alphabet.
pub open spec fn hex_digit_char(d: int) -> char {
    "0123456789abcdef"@[d]
}

/// Lowercase hex rendering of a byte sequence, two digits per byte.
pub open spec fn hex_of(b: Seq<u8>) -> Seq<char>
    decreases b.len(),
{
    if b.len() == 0 {
        Seq::<char>::empty()
    } else {
        hex_of(b.drop_last()).push(hex_digit_char(b.last() as int / 16)).push(
            hex_digit_char(b.last() as int % 16),
        )
    }
}

/// Renders bytes as a lowercase hex string, two digits per byte.
pub fn to_hex_string(bytes: &Vec<u8>) -> (r: String)
    ensures
        r@ == hex_of(bytes@),
        r@.len() == 2 * bytes@.len(),
{
    let digits = "0123456789abcdef";
    proof {
        reveal_strlit("0123456789abcdef");
        assert(digits@.len() == 16);
    }
    let mut out = String::new();
    let mut i: usize = 0;
    while i < bytes.len()
        invariant
            i <= bytes@.len(),
            digits@ == "0123456789abcdef"@,
            digits@.len() == 16,
            out@ == hex_of(bytes@.take(i as int)),
            out@.len() == 2 * i,
        decreases bytes@.len() - i,
    {
        let b = bytes[i];
        let hi = (b / 16) as usize;
        let lo = (b % 16) as usize;
        let hc = digits.substring_char(hi, hi + 1);
        out.append(hc);
        let lc = digits.substring_char(lo, lo + 1);
        out.append(lc);
        proof {
            let pre = bytes@.take(i as int);
            let cur = bytes@.take(i as int + 1);
            assert(cur.drop_last() =~= pre);
            assert(cur.last() == bytes@[i as int]);
            assert(hc@ =~= seq![hex_digit_char(hi as int)]);
            assert(lc@ =~= seq![hex_digit_char(lo as int)]);
            assert(out@ =~= hex_of(pre).push(hex_digit_char(hi as int)).push(
                hex_digit_char(lo as int),
            ));
        }
        i = i + 1;
    }
    proof {
        assert(bytes@.take(bytes@.len() as int) =~= bytes@);
    }
    out
}

/// The content hash of raw feed content: the lowercase hex SHA-256 digest.
pub open spec fn content_hash_spec(raw: Seq<u8>) -> Seq<char> {
    hex_of(sha256_of(raw))
}

/// Computes the content hash of raw feed content, a deterministic digest:
/// equal content always yields the equal hash.
pub fn content_hash(raw: &Vec<u8>) -> (r: String)
    ensures
        r@ == content_hash_spec(raw@),
        r@.len() == 64,
{
    let digest = sha256_digest(raw);
    to_hex_string(&digest)
}

} // verus!
