//! Canonical text rendering and the digest used for every hash in the ledger.

use crate::ledger::Chain;
use sha2::Digest;
use vstd::prelude::*;

verus! {

/// Length, in hex characters, of every hash the ledger produces.
pub const HASH_HEX_LEN: i32 = 64;

/// The sixteen lowercase hex digits, in order.
pub open spec fn hex_chars() -> Seq<char> {
    seq!['0', '1', '2', '3', '4', '5', '6', '7', '8', '9', 'a', 'b', 'c', 'd', 'e', 'f']
}

/// Two lowercase hex digits per byte, most significant nibble first, no separator.
pub open spec fn hex_of(b: Seq<u8>) -> Seq<char>
    decreases b.len(),
{
    if b.len() == 0 {
        Seq::empty()
    } else {
        hex_of(b.drop_last()) + seq![
            hex_chars()[(b.last() / 16) as int],
            hex_chars()[(b.last() % 16) as int],
        ]
    }
}

/// Decimal digits of a natural number, without leading zeros.
pub open spec fn digits(n: nat) -> Seq<char>
    decreases n,
{
    if n < 10 {
        seq![hex_chars()[n as int]]
    } else {
        digits(n / 10) + seq![hex_chars()[(n % 10) as int]]
    }
}

/// Decimal rendering of an integer, with a leading '-' when negative.
pub open spec fn decimal(v: int) -> Seq<char> {
    if v < 0 {
        seq!['-'] + digits((-v) as nat)
    } else {
        digits(v as nat)
    }
}

/// The SHA-256 digest of the UTF-8 encoding of a text.
pub uninterp spec fn sha256_of_text(s: Seq<char>) -> Seq<u8>;

/// The JSON string literal for a text: quoted, with JSON escapes.
pub uninterp spec fn json_string_of(s: Seq<char>) -> Seq<char>;

/// The hash of a canonical text: its SHA-256 digest as lowercase hex.
pub open spec fn hash_of(text: Seq<char>) -> Seq<char> {
    hex_of(sha256_of_text(text))
}

/// Relies on sha2::Sha256::digest over the text's UTF-8 bytes; the digest is 32 bytes.
#[verifier::external_body]
fn sha256_text(s: &str) -> (r: Vec<u8>)
    ensures
        r@ == sha256_of_text(s@),
        r@.len() == 32,
{
    sha2::Sha256::digest(s.as_bytes()).to_vec()
}

/// Relies on serde_json's Display of `Value::String`: the text as a quoted, escaped JSON string.
#[verifier::external_body]
pub(crate) fn json_string(s: &str) -> (r: String)
    ensures
        r@ == json_string_of(s@),
{
    serde_json::Value::String(s.to_string()).to_string()
}

/// Relies on serde_json's Display of a `Value` made from an `i64`: its decimal digits.
#[verifier::external_body]
pub(crate) fn json_int(v: i64) -> (r: String)
    ensures
        r@ == decimal(v as int),
{
    serde_json::Value::from(v).to_string()
}

/// A value with a canonical text form, whose fields appear in a fixed declared order.
pub trait Encode {
    spec fn encoding(&self) -> Seq<char>;

    fn encode(&self) -> (r: String)
        ensures
            r@ == self.encoding(),
    ;
}

impl Encode for String {
    open spec fn encoding(&self) -> Seq<char> {
        json_string_of(self@)
    }

    fn encode(&self) -> (r: String) {
        json_string(self.as_str())
    }
}

impl Chain {
    /// Renders bytes as lowercase hex, two characters for every byte.
    pub fn hex_to_string(vec_res: &[u8]) -> (s: String)
        ensures
            s@ == hex_of(vec_res@),
            s@.len() == 2 * vec_res@.len(),
    {
        let table = "0123456789abcdef";
        proof {
            reveal_strlit("0123456789abcdef");
            assert(table@ =~= hex_chars());
        }
        let mut s = String::new();
        let mut i: usize = 0;
        while i < vec_res.len()
            invariant
                i <= vec_res@.len(),
                table@ == hex_chars(),
                table.is_ascii(),
                s@ == hex_of(vec_res@.subrange(0, i as int)),
                s@.len() == 2 * i,
            decreases vec_res@.len() - i,
        {
            let b = vec_res[i];
            let hi = (b / 16) as usize;
            let lo = (b % 16) as usize;
            s.append(table.substring_ascii(hi, hi + 1));
            s.append(table.substring_ascii(lo, lo + 1));
            proof {
                let prefix = vec_res@.subrange(0, i + 1);
                assert(prefix.drop_last() =~= vec_res@.subrange(0, i as int));
                assert(s@ =~= hex_of(prefix));
            }
            i = i + 1;
        }
        assert(vec_res@.subrange(0, vec_res@.len() as int) =~= vec_res@);
        s
    }

    /// Hashes a value: the SHA-256 digest of its canonical text, as lowercase hex.
    pub fn hash<T: Encode>(item: &T) -> (r: String)
        ensures
            r@ == hash_of(item.encoding()),
            r@.len() == HASH_HEX_LEN,
    {
        let input = item.encode();
        let digest = sha256_text(input.as_str());
        Chain::hex_to_string(digest.as_slice())
    }
}

} // verus!
