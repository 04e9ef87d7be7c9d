use sha2::Digest;
use vstd::prelude::*;

use crate::text::digit_char;

verus! {

/// The SHA-224 digest of `data`.
pub uninterp spec fn spec_sha224(data: Seq<u8>) -> [u8; 28];

/// SHA-224 digest (`sha2::Sha224::digest`); the contract ties the 28 digest
/// bytes to the input through `spec_sha224` and states nothing else about them.
#[verifier::external_body]
pub(crate) fn sha224(data: &[u8]) -> (d: [u8; 28])
    ensures
        d == spec_sha224(data@),
{
    sha2::Sha224::digest(data).into()
}

/// Lower-case hexadecimal text of a byte string, two characters per byte.
pub open spec fn hex_lower(data: Seq<u8>) -> Seq<char>
    decreases data.len(),
{
    if data.len() == 0 {
        Seq::empty()
    } else {
        hex_lower(data.drop_last()) + seq![
            digit_char((data.last() / 16) as nat),
            digit_char((data.last() % 16) as nat),
        ]
    }
}

/// Hexadecimal text of `data` in lower case (`hex::encode`).
#[verifier::external_body]
pub(crate) fn hex_encode(data: &[u8]) -> (s: String)
    ensures
        s@ == hex_lower(data@),
{
    hex::encode(data)
}

/// The hexadecimal text has two characters per byte.
pub proof fn lemma_hex_lower_len(data: Seq<u8>)
    ensures
        hex_lower(data).len() == 2 * data.len(),
    decreases data.len(),
{
    if data.len() > 0 {
        lemma_hex_lower_len(data.drop_last());
    }
}

/// Every character of the hexadecimal text is a digit `0`-`9` or a letter
/// `a`-`f`.
pub proof fn lemma_hex_lower_digits(data: Seq<u8>)
    ensures
        forall|i: int|
            0 <= i < hex_lower(data).len() ==> {
                let c = #[trigger] hex_lower(data)[i];
                ('0' <= c <= '9') || ('a' <= c <= 'f')
            },
    decreases data.len(),
{
    if data.len() > 0 {
        lemma_hex_lower_digits(data.drop_last());
        lemma_hex_lower_len(data.drop_last());
    }
}

} // verus!
