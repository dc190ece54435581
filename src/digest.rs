use vstd::prelude::*;

verus! {

/// The character for a digit value below 16 (lower case past 9).
pub open spec fn hex_digit(n: nat) -> char {
    seq!['0', '1', '2', '3', '4', '5', '6', '7', '8', '9', 'a', 'b', 'c', 'd', 'e', 'f'][n as int]
}

/// Two lower-case hexadecimal digits per byte, high nibble first.
pub open spec fn hex_of(b: Seq<u8>) -> Seq<char>
    decreases b.len(),
{
    if b.len() == 0 {
        Seq::empty()
    } else {
        seq![hex_digit(b[0] as nat / 16), hex_digit(b[0] as nat % 16)] + hex_of(b.subrange(1, b.len() as int))
    }
}

/// The decimal digits of `n`, most significant first, without leading zeros.
pub open spec fn dec_of(n: nat) -> Seq<char>
    decreases n,
{
    if n < 10 {
        seq![hex_digit(n)]
    } else {
        dec_of(n / 10) + seq![hex_digit(n % 10)]
    }
}

/// The BLAKE2s-256 digest of a byte sequence.
pub uninterp spec fn blake2s_of(data: Seq<u8>) -> Seq<u8>;

/// Relies on blake2's `Blake2s` through `Digest::digest`: the 32-byte BLAKE2s
/// digest, which depends on the input bytes alone.
#[verifier::external_body]
pub(crate) fn blake2s(data: &Vec<u8>) -> (r: Vec<u8>)
    ensures
        r@ == blake2s_of(data@),
        r@.len() == 32,
{
    <blake2::Blake2s as blake2::Digest>::digest(data.as_slice()).to_vec()
}

/// Relies on `hex::encode`: two lower-case hexadecimal digits for each byte,
/// high nibble first.
#[verifier::external_body]
pub(crate) fn hex_encode(b: &Vec<u8>) -> (r: String)
    ensures
        r@ == hex_of(b@),
{
    hex::encode(b)
}

/// Relies on `ToString` for `usize` (through `Display`): the decimal digits.
#[verifier::external_body]
pub(crate) fn decimal(n: usize) -> (r: String)
    ensures
        r@ == dec_of(n as nat),
{
    n.to_string()
}

} // verus!
