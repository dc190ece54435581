//! The canonical byte encoding that content hashes are taken over.
use vstd::prelude::*;
use vstd::string::StringSliceAdditionalSpecFns;
use vstd::utf8::encode_utf8;

verus! {

/// `256` to the power `k`.
pub open spec fn pow256(k: nat) -> nat
    decreases k,
{
    if k == 0 {
        1
    } else {
        256 * pow256((k - 1) as nat)
    }
}

/// The `k` low bytes of `n`, least significant first.
pub open spec fn le_bytes(n: nat, k: nat) -> Seq<u8>
    decreases k,
{
    if k == 0 {
        Seq::empty()
    } else {
        seq![(n % 256) as u8] + le_bytes(n / 256, (k - 1) as nat)
    }
}

pub proof fn lemma_le_bytes_len(n: nat, k: nat)
    ensures
        le_bytes(n, k).len() == k,
    decreases k,
{
    if k > 0 {
        lemma_le_bytes_len(n / 256, (k - 1) as nat);
    }
}

/// Numbers below `256^k` have distinct `k`-byte encodings.
pub proof fn lemma_le_bytes_injective(a: nat, b: nat, k: nat)
    requires
        a < pow256(k),
        b < pow256(k),
        le_bytes(a, k) == le_bytes(b, k),
    ensures
        a == b,
    decreases k,
{
    if k > 0 {
        let p = pow256((k - 1) as nat);
        let ta = le_bytes(a / 256, (k - 1) as nat);
        let tb = le_bytes(b / 256, (k - 1) as nat);
        lemma_le_bytes_len(a / 256, (k - 1) as nat);
        lemma_le_bytes_len(b / 256, (k - 1) as nat);
        assert(le_bytes(a, k)[0] == (a % 256) as u8);
        assert(le_bytes(b, k)[0] == (b % 256) as u8);
        assert(a % 256 == b % 256);
        assert(ta =~= le_bytes(a, k).subrange(1, k as int));
        assert(tb =~= le_bytes(b, k).subrange(1, k as int));
        assert(a / 256 < p) by (nonlinear_arith)
            requires a < 256 * p;
        assert(b / 256 < p) by (nonlinear_arith)
            requires b < 256 * p;
        lemma_le_bytes_injective(a / 256, b / 256, (k - 1) as nat);
        assert(a == 256 * (a / 256) + a % 256) by (nonlinear_arith);
        assert(b == 256 * (b / 256) + b % 256) by (nonlinear_arith);
    }
}

/// Appends the `k` low bytes of `n`, least significant first.
pub(crate) fn push_le(out: &mut Vec<u8>, n: u128, k: usize)
    requires
        k <= 16,
    ensures
        final(out)@ == old(out)@ + le_bytes(n as nat, k as nat),
{
    let mut x: u128 = n;
    let mut i: usize = 0;
    while i < k
        invariant
            i <= k,
            out@ + le_bytes(x as nat, (k - i) as nat) == old(out)@ + le_bytes(n as nat, k as nat),
        decreases k - i,
    {
        let byte: u8 = (x % 256) as u8;
        let ghost before = out@;
        out.push(byte);
        assert(le_bytes(x as nat, (k - i) as nat) == seq![byte] + le_bytes((x / 256) as nat, (k - i - 1) as nat));
        assert(out@ + le_bytes((x / 256) as nat, (k - i - 1) as nat) =~= before + le_bytes(x as nat, (k - i) as nat));
        x = x / 256;
        i = i + 1;
    }
}

/// Appends every byte of `b`, in order.
pub(crate) fn push_all(out: &mut Vec<u8>, b: &[u8])
    ensures
        final(out)@ == old(out)@ + b@,
{
    let mut i: usize = 0;
    while i < b.len()
        invariant
            i <= b@.len(),
            out@ == old(out)@ + b@.subrange(0, i as int),
        decreases b@.len() - i,
    {
        out.push(b[i]);
        assert(b@.subrange(0, i + 1) =~= b@.subrange(0, i as int).push(b@[i as int]));
        i = i + 1;
    }
    assert(b@.subrange(0, b@.len() as int) =~= b@);
}

} // verus!

verus! {

/// A string's UTF-8 bytes, preceded by their number in eight bytes.
pub open spec fn str_bytes(s: Seq<char>) -> Seq<u8> {
    le_bytes(encode_utf8(s).len(), 8) + encode_utf8(s)
}

/// A tag byte for absence or presence, then the string's encoding.
pub open spec fn opt_str_bytes(o: Option<String>) -> Seq<u8> {
    match o {
        None => seq![0u8],
        Some(s) => seq![1u8] + str_bytes(s@),
    }
}

pub(crate) fn push_opt_str(out: &mut Vec<u8>, o: &Option<String>)
    ensures
        final(out)@ == old(out)@ + opt_str_bytes(*o),
{
    let ghost start = out@;
    match o {
        None => {
            out.push(0u8);
            assert(out@ =~= start + opt_str_bytes(*o));
        },
        Some(s) => {
            out.push(1u8);
            let b = s.as_str().as_bytes();
            push_le(out, b.len() as u128, 8);
            push_all(out, b);
            assert(out@ =~= start + opt_str_bytes(*o));
        },
    }
}

} // verus!
