use vstd::prelude::*;

use crate::error::{Result, TrojanErrorView};

verus! {

/// Progress of decoding a message from the bytes received so far.
#[derive(Debug)]
pub enum Progress<T> {
    /// The message is complete and occupies the given number of leading bytes.
    Done(T, usize),
    /// This many further bytes are needed before decoding can go on.
    NeedMore(usize),
}

/// Mathematical outcome of one decoding step.
pub enum Step<V> {
    Done(V, nat),
    NeedMore(nat),
    Fail(TrojanErrorView),
}

/// The executable outcome `r` is the one that `s` describes.
pub open spec fn step_holds<T: View>(r: Result<Progress<T>>, s: Step<T::V>) -> bool {
    match s {
        Step::Done(v, n) => r matches Ok(Progress::Done(t, m)) && t@ == v && m == n,
        Step::NeedMore(k) => r matches Ok(Progress::NeedMore(m)) && m == k,
        Step::Fail(e) => r matches Err(x) && x@ == e,
    }
}

/// What a reader gets by driving a step decoder over a stream.
pub enum StreamRead<V> {
    /// The message, and how many bytes were taken from the stream.
    Done(V, nat),
    /// The decoder refused the bytes taken so far.
    Fail(TrojanErrorView),
    /// The stream ended before the bytes the decoder asked for; this many
    /// bytes had been taken.
    Ended(nat),
}

/// Driving the decoder `step` over a stream that holds `b`, with the first
/// `m` bytes already taken: each step sees exactly the bytes taken so far,
/// and the reader then takes exactly as many more as the step asks for.
pub open spec fn stream_read<V>(step: spec_fn(Seq<u8>) -> Step<V>, b: Seq<u8>, m: nat) -> StreamRead<
    V,
>
    decreases b.len() - m,
{
    if m > b.len() {
        StreamRead::Ended(m)
    } else {
        match step(b.subrange(0, m as int)) {
            Step::Done(v, n) => StreamRead::Done(v, n),
            Step::Fail(e) => StreamRead::Fail(e),
            Step::NeedMore(k) => if k == 0 || m + k > b.len() {
                StreamRead::Ended(m)
            } else {
                stream_read(step, b, m + k)
            },
        }
    }
}

/// Big-endian encoding of a 16-bit value.
pub open spec fn be16(v: u16) -> Seq<u8> {
    seq![(v / 256) as u8, (v % 256) as u8]
}

/// The 16-bit value whose big-endian encoding is `hi, lo`.
pub open spec fn be16_value(hi: u8, lo: u8) -> u16 {
    (hi * 256 + lo) as u16
}

/// Big-endian encoding of a 64-bit value.
pub open spec fn be64(v: u64) -> Seq<u8> {
    seq![
        (v >> 56u64) as u8,
        (v >> 48u64) as u8,
        (v >> 40u64) as u8,
        (v >> 32u64) as u8,
        (v >> 24u64) as u8,
        (v >> 16u64) as u8,
        (v >> 8u64) as u8,
        v as u8,
    ]
}

/// The 64-bit value whose big-endian encoding is the first eight bytes of `b`.
pub open spec fn be64_value(b: Seq<u8>) -> u64 {
    ((b[0] as u64) << 56u64) | ((b[1] as u64) << 48u64) | ((b[2] as u64) << 40u64) | ((
    b[3] as u64) << 32u64) | ((b[4] as u64) << 24u64) | ((b[5] as u64) << 16u64) | ((
    b[6] as u64) << 8u64) | (b[7] as u64)
}

/// The two-byte line terminator used throughout the protocol.
pub open spec fn crlf() -> Seq<u8> {
    seq![0x0du8, 0x0au8]
}

/// ASCII hexadecimal digit (either case).
pub open spec fn is_hex_digit(b: u8) -> bool {
    (0x30 <= b <= 0x39) || (0x41 <= b <= 0x46) || (0x61 <= b <= 0x66)
}

/// Every byte of `s` is an ASCII hexadecimal digit.
pub open spec fn all_hex(s: Seq<u8>) -> bool {
    forall|i: int| 0 <= i < s.len() ==> #[trigger] is_hex_digit(s[i])
}

/// ASCII lower-casing of a single byte.
pub open spec fn ascii_lower(b: u8) -> u8 {
    if 0x41 <= b <= 0x5a {
        (b + 32) as u8
    } else {
        b
    }
}

/// Byte-wise equality of two sequences ignoring ASCII case.
pub open spec fn eq_ignore_ascii_case(a: Seq<u8>, b: Seq<u8>) -> bool {
    a.len() == b.len() && forall|i: int| 0 <= i < a.len() ==> #[trigger] ascii_lower(a[i])
        == ascii_lower(b[i])
}

/// Decodes two big-endian bytes.
pub(crate) fn u16_from_be(hi: u8, lo: u8) -> (v: u16)
    ensures
        v == be16_value(hi, lo),
{
    (hi as u16) * 256 + (lo as u16)
}

/// Decodes eight big-endian bytes.
pub(crate) fn u64_from_be(b: &[u8]) -> (v: u64)
    requires
        b@.len() >= 8,
    ensures
        v == be64_value(b@),
{
    ((b[0] as u64) << 56u64) | ((b[1] as u64) << 48u64) | ((b[2] as u64) << 40u64) | ((
    b[3] as u64) << 32u64) | ((b[4] as u64) << 24u64) | ((b[5] as u64) << 16u64) | ((
    b[6] as u64) << 8u64) | (b[7] as u64)
}

/// Reading back a big-endian 16-bit encoding gives the value.
pub proof fn lemma_be16_roundtrip(v: u16)
    ensures
        be16(v).len() == 2,
        be16_value(be16(v)[0], be16(v)[1]) == v,
{
}

/// Reading back a big-endian 64-bit encoding gives the value.
pub proof fn lemma_be64_roundtrip(v: u64)
    ensures
        be64(v).len() == 8,
        be64_value(be64(v)) == v,
{
    let b = be64(v);
    assert(((((v >> 56u64) as u8) as u64) << 56u64) | ((((v >> 48u64) as u8) as u64) << 48u64)
        | ((((v >> 40u64) as u8) as u64) << 40u64) | ((((v >> 32u64) as u8) as u64) << 32u64)
        | ((((v >> 24u64) as u8) as u64) << 24u64) | ((((v >> 16u64) as u8) as u64) << 16u64)
        | ((((v >> 8u64) as u8) as u64) << 8u64) | ((v as u8) as u64) == v) by (bit_vector);
}

/// Appends the bytes of `s` to `v`.
pub(crate) fn extend_bytes(v: &mut Vec<u8>, s: &[u8])
    ensures
        final(v)@ == old(v)@ + s@,
{
    let ghost v0 = v@;
    let mut i: usize = 0;
    while i < s.len()
        invariant
            0 <= i <= s@.len(),
            v@ == v0 + s@.subrange(0, i as int),
        decreases s@.len() - i,
    {
        v.push(s[i]);
        i = i + 1;
        assert(s@.subrange(0, i as int) =~= s@.subrange(0, i - 1).push(s@[i - 1]));
    }
    assert(s@.subrange(0, s@.len() as int) =~= s@);
}

/// Appends the big-endian encoding of `x`.
pub(crate) fn push_be16(v: &mut Vec<u8>, x: u16)
    ensures
        final(v)@ == old(v)@ + be16(x),
{
    v.push((x / 256) as u8);
    v.push((x % 256) as u8);
    assert(v@ =~= old(v)@ + be16(x));
}

/// Whether every byte of `s` is an ASCII hexadecimal digit.
pub(crate) fn all_hex_digits(s: &[u8]) -> (r: bool)
    ensures
        r == all_hex(s@),
{
    let mut i: usize = 0;
    while i < s.len()
        invariant
            0 <= i <= s@.len(),
            forall|j: int| 0 <= j < i ==> #[trigger] is_hex_digit(s@[j]),
        decreases s@.len() - i,
    {
        let b = s[i];
        if !((0x30 <= b && b <= 0x39) || (0x41 <= b && b <= 0x46) || (0x61 <= b && b <= 0x66)) {
            assert(!is_hex_digit(s@[i as int]));
            return false;
        }
        i = i + 1;
    }
    true
}

/// Whether two byte strings are equal.
pub(crate) fn bytes_equal(a: &[u8], b: &[u8]) -> (r: bool)
    ensures
        r == (a@ == b@),
{
    if a.len() != b.len() {
        return false;
    }
    let mut i: usize = 0;
    while i < a.len()
        invariant
            0 <= i <= a@.len(),
            a@.len() == b@.len(),
            forall|j: int| 0 <= j < i ==> a@[j] == b@[j],
        decreases a@.len() - i,
    {
        if a[i] != b[i] {
            return false;
        }
        i = i + 1;
    }
    assert(a@ =~= b@);
    true
}

/// Lower-cases one ASCII byte.
pub(crate) fn to_ascii_lower(b: u8) -> (r: u8)
    ensures
        r == ascii_lower(b),
{
    if 0x41 <= b && b <= 0x5a {
        b + 32
    } else {
        b
    }
}

/// Compares two byte strings ignoring ASCII case.
pub(crate) fn bytes_eq_ignore_ascii_case(a: &[u8], b: &[u8]) -> (r: bool)
    ensures
        r == eq_ignore_ascii_case(a@, b@),
{
    if a.len() != b.len() {
        return false;
    }
    let mut i: usize = 0;
    while i < a.len()
        invariant
            0 <= i <= a@.len(),
            a@.len() == b@.len(),
            forall|j: int| 0 <= j < i ==> #[trigger] ascii_lower(a@[j]) == ascii_lower(b@[j]),
        decreases a@.len() - i,
    {
        if to_ascii_lower(a[i]) != to_ascii_lower(b[i]) {
            return false;
        }
        i = i + 1;
    }
    true
}

/// Comparing byte strings ignoring ASCII case is symmetric, and holds exactly
/// when the strings have the same length and each pair of bytes is equal or
/// is one ASCII letter in its upper- and lower-case forms.
pub proof fn lemma_eq_ignore_ascii_case_laws(a: Seq<u8>, b: Seq<u8>)
    ensures
        eq_ignore_ascii_case(a, b) == eq_ignore_ascii_case(b, a),
        eq_ignore_ascii_case(a, b) <==> (a.len() == b.len() && forall|i: int|
            0 <= i < a.len() ==> {
                let (x, y) = (#[trigger] a[i], b[i]);
                x == y || (0x41 <= x <= 0x5a && y == x + 32) || (0x41 <= y <= 0x5a && x == y + 32)
            }),
{
    if eq_ignore_ascii_case(a, b) {
        assert forall|i: int| 0 <= i < b.len() implies #[trigger] ascii_lower(b[i]) == ascii_lower(a[i]) by {
            assert(ascii_lower(a[i]) == ascii_lower(b[i]));
        }
    }
    if eq_ignore_ascii_case(b, a) {
        assert forall|i: int| 0 <= i < a.len() implies #[trigger] ascii_lower(a[i]) == ascii_lower(b[i]) by {
            assert(ascii_lower(b[i]) == ascii_lower(a[i]));
        }
    }
    if a.len() == b.len() && forall|i: int|
        0 <= i < a.len() ==> {
            let (x, y) = (#[trigger] a[i], b[i]);
            x == y || (0x41 <= x <= 0x5a && y == x + 32) || (0x41 <= y <= 0x5a && x == y + 32)
        } {
        assert forall|i: int| 0 <= i < a.len() implies #[trigger] ascii_lower(a[i]) == ascii_lower(b[i]) by {
            let (x, y) = (a[i], b[i]);
            assert(x == y || (0x41 <= x <= 0x5a && y == x + 32) || (0x41 <= y <= 0x5a && x == y + 32));
        }
    }
    if eq_ignore_ascii_case(a, b) {
        assert forall|i: int| 0 <= i < a.len() implies {
            let (x, y) = (#[trigger] a[i], b[i]);
            x == y || (0x41 <= x <= 0x5a && y == x + 32) || (0x41 <= y <= 0x5a && x == y + 32)
        } by {
            assert(ascii_lower(a[i]) == ascii_lower(b[i]));
        }
    }
}

} // verus!
