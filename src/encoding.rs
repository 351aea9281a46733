//! Fixed-width little-endian integers and the raw byte form of values that
//! travel as bare bytes inside larger messages.

use vstd::prelude::*;

verus! {

/// The eight little-endian bytes of `x`.
pub open spec fn u64_le(x: u64) -> Seq<u8> {
    seq![
        x as u8,
        (x >> 8u64) as u8,
        (x >> 16u64) as u8,
        (x >> 24u64) as u8,
        (x >> 32u64) as u8,
        (x >> 40u64) as u8,
        (x >> 48u64) as u8,
        (x >> 56u64) as u8,
    ]
}

/// The four little-endian bytes of `x`.
pub open spec fn u32_le(x: u32) -> Seq<u8> {
    seq![x as u8, (x >> 8u32) as u8, (x >> 16u32) as u8, (x >> 24u32) as u8]
}

/// The integer whose little-endian bytes are `b0 .. b7`.
pub open spec fn u64_of_bytes(
    b0: u8,
    b1: u8,
    b2: u8,
    b3: u8,
    b4: u8,
    b5: u8,
    b6: u8,
    b7: u8,
) -> u64 {
    (b0 as u64) | ((b1 as u64) << 8u64) | ((b2 as u64) << 16u64) | ((b3 as u64) << 24u64) | ((
    b4 as u64) << 32u64) | ((b5 as u64) << 40u64) | ((b6 as u64) << 48u64) | ((b7 as u64)
        << 56u64)
}

/// The integer read little-endian from the first eight bytes of `b`.
pub open spec fn le_u64(b: Seq<u8>) -> u64
    recommends
        b.len() >= 8,
{
    u64_of_bytes(b[0], b[1], b[2], b[3], b[4], b[5], b[6], b[7])
}

/// Reading back the bytes written for `x` gives `x`.
pub proof fn lemma_u64_le_round_trip(x: u64)
    ensures
        le_u64(u64_le(x)) == x,
{
    let (b0, b1, b2, b3) = (x as u8, (x >> 8u64) as u8, (x >> 16u64) as u8, (x >> 24u64) as u8);
    let (b4, b5, b6, b7) = (
        (x >> 32u64) as u8,
        (x >> 40u64) as u8,
        (x >> 48u64) as u8,
        (x >> 56u64) as u8,
    );
    assert(u64_of_bytes(b0, b1, b2, b3, b4, b5, b6, b7) == x) by (bit_vector)
        requires
            b0 == x as u8,
            b1 == (x >> 8u64) as u8,
            b2 == (x >> 16u64) as u8,
            b3 == (x >> 24u64) as u8,
            b4 == (x >> 32u64) as u8,
            b5 == (x >> 40u64) as u8,
            b6 == (x >> 48u64) as u8,
            b7 == (x >> 56u64) as u8,
    ;
    assert(le_u64(u64_le(x)) == u64_of_bytes(b0, b1, b2, b3, b4, b5, b6, b7));
}

/// Writing back an integer read from eight bytes gives those bytes.
pub proof fn lemma_le_u64_inverse(b: Seq<u8>)
    requires
        b.len() == 8,
    ensures
        u64_le(le_u64(b)) == b,
{
    let (b0, b1, b2, b3, b4, b5, b6, b7) = (b[0], b[1], b[2], b[3], b[4], b[5], b[6], b[7]);
    let x = u64_of_bytes(b0, b1, b2, b3, b4, b5, b6, b7);
    assert(x as u8 == b0 && (x >> 8u64) as u8 == b1 && (x >> 16u64) as u8 == b2 && (x >> 24u64)
        as u8 == b3 && (x >> 32u64) as u8 == b4 && (x >> 40u64) as u8 == b5 && (x >> 48u64) as u8
        == b6 && (x >> 56u64) as u8 == b7) by (bit_vector)
        requires
            x == u64_of_bytes(b0, b1, b2, b3, b4, b5, b6, b7),
    ;
    assert(u64_le(x) =~= b);
}

/// The integer read little-endian from the first four bytes of `b`.
pub open spec fn le_u32(b: Seq<u8>) -> u32
    recommends
        b.len() >= 4,
{
    (b[0] as u32) | ((b[1] as u32) << 8u32) | ((b[2] as u32) << 16u32) | ((b[3] as u32) << 24u32)
}

/// Writing back an integer read from four bytes gives those bytes.
pub proof fn lemma_le_u32_inverse(b: Seq<u8>)
    requires
        b.len() == 4,
    ensures
        u32_le(le_u32(b)) == b,
{
    let (b0, b1, b2, b3) = (b[0], b[1], b[2], b[3]);
    let x = le_u32(b);
    assert(x as u8 == b0 && (x >> 8u32) as u8 == b1 && (x >> 16u32) as u8 == b2 && (x >> 24u32)
        as u8 == b3) by (bit_vector)
        requires
            x == (b0 as u32) | ((b1 as u32) << 8u32) | ((b2 as u32) << 16u32) | ((b3 as u32)
                << 24u32),
    ;
    assert(u32_le(x) =~= b);
}

/// Read an integer little-endian from the first four bytes of `b`.
pub fn read_u32_le(b: &[u8]) -> (r: u32)
    requires
        b@.len() >= 4,
    ensures
        r == le_u32(b@),
{
    (b[0] as u32) | ((b[1] as u32) << 8u32) | ((b[2] as u32) << 16u32) | ((b[3] as u32) << 24u32)
}

/// Reading back the bytes written for `x` gives `x`.
pub proof fn lemma_u32_le_round_trip(x: u32)
    ensures
        le_u32(u32_le(x)) == x,
{
    let (b0, b1, b2, b3) = (x as u8, (x >> 8u32) as u8, (x >> 16u32) as u8, (x >> 24u32) as u8);
    assert((b0 as u32) | ((b1 as u32) << 8u32) | ((b2 as u32) << 16u32) | ((b3 as u32) << 24u32)
        == x) by (bit_vector)
        requires
            b0 == x as u8,
            b1 == (x >> 8u32) as u8,
            b2 == (x >> 16u32) as u8,
            b3 == (x >> 24u32) as u8,
    ;
}

/// Append the little-endian bytes of `x`.
pub fn push_u64_le(out: &mut Vec<u8>, x: u64)
    ensures
        final(out)@ == old(out)@ + u64_le(x),
{
    out.push(x as u8);
    out.push((x >> 8u64) as u8);
    out.push((x >> 16u64) as u8);
    out.push((x >> 24u64) as u8);
    out.push((x >> 32u64) as u8);
    out.push((x >> 40u64) as u8);
    out.push((x >> 48u64) as u8);
    out.push((x >> 56u64) as u8);
    assert(out@ =~= old(out)@ + u64_le(x));
}

/// Append the little-endian bytes of `x`.
pub fn push_u32_le(out: &mut Vec<u8>, x: u32)
    ensures
        final(out)@ == old(out)@ + u32_le(x),
{
    out.push(x as u8);
    out.push((x >> 8u32) as u8);
    out.push((x >> 16u32) as u8);
    out.push((x >> 24u32) as u8);
    assert(out@ =~= old(out)@ + u32_le(x));
}

/// Read an integer little-endian from the first eight bytes of `b`.
pub fn read_u64_le(b: &[u8]) -> (r: u64)
    requires
        b@.len() >= 8,
    ensures
        r == le_u64(b@),
{
    (b[0] as u64) | ((b[1] as u64) << 8u64) | ((b[2] as u64) << 16u64) | ((b[3] as u64) << 24u64)
        | ((b[4] as u64) << 32u64) | ((b[5] as u64) << 40u64) | ((b[6] as u64) << 48u64) | ((
    b[7] as u64) << 56u64)
}

/// Append all of `b`.
pub fn push_all(out: &mut Vec<u8>, b: &[u8])
    ensures
        final(out)@ == old(out)@ + b@,
{
    let n = b.len();
    let mut i: usize = 0;
    while i < n
        invariant
            n == b@.len(),
            i <= n,
            out@ == old(out)@ + b@.subrange(0, i as int),
        decreases n - i,
    {
        out.push(b[i]);
        i = i + 1;
        assert(out@ =~= old(out)@ + b@.subrange(0, i as int));
    }
    assert(b@.subrange(0, n as int) =~= b@);
}

/// Values with a raw byte form, used where a value travels as bare bytes
/// inside a larger message.
pub trait Bytes: Sized {
    /// The raw bytes of a value.
    spec fn byte_view(&self) -> Seq<u8>;

    /// Whether `b` is the raw form of some value.
    spec fn decodable(b: Seq<u8>) -> bool;

    /// The value whose raw form is `b`, if there is one.
    fn from_bytes(b: &[u8]) -> (r: Option<Self>)
        ensures
            r is Some <==> Self::decodable(b@),
            r matches Some(v) ==> v.byte_view() == b@,
    ;

    /// The raw form of the value.
    fn as_bytes(&self) -> (r: &[u8])
        ensures
            r@ == self.byte_view(),
    ;
}

/// A value carried by its raw byte form.
#[derive(Clone, Debug)]
pub struct AsBytes<T: Bytes> {
    pub inner: T,
}

impl<T: Bytes> AsBytes<T> {
    pub fn new(inner: T) -> (r: Self)
        ensures
            r.inner == inner,
    {
        AsBytes { inner }
    }

    pub fn into_inner(self) -> (r: T)
        ensures
            r == self.inner,
    {
        self.inner
    }
}

impl<T: Bytes> Bytes for AsBytes<T> {
    open spec fn byte_view(&self) -> Seq<u8> {
        self.inner.byte_view()
    }

    open spec fn decodable(b: Seq<u8>) -> bool {
        T::decodable(b)
    }

    fn from_bytes(b: &[u8]) -> (r: Option<Self>) {
        match T::from_bytes(b) {
            Some(inner) => Some(AsBytes { inner }),
            None => None,
        }
    }

    fn as_bytes(&self) -> (r: &[u8]) {
        self.inner.as_bytes()
    }
}

} // verus!
