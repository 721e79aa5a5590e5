//! The digest protocol: every value that takes part in content-addressing
//! declares its canonical little-endian byte encoding, both as a
//! specification-level byte sequence and as executable code that appends
//! those bytes to a running buffer. A content identifier is the SHA-256
//! digest of such a buffer.

use vstd::prelude::*;
use vstd::bytes::spec_u16_to_le_bytes;
use vstd::bytes::spec_u32_to_le_bytes;
use vstd::bytes::spec_u64_to_le_bytes;
use vstd::bytes::spec_u128_to_le_bytes;

verus! {

/// The SHA-256 digest of a byte sequence. The algorithm itself is supplied
/// by an outside crate; this name stands for its result, which depends on
/// the input bytes alone.
pub uninterp spec fn sha256_of(bytes: Seq<u8>) -> Seq<u8>;

/// Relies on sha2::Sha256 (via the digest traits it implements): feeding a
/// byte slice to a fresh hasher and finalizing yields the 32-byte SHA-256
/// digest of exactly those bytes.
#[verifier::external_body]
pub fn sha256_digest(bytes: &[u8]) -> (r: [u8; 32])
    ensures
        r@ == sha256_of(bytes@),
{
    let mut hasher = <sha2::Sha256 as sha2::Digest>::new();
    sha2::Digest::update(&mut hasher, bytes);
    sha2::Digest::finalize(hasher).into()
}

/// A value that folds into a running content digest in a fixed canonical
/// byte order (little-endian for multi-byte integers).
pub trait Digestable: Sized {
    /// The canonical encoding of this value.
    spec fn canon_le(&self) -> Seq<u8>;

    /// Append the canonical encoding of this value to `out`.
    fn update_le(&self, out: &mut Vec<u8>)
        ensures
            final(out)@ == old(out)@ + self.canon_le(),
    ;
}

impl Digestable for u8 {
    open spec fn canon_le(&self) -> Seq<u8> {
        seq![*self]
    }

    fn update_le(&self, out: &mut Vec<u8>) {
        out.push(*self);
    }
}

impl Digestable for u16 {
    open spec fn canon_le(&self) -> Seq<u8> {
        spec_u16_to_le_bytes(*self)
    }

    fn update_le(&self, out: &mut Vec<u8>) {
        let bytes = vstd::bytes::u16_to_le_bytes(*self);
        append_bytes(out, bytes.as_slice());
    }
}

impl Digestable for u32 {
    open spec fn canon_le(&self) -> Seq<u8> {
        spec_u32_to_le_bytes(*self)
    }

    fn update_le(&self, out: &mut Vec<u8>) {
        let bytes = vstd::bytes::u32_to_le_bytes(*self);
        append_bytes(out, bytes.as_slice());
    }
}

impl Digestable for u64 {
    open spec fn canon_le(&self) -> Seq<u8> {
        spec_u64_to_le_bytes(*self)
    }

    fn update_le(&self, out: &mut Vec<u8>) {
        let bytes = vstd::bytes::u64_to_le_bytes(*self);
        append_bytes(out, bytes.as_slice());
    }
}

impl Digestable for u128 {
    open spec fn canon_le(&self) -> Seq<u8> {
        spec_u128_to_le_bytes(*self)
    }

    fn update_le(&self, out: &mut Vec<u8>) {
        let bytes = vstd::bytes::u128_to_le_bytes(*self);
        append_bytes(out, bytes.as_slice());
    }
}

impl Digestable for i8 {
    open spec fn canon_le(&self) -> Seq<u8> {
        seq![*self as u8]
    }

    fn update_le(&self, out: &mut Vec<u8>) {
        out.push(*self as u8);
    }
}

impl Digestable for i16 {
    open spec fn canon_le(&self) -> Seq<u8> {
        spec_u16_to_le_bytes(*self as u16)
    }

    fn update_le(&self, out: &mut Vec<u8>) {
        let bytes = vstd::bytes::u16_to_le_bytes(*self as u16);
        append_bytes(out, bytes.as_slice());
    }
}

impl Digestable for i32 {
    open spec fn canon_le(&self) -> Seq<u8> {
        spec_u32_to_le_bytes(*self as u32)
    }

    fn update_le(&self, out: &mut Vec<u8>) {
        let bytes = vstd::bytes::u32_to_le_bytes(*self as u32);
        append_bytes(out, bytes.as_slice());
    }
}

impl Digestable for i64 {
    open spec fn canon_le(&self) -> Seq<u8> {
        spec_u64_to_le_bytes(*self as u64)
    }

    fn update_le(&self, out: &mut Vec<u8>) {
        let bytes = vstd::bytes::u64_to_le_bytes(*self as u64);
        append_bytes(out, bytes.as_slice());
    }
}

impl Digestable for i128 {
    open spec fn canon_le(&self) -> Seq<u8> {
        spec_u128_to_le_bytes(*self as u128)
    }

    fn update_le(&self, out: &mut Vec<u8>) {
        let bytes = vstd::bytes::u128_to_le_bytes(*self as u128);
        append_bytes(out, bytes.as_slice());
    }
}

impl<T: Digestable> Digestable for Option<T> {
    /// A one-byte presence tag, then the inner value if present; an absent
    /// value and a present one therefore never encode alike.
    open spec fn canon_le(&self) -> Seq<u8> {
        match self {
            None => seq![0u8],
            Some(x) => seq![1u8] + x.canon_le(),
        }
    }

    fn update_le(&self, out: &mut Vec<u8>) {
        match self {
            None => {
                out.push(0u8);
            },
            Some(x) => {
                out.push(1u8);
                x.update_le(out);
            },
        }
    }
}

/// The concatenated canonical encodings of the elements of `s`, in index
/// order, with no length marker.
pub open spec fn canon_seq_le<T: Digestable>(s: Seq<T>) -> Seq<u8>
    decreases s.len(),
{
    if s.len() == 0 {
        Seq::<u8>::empty()
    } else {
        canon_seq_le(s.drop_last()) + s.last().canon_le()
    }
}

pub proof fn lemma_canon_seq_le_take<T: Digestable>(s: Seq<T>, i: int)
    requires
        0 <= i < s.len(),
    ensures
        canon_seq_le(s.subrange(0, i + 1)) == canon_seq_le(s.subrange(0, i)) + s[i].canon_le(),
{
    let t = s.subrange(0, i + 1);
    assert(t.drop_last() =~= s.subrange(0, i));
    assert(canon_seq_le(t) == canon_seq_le(t.drop_last()) + t.last().canon_le());
}

impl<T: Digestable> Digestable for Vec<T> {
    open spec fn canon_le(&self) -> Seq<u8> {
        canon_seq_le(self@)
    }

    fn update_le(&self, out: &mut Vec<u8>) {
        let mut i: usize = 0;
        proof {
            assert(self@.subrange(0, 0) =~= Seq::<T>::empty());
        }
        while i < self.len()
            invariant
                i <= self@.len(),
                out@ == old(out)@ + canon_seq_le(self@.subrange(0, i as int)),
            decreases self@.len() - i,
        {
            proof {
                lemma_canon_seq_le_take(self@, i as int);
            }
            self[i].update_le(out);
            i = i + 1;
        }
        proof {
            assert(self@.subrange(0, self@.len() as int) =~= self@);
        }
    }
}

impl Digestable for [u8; 32] {
    open spec fn canon_le(&self) -> Seq<u8> {
        self@
    }

    fn update_le(&self, out: &mut Vec<u8>) {
        append_bytes(out, self.as_slice());
    }
}

impl Digestable for String {
    /// A string contributes its UTF-8 bytes, with no length marker.
    open spec fn canon_le(&self) -> Seq<u8> {
        vstd::utf8::encode_utf8(self@)
    }

    fn update_le(&self, out: &mut Vec<u8>) {
        append_bytes(out, self.as_str().as_bytes());
    }
}

/// Whether two 32-byte identifiers hold the same bytes.
pub fn id_eq(a: &[u8; 32], b: &[u8; 32]) -> (r: bool)
    ensures
        r == (a@ == b@),
{
    let mut i: usize = 0;
    while i < 32
        invariant
            i <= 32,
            forall|j: int| 0 <= j < i ==> a@[j] == b@[j],
        decreases 32 - i,
    {
        if a[i] != b[i] {
            return false;
        }
        i = i + 1;
    }
    proof {
        assert(a@ =~= b@);
    }
    true
}

/// Append the bytes of `b` to `out`.
pub fn append_bytes(out: &mut Vec<u8>, b: &[u8])
    ensures
        final(out)@ == old(out)@ + b@,
{
    let mut i: usize = 0;
    while i < b.len()
        invariant
            i <= b@.len(),
            out@ == old(out)@ + b@.subrange(0, i as int),
        decreases b@.len() - i,
    {
        out.push(b[i]);
        i = i + 1;
        proof {
            assert(b@.subrange(0, i as int) =~= b@.subrange(0, i - 1) + seq![b@[i - 1]]);
            assert(old(out)@ + b@.subrange(0, i - 1) + seq![b@[i - 1]] =~= old(out)@
                + b@.subrange(0, i as int));
        }
    }
    proof {
        assert(b@.subrange(0, b@.len() as int) =~= b@);
    }
}

} // verus!
