//! Verified resource-lifecycle layer for an FPGA accelerator runtime.
//!
//! The crate models the native accelerator boundary (device connections,
//! bitstream images, kernels, buffer objects and runs) as an explicit
//! [`platform::Platform`] value, and builds the device / kernel / buffer /
//! run ownership hierarchy on top of it, with every transition verified:
//! a device must be open before a bitstream loads, a bitstream must be
//! loaded and identified before a kernel opens, buffers must sit in the
//! memory group the kernel declares for their slot, and every resource is
//! released at most once.

pub mod buffer;
pub mod bytecodec;
pub mod device;
pub mod error;
pub mod kernel;
pub mod managed;
pub mod platform;
pub mod run;
pub mod utils;
pub mod xclbin;

use vstd::prelude::*;
use vstd::arithmetic::power2::pow2;
use vstd::arithmetic::power2::lemma2_to64;
use vstd::arithmetic::power2::lemma2_to64_rest;
use vstd::arithmetic::mul::lemma_mul_inequality;
use crate::bytecodec::{le_of, le_val, le_read, le_write, lemma_le_of_len, lemma_le_val_of};

verus! {

/// The fixed-width integer kinds the accelerator can take as kernel
/// arguments and buffer elements. Each value is carried across the
/// boundary as a little-endian word of `spec_width` bytes.
pub trait HardwareDatatype: Sized + Copy {
    /// The element width in bytes.
    spec fn spec_width() -> usize;

    /// The value's raw bits, zero-extended to 64 bits.
    spec fn as_bits(self) -> u64;

    /// The value a raw word denotes (bits above the width are dropped).
    spec fn of_bits(b: u64) -> Self;

    proof fn lemma_width()
        ensures
            1 <= Self::spec_width() <= 8,
    ;

    /// The raw bits fit the width and determine the value.
    proof fn lemma_bits_inverse(self)
        ensures
            Self::of_bits(self.as_bits()) == self,
            self.as_bits() < pow2(8 * Self::spec_width() as nat),
    ;

    fn width() -> (r: usize)
        ensures
            r == Self::spec_width(),
    ;

    fn to_bits(self) -> (r: u64)
        ensures
            r == self.as_bits(),
    ;

    fn from_bits(b: u64) -> (r: Self)
        ensures
            r == Self::of_bits(b),
    ;
}

impl HardwareDatatype for u32 {
    open spec fn spec_width() -> usize {
        4
    }

    open spec fn as_bits(self) -> u64 {
        self as u64
    }

    open spec fn of_bits(b: u64) -> Self {
        b as u32
    }

    proof fn lemma_width() {
    }

    proof fn lemma_bits_inverse(self) {
        lemma2_to64();
    }

    fn width() -> usize {
        4
    }

    fn to_bits(self) -> u64 {
        self as u64
    }

    fn from_bits(b: u64) -> Self {
        #[verifier::truncate] (b as u32)
    }
}

impl HardwareDatatype for i32 {
    open spec fn spec_width() -> usize {
        4
    }

    open spec fn as_bits(self) -> u64 {
        (self as u32) as u64
    }

    open spec fn of_bits(b: u64) -> Self {
        (b as u32) as i32
    }

    proof fn lemma_width() {
    }

    proof fn lemma_bits_inverse(self) {
        lemma2_to64();
        assert(((self as u32) as u64) as u32 == self as u32) by (bit_vector);
        assert(((self as u32) as i32) == self) by (bit_vector);
    }

    fn width() -> usize {
        4
    }

    fn to_bits(self) -> u64 {
        (#[verifier::truncate] (self as u32)) as u64
    }

    fn from_bits(b: u64) -> Self {
        #[verifier::truncate] ((#[verifier::truncate] (b as u32)) as i32)
    }
}

impl HardwareDatatype for u64 {
    open spec fn spec_width() -> usize {
        8
    }

    open spec fn as_bits(self) -> u64 {
        self
    }

    open spec fn of_bits(b: u64) -> Self {
        b
    }

    proof fn lemma_width() {
    }

    proof fn lemma_bits_inverse(self) {
        lemma2_to64();
        lemma2_to64_rest();
    }

    fn width() -> usize {
        8
    }

    fn to_bits(self) -> u64 {
        self
    }

    fn from_bits(b: u64) -> Self {
        b
    }
}

impl HardwareDatatype for i64 {
    open spec fn spec_width() -> usize {
        8
    }

    open spec fn as_bits(self) -> u64 {
        self as u64
    }

    open spec fn of_bits(b: u64) -> Self {
        b as i64
    }

    proof fn lemma_width() {
    }

    proof fn lemma_bits_inverse(self) {
        lemma2_to64();
        lemma2_to64_rest();
        assert((self as u64) as i64 == self) by (bit_vector);
    }

    fn width() -> usize {
        8
    }

    fn to_bits(self) -> u64 {
        #[verifier::truncate] (self as u64)
    }

    fn from_bits(b: u64) -> Self {
        #[verifier::truncate] (b as i64)
    }
}

/// The little-endian byte image of a sequence of elements.
pub open spec fn encode_elems<T: HardwareDatatype>(s: Seq<T>) -> Seq<u8>
    decreases s.len(),
{
    if s.len() == 0 {
        Seq::empty()
    } else {
        encode_elems(s.drop_last()) + le_of(s.last().as_bits() as nat, T::spec_width() as nat)
    }
}

pub proof fn lemma_encode_elems_len<T: HardwareDatatype>(s: Seq<T>)
    ensures
        encode_elems(s).len() == s.len() * T::spec_width(),
    decreases s.len(),
{
    if s.len() == 0 {
        assert(s.len() * T::spec_width() == 0) by (nonlinear_arith)
            requires
                s.len() == 0,
        ;
    } else {
        lemma_encode_elems_len::<T>(s.drop_last());
        lemma_le_of_len(s.last().as_bits() as nat, T::spec_width() as nat);
        assert((s.len() - 1) * T::spec_width() + T::spec_width() == s.len() * T::spec_width())
            by (nonlinear_arith);
    }
}

/// The encoding places each element's word at its own offset.
pub proof fn lemma_encode_elems_at<T: HardwareDatatype>(s: Seq<T>, j: int)
    requires
        0 <= j < s.len(),
    ensures
        encode_elems(s).subrange(j * T::spec_width(), (j + 1) * T::spec_width()) =~= le_of(
            s[j].as_bits() as nat,
            T::spec_width() as nat,
        ),
    decreases s.len(),
{
    let w = T::spec_width() as int;
    let pre = encode_elems(s.drop_last());
    let sfx = le_of(s.last().as_bits() as nat, T::spec_width() as nat);
    lemma_encode_elems_len::<T>(s);
    lemma_encode_elems_len::<T>(s.drop_last());
    lemma_le_of_len(s.last().as_bits() as nat, T::spec_width() as nat);
    assert(encode_elems(s) =~= pre + sfx);
    if j == s.len() - 1 {
        assert(j * w == pre.len()) by (nonlinear_arith)
            requires
                pre.len() == (s.len() - 1) * w,
                j == s.len() - 1,
        ;
        assert((j + 1) * w == encode_elems(s).len()) by (nonlinear_arith)
            requires
                (j + 1) == s.len(),
                encode_elems(s).len() == s.len() * w,
        ;
        assert((pre + sfx).subrange(j * w, (j + 1) * w) =~= sfx);
    } else {
        lemma_encode_elems_at::<T>(s.drop_last(), j);
        assert(0 <= j * w) by (nonlinear_arith)
            requires
                0 <= j,
                0 <= w,
        ;
        assert((j + 1) * w <= (s.len() - 1) * w) by (nonlinear_arith)
            requires
                j + 1 <= s.len() - 1,
                w >= 0,
        ;
        assert((j + 1) * w == j * w + w) by (nonlinear_arith);
        assert((pre + sfx).subrange(j * w, (j + 1) * w) =~= pre.subrange(j * w, (j + 1) * w));
        assert(s.drop_last()[j] == s[j]);
    }
}

/// Encodes a slice of elements as little-endian bytes.
pub fn encode_slice<T: HardwareDatatype>(values: &[T]) -> (r: Vec<u8>)
    requires
        values@.len() * T::spec_width() <= usize::MAX,
    ensures
        r@ =~= encode_elems(values@),
        r@.len() == values@.len() * T::spec_width(),
{
    let w = T::width();
    proof {
        T::lemma_width();
    }
    let mut r: Vec<u8> = Vec::new();
    let mut i: usize = 0;
    proof {
        assert(values@.take(0) =~= Seq::empty());
    }
    while i < values.len()
        invariant
            i <= values@.len(),
            w == T::spec_width(),
            1 <= w <= 8,
            values@.len() * w <= usize::MAX,
            r@ =~= encode_elems(values@.take(i as int)),
            r@.len() == i * w,
        decreases values@.len() - i,
    {
        proof {
            lemma_mul_inequality(i + 1, values@.len() as int, w as int);
            assert((i + 1) * w == i * w + w) by (nonlinear_arith);
        }
        le_write(&mut r, values[i].to_bits(), w);
        proof {
            let t = values@.take(i + 1);
            assert(t.drop_last() =~= values@.take(i as int));
            assert(t.last() == values@[i as int]);
            lemma_encode_elems_len::<T>(t);
        }
        i = i + 1;
    }
    proof {
        assert(values@.take(values@.len() as int) =~= values@);
        lemma_encode_elems_len::<T>(values@);
    }
    r
}

/// Decodes `count` elements from the little-endian bytes at the start of
/// `bytes`.
pub fn decode_vec<T: HardwareDatatype>(bytes: &Vec<u8>, count: usize) -> (r: Vec<T>)
    requires
        count * T::spec_width() <= bytes@.len(),
    ensures
        r@.len() == count,
        forall|j: int|
            0 <= j < count ==> r@[j] == T::of_bits(
                le_val(
                    bytes@.subrange(j * T::spec_width(), (j + 1) * T::spec_width()),
                ) as u64,
            ),
{
    let w = T::width();
    let blen = bytes.len();
    proof {
        T::lemma_width();
    }
    let mut r: Vec<T> = Vec::new();
    let mut i: usize = 0;
    while i < count
        invariant
            i <= count,
            w == T::spec_width(),
            1 <= w <= 8,
            count * w <= bytes@.len(),
            blen == bytes@.len(),
            r@.len() == i,
            forall|j: int|
                0 <= j < i ==> r@[j] == T::of_bits(
                    le_val(bytes@.subrange(j * w, (j + 1) * w)) as u64,
                ),
        decreases count - i,
    {
        proof {
            lemma_mul_inequality(i + 1, count as int, w as int);
            lemma_mul_inequality(i as int, count as int, w as int);
            assert((i + 1) * w == i * w + w) by (nonlinear_arith);
            vstd::arithmetic::power2::lemma_pow2_pos(0);
        }
        let x = le_read(bytes, i * w, w);
        r.push(T::from_bits(x));
        i = i + 1;
    }
    r
}

/// Decoding the encoding of a sequence gives the sequence back, element by
/// element: the byte boundary is lossless for every supported kind.
pub proof fn lemma_encode_decode<T: HardwareDatatype>(s: Seq<T>, j: int)
    requires
        0 <= j < s.len(),
    ensures
        T::of_bits(
            le_val(
                encode_elems(s).subrange(j * T::spec_width(), (j + 1) * T::spec_width()),
            ) as u64,
        ) == s[j],
{
    lemma_encode_elems_at::<T>(s, j);
    s[j].lemma_bits_inverse();
    lemma_le_val_of(s[j].as_bits() as nat, T::spec_width() as nat);
}

} // verus!
