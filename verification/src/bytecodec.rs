//! Little-endian encoding and decoding of machine words, used both by the
//! platform model (buffer contents, kernel argument words) and by the
//! bitstream-container header parser.

use vstd::prelude::*;
use vstd::arithmetic::power2::*;
use vstd::arithmetic::div_mod::*;

verus! {

/// The `w`-byte little-endian encoding of `x` (low byte first).
pub open spec fn le_of(x: nat, w: nat) -> Seq<u8>
    decreases w,
{
    if w == 0 {
        Seq::empty()
    } else {
        seq![(x % 256) as u8] + le_of(x / 256, (w - 1) as nat)
    }
}

/// The value of a little-endian byte sequence (low byte first).
pub open spec fn le_val(s: Seq<u8>) -> nat
    decreases s.len(),
{
    if s.len() == 0 {
        0
    } else {
        (s[0] + 256 * le_val(s.drop_first())) as nat
    }
}

pub broadcast proof fn lemma_le_of_len(x: nat, w: nat)
    ensures
        (#[trigger] le_of(x, w)).len() == w,
    decreases w,
{
    if w > 0 {
        lemma_le_of_len(x / 256, (w - 1) as nat);
    }
}

pub proof fn lemma_le_val_bound(s: Seq<u8>)
    ensures
        le_val(s) < pow2(8 * s.len()),
    decreases s.len(),
{
    if s.len() == 0 {
        lemma_pow2_pos(0);
    } else {
        lemma_le_val_bound(s.drop_first());
        lemma_pow2_adds(8, 8 * (s.len() - 1) as nat);
        lemma2_to64();
        assert(le_val(s) == s[0] + 256 * le_val(s.drop_first()));
        assert(256 * le_val(s.drop_first()) <= 256 * (pow2(8 * (s.len() - 1) as nat) - 1))
            by (nonlinear_arith)
            requires
                le_val(s.drop_first()) <= pow2(8 * (s.len() - 1) as nat) - 1,
        ;
    }
}

/// Decoding inverts encoding for values that fit in `w` bytes.
pub proof fn lemma_le_val_of(x: nat, w: nat)
    requires
        x < pow2(8 * w),
    ensures
        le_val(le_of(x, w)) == x,
    decreases w,
{
    if w == 0 {
        lemma_pow2_pos(0);
        assert(pow2(0) == 1) by { lemma2_to64(); }
    } else {
        lemma_pow2_adds(8, 8 * (w - 1) as nat);
        lemma2_to64();
        assert(x / 256 < pow2(8 * (w - 1) as nat)) by (nonlinear_arith)
            requires
                x < 256 * pow2(8 * (w - 1) as nat),
        ;
        lemma_le_val_of(x / 256, (w - 1) as nat);
        let s = le_of(x, w);
        lemma_le_of_len(x / 256, (w - 1) as nat);
        assert(s.drop_first() =~= le_of(x / 256, (w - 1) as nat));
        lemma_fundamental_div_mod(x as int, 256);
    }
}

/// Reads the `w`-byte little-endian word at `offset` in `data`.
pub fn le_read(data: &Vec<u8>, offset: usize, w: usize) -> (r: u64)
    requires
        w <= 8,
        offset + w <= data.len(),
    ensures
        r == le_val(data@.subrange(offset as int, offset + w)),
        r < pow2(8 * w as nat),
{
    let mut r: u64 = 0;
    let mut j: usize = w;
    proof {
        assert(data@.subrange(offset + j, offset + w) =~= Seq::empty());
        lemma_pow2_pos(0);
        lemma2_to64();
    }
    while j > 0
        invariant
            j <= w,
            w <= 8,
            offset + w <= data.len(),
            r == le_val(data@.subrange(offset + j, offset + w)),
            r < pow2(8 * (w - j) as nat),
        decreases j,
    {
        proof {
            lemma_le_val_bound(data@.subrange(offset + j, offset + w));
            lemma_pow2_adds(8, 8 * (w - j) as nat);
            lemma2_to64();
            lemma_pow2_le(8 * (w - j + 1) as nat, 64);
            assert(256 * r + 256 <= 256 * pow2(8 * (w - j) as nat)) by (nonlinear_arith)
                requires
                    r < pow2(8 * (w - j) as nat),
            ;
        }
        let b = data[offset + j - 1];
        let ghost old_r = r;
        r = r * 256 + (b as u64);
        j = j - 1;
        proof {
            let s = data@.subrange(offset + j, offset + w);
            assert(s[0] == b);
            assert(s.drop_first() =~= data@.subrange(offset + j + 1, offset + w));
            assert(le_val(s) == b + 256 * old_r);
        }
    }
    proof {
        assert(data@.subrange(offset as int, offset + w) =~= data@.subrange(
            offset + 0,
            offset + w,
        ));
    }
    r
}

pub proof fn lemma_pow2_le(a: nat, b: nat)
    requires
        a <= b,
    ensures
        pow2(a) <= pow2(b),
{
    lemma_pow2_adds(a, (b - a) as nat);
    lemma_pow2_pos((b - a) as nat);
    assert(pow2(a) * 1 <= pow2(a) * pow2((b - a) as nat)) by (nonlinear_arith)
        requires
            pow2((b - a) as nat) >= 1,
            pow2(a) >= 0,
    ;
}

/// Splitting an encoding: the first `i` bytes encode the low bits, the rest
/// encode the value shifted down by `8 * i` bits.
proof fn lemma_le_of_split(x: nat, w: nat, i: nat)
    requires
        i <= w,
    ensures
        le_of(x, w) =~= le_of(x, i) + le_of(x / pow2(8 * i), (w - i) as nat),
    decreases i,
{
    if i == 0 {
        assert(pow2(0) == 1) by { lemma2_to64(); }
        assert(x / 1 == x);
        assert(le_of(x, 0) =~= Seq::empty());
    } else {
        lemma_le_of_split(x / 256, (w - 1) as nat, (i - 1) as nat);
        lemma_pow2_adds(8, 8 * (i - 1) as nat);
        lemma2_to64();
        lemma_pow2_pos(8 * (i - 1) as nat);
        assert(x / 256 / pow2(8 * (i - 1) as nat) == x / pow2(8 * i)) by {
            lemma_div_denominator(x as int, 256, pow2(8 * (i - 1) as nat) as int);
        }
        lemma_le_of_len(x, i);
    }
}

/// Appends the `w`-byte little-endian encoding of `x` to `out`.
pub fn le_write(out: &mut Vec<u8>, x: u64, w: usize) -> (r: ())
    requires
        w <= 8,
        old(out).len() + w <= usize::MAX,
    ensures
        final(out)@ =~= old(out)@ + le_of(x as nat, w as nat),
{
    let mut cur: u64 = x;
    let mut i: usize = 0;
    proof {
        lemma2_to64();
        assert(pow2(0) == 1);
        assert(x as nat / 1 == x as nat);
        assert(le_of(x as nat, 0) =~= Seq::empty());
        assert(out@ =~= old(out)@ + le_of(x as nat, 0));
    }
    while i < w
        invariant
            i <= w,
            w <= 8,
            old(out).len() + w <= usize::MAX,
            cur == x as nat / pow2(8 * i as nat),
            out@ =~= old(out)@ + le_of(x as nat, i as nat),
        decreases w - i,
    {
        proof {
            lemma_le_of_split(x as nat, (i + 1) as nat, i as nat);
            lemma_le_of_split(x as nat, i as nat, i as nat);
            lemma_pow2_adds(8 * i as nat, 8);
            lemma2_to64();
            lemma_pow2_pos(8 * i as nat);
            assert(x as nat / pow2(8 * i as nat) / 256 == x as nat / pow2(8 * (i + 1) as nat))
                by {
                lemma_div_denominator(x as int, pow2(8 * i as nat) as int, 256);
            }
            lemma_le_of_len(x as nat, i as nat);
            let v = x as nat / pow2(8 * i as nat);
            assert(le_of(v / 256, 0) =~= Seq::empty());
            assert(le_of(v, 1) =~= seq![(v % 256) as u8] + le_of(v / 256, 0));
            assert(le_of(v, 1) =~= seq![(v % 256) as u8]);
        }
        out.push((cur % 256) as u8);
        cur = cur / 256;
        i = i + 1;
    }
}

/// The power of two `2^k` as a 128-bit word.
pub fn pow2_u128(k: usize) -> (r: u128)
    requires
        k <= 64,
    ensures
        r == pow2(k as nat),
        r > 0,
{
    let mut r: u128 = 1;
    let mut i: usize = 0;
    proof {
        lemma2_to64();
        lemma_pow2_pos(k as nat);
    }
    while i < k
        invariant
            i <= k,
            k <= 64,
            r == pow2(i as nat),
            r > 0,
        decreases k - i,
    {
        proof {
            lemma_pow2_le(i as nat, 63);
            lemma_pow2_adds(i as nat, 1);
            lemma2_to64();
            lemma2_to64_rest();
        }
        r = r * 2;
        i = i + 1;
    }
    r
}

/// `dst` with the bytes of `src` laid over it starting at `offset`.
pub open spec fn overlay(dst: Seq<u8>, offset: int, src: Seq<u8>) -> Seq<u8> {
    Seq::new(
        dst.len(),
        |k: int|
            if offset <= k < offset + src.len() {
                src[k - offset]
            } else {
                dst[k]
            },
    )
}

/// Copies `src` into `dst` starting at `offset`.
pub fn splice(dst: &mut Vec<u8>, offset: usize, src: &Vec<u8>) -> (r: ())
    requires
        offset + src.len() <= old(dst).len(),
    ensures
        final(dst)@ =~= overlay(old(dst)@, offset as int, src@),
{
    let mut i: usize = 0;
    while i < src.len()
        invariant
            i <= src.len(),
            offset + src.len() <= dst.len(),
            dst.len() == old(dst).len(),
            forall|k: int|
                0 <= k < dst@.len() ==> dst@[k] == if offset <= k < offset + i {
                    src@[k - offset]
                } else {
                    old(dst)@[k]
                },
        decreases src.len() - i,
    {
        dst.set(offset + i, src[i]);
        i = i + 1;
    }
}

/// The bytes of `src` in `[offset, offset + n)` as a fresh vector.
pub fn extract(src: &Vec<u8>, offset: usize, n: usize) -> (r: Vec<u8>)
    requires
        offset + n <= src.len(),
    ensures
        r@ =~= src@.subrange(offset as int, offset + n),
{
    let mut r: Vec<u8> = Vec::new();
    let mut i: usize = 0;
    while i < n
        invariant
            i <= n,
            offset + n <= src.len(),
            r@ =~= src@.subrange(offset as int, offset + i),
        decreases n - i,
    {
        r.push(src[offset + i]);
        proof {
            assert(r@ =~= src@.subrange(offset as int, offset + i + 1));
        }
        i = i + 1;
    }
    r
}

} // verus!
