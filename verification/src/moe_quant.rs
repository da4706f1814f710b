//! Quantized matrices on the host: how their codes are packed into words.
use vstd::prelude::*;
use crate::moe_env::{I8_GS, W4_GS};

verus! {

/// A matrix of bf16 values, as their bits.
#[derive(Clone)]
pub struct HostLin {
    pub w: Vec<u16>,
    pub n: usize,
    pub k: usize,
}

/// A matrix of four-bit codes, eight to a word, with a bf16 scale for each group of a row.
#[derive(Clone)]
pub struct HostW4Mat {
    pub packed: Vec<u32>,
    pub scales: Vec<u16>,
    pub n: usize,
    pub k: usize,
}

/// The four-bit matrices of `e` experts one after the other.
#[derive(Clone)]
pub struct HostW4Stack {
    pub packed: Vec<u32>,
    pub scales: Vec<u16>,
    pub e: usize,
    pub n: usize,
    pub k: usize,
}

/// A matrix of bytes, four to a word, with a bf16 scale for each group of a row.
#[derive(Clone)]
pub struct HostI8Mat {
    pub q: Vec<u32>,
    pub scales: Vec<u16>,
    pub n: usize,
    pub k: usize,
}

/// The code at place `i` of packed four-bit codes: eight less than its bits.
pub open spec fn w4_at(words: Seq<u32>, i: int) -> int {
    ((words[i / 8] >> ((4 * (i % 8)) as u32)) & 15u32) - 8
}

/// The byte at place `i` of packed bytes.
pub open spec fn i8_at(words: Seq<u32>, i: int) -> u8 {
    ((words[i / 4] >> ((8 * (i % 4)) as u32)) & 0xffu32) as u8
}

proof fn lemma_nibbles(a: u32, b: u32, c: u32, d: u32, e: u32, f: u32, g: u32, h: u32)
    by (bit_vector)
    requires
        a < 16,
        b < 16,
        c < 16,
        d < 16,
        e < 16,
        f < 16,
        g < 16,
        h < 16,
    ensures
        ({
            let w = a | (b << 4) | (c << 8) | (d << 12) | (e << 16) | (f << 20) | (g << 24) | (h
                << 28);
            &&& (w >> 0) & 15 == a
            &&& (w >> 4) & 15 == b
            &&& (w >> 8) & 15 == c
            &&& (w >> 12) & 15 == d
            &&& (w >> 16) & 15 == e
            &&& (w >> 20) & 15 == f
            &&& (w >> 24) & 15 == g
            &&& (w >> 28) & 15 == h
        }),
{
}

proof fn lemma_bytes(a: u32, b: u32, c: u32, d: u32)
    by (bit_vector)
    requires
        a < 256,
        b < 256,
        c < 256,
        d < 256,
    ensures
        ({
            let w = a | (b << 8) | (c << 16) | (d << 24);
            &&& (w >> 0) & 0xff == a
            &&& (w >> 8) & 0xff == b
            &&& (w >> 16) & 0xff == c
            &&& (w >> 24) & 0xff == d
        }),
{
}

/// Every code fits four bits.
pub open spec fn w4_codes(q: Seq<i8>) -> bool {
    forall|i: int| 0 <= i < q.len() ==> -8 <= #[trigger] q[i] <= 7
}

fn nibble(q: i8) -> (r: u32)
    requires
        -8 <= q <= 7,
    ensures
        r == q + 8,
        r < 16,
{
    (q + 8) as u32
}

/// Packs four-bit codes, eight to a word from the low bits up.
pub fn pack_w4(q: &Vec<i8>) -> (r: Vec<u32>)
    requires
        q@.len() % 8 == 0,
        w4_codes(q@),
    ensures
        r@.len() == q@.len() / 8,
        forall|i: int| 0 <= i < q@.len() ==> w4_at(r@, i) == #[trigger] q@[i],
{
    let n: usize = q.len();
    let words: usize = n / 8;
    let mut r: Vec<u32> = Vec::new();
    let mut j: usize = 0;
    while j < words
        invariant
            n == q@.len(),
            words == n / 8,
            n % 8 == 0,
            j <= words,
            r@.len() == j,
            w4_codes(q@),
            forall|i: int| 0 <= i < 8 * j ==> w4_at(r@, i) == #[trigger] q@[i],
        decreases words - j,
    {
        let o: usize = 8 * j;
        let a: u32 = nibble(q[o]);
        let b: u32 = nibble(q[o + 1]);
        let c: u32 = nibble(q[o + 2]);
        let d: u32 = nibble(q[o + 3]);
        let e: u32 = nibble(q[o + 4]);
        let f: u32 = nibble(q[o + 5]);
        let g: u32 = nibble(q[o + 6]);
        let h: u32 = nibble(q[o + 7]);
        let w: u32 = a | (b << 4) | (c << 8) | (d << 12) | (e << 16) | (f << 20) | (g << 24) | (h
            << 28);
        proof {
            lemma_nibbles(a, b, c, d, e, f, g, h);
        }
        let ghost before = r@;
        r.push(w);
        proof {
            assert forall|i: int| 0 <= i < 8 * (j + 1) implies w4_at(r@, i) == #[trigger] q@[i] by {
                if i < 8 * j {
                    assert(r@[i / 8] == before[i / 8]);
                    assert(w4_at(before, i) == q@[i]);
                } else {
                    assert(i / 8 == j);
                    assert(r@[i / 8] == w);
                    let t = i - 8 * j;
                    assert(i % 8 == t);
                    assert(t == 0 || t == 1 || t == 2 || t == 3 || t == 4 || t == 5 || t == 6 || t
                        == 7);
                }
            }
        }
        j = j + 1;
    }
    r
}

/// Packs bytes, four to a word from the low bits up.
pub fn pack_i8(q: &Vec<u8>) -> (r: Vec<u32>)
    requires
        q@.len() % 4 == 0,
    ensures
        r@.len() == q@.len() / 4,
        forall|i: int| 0 <= i < q@.len() ==> i8_at(r@, i) == #[trigger] q@[i],
{
    let n: usize = q.len();
    let words: usize = n / 4;
    let mut r: Vec<u32> = Vec::new();
    let mut j: usize = 0;
    while j < words
        invariant
            n == q@.len(),
            words == n / 4,
            n % 4 == 0,
            j <= words,
            r@.len() == j,
            forall|i: int| 0 <= i < 4 * j ==> i8_at(r@, i) == #[trigger] q@[i],
        decreases words - j,
    {
        let o: usize = 4 * j;
        let a: u32 = q[o] as u32;
        let b: u32 = q[o + 1] as u32;
        let c: u32 = q[o + 2] as u32;
        let d: u32 = q[o + 3] as u32;
        let w: u32 = a | (b << 8) | (c << 16) | (d << 24);
        proof {
            lemma_bytes(a, b, c, d);
        }
        let ghost before = r@;
        r.push(w);
        proof {
            assert forall|i: int| 0 <= i < 4 * (j + 1) implies i8_at(r@, i) == #[trigger] q@[i] by {
                if i < 4 * j {
                    assert(r@[i / 4] == before[i / 4]);
                    assert(i8_at(before, i) == q@[i]);
                } else {
                    assert(i / 4 == j);
                    assert(r@[i / 4] == w);
                    let t = i - 4 * j;
                    assert(i % 4 == t);
                    assert(t == 0 || t == 1 || t == 2 || t == 3);
                }
            }
        }
        j = j + 1;
    }
    r
}

/// The words and the scales of all matrices one after the other.
pub open spec fn cat_words(m: Seq<HostW4Mat>) -> Seq<u32>
    decreases m.len(),
{
    if m.len() == 0 {
        Seq::empty()
    } else {
        cat_words(m.drop_last()) + m.last().packed@
    }
}

pub open spec fn cat_scales(m: Seq<HostW4Mat>) -> Seq<u16>
    decreases m.len(),
{
    if m.len() == 0 {
        Seq::empty()
    } else {
        cat_scales(m.drop_last()) + m.last().scales@
    }
}

fn extend_words(dst: &mut Vec<u32>, src: &Vec<u32>)
    ensures
        final(dst)@ == old(dst)@ + src@,
{
    let mut i: usize = 0;
    while i < src.len()
        invariant
            i <= src.len(),
            dst@ == old(dst)@ + src@.take(i as int),
        decreases src.len() - i,
    {
        dst.push(src[i]);
        i = i + 1;
        assert(src@.take(i as int) =~= src@.take(i - 1).push(src@[i - 1]));
    }
    assert(src@.take(i as int) =~= src@);
}

fn extend_scales(dst: &mut Vec<u16>, src: &Vec<u16>)
    ensures
        final(dst)@ == old(dst)@ + src@,
{
    let mut i: usize = 0;
    while i < src.len()
        invariant
            i <= src.len(),
            dst@ == old(dst)@ + src@.take(i as int),
        decreases src.len() - i,
    {
        dst.push(src[i]);
        i = i + 1;
        assert(src@.take(i as int) =~= src@.take(i - 1).push(src@[i - 1]));
    }
    assert(src@.take(i as int) =~= src@);
}

/// Stacks the matrices of the experts.
pub fn stack_w4_host(mats: &[HostW4Mat]) -> (r: HostW4Stack)
    requires
        mats@.len() > 0,
    ensures
        r.packed@ == cat_words(mats@),
        r.scales@ == cat_scales(mats@),
        r.e == mats@.len(),
        r.n == mats@[0].n,
        r.k == mats@[0].k,
{
    let n: usize = mats[0].n;
    let k: usize = mats[0].k;
    let mut packed: Vec<u32> = Vec::new();
    let mut scales: Vec<u16> = Vec::new();
    let mut i: usize = 0;
    while i < mats.len()
        invariant
            i <= mats@.len(),
            packed@ == cat_words(mats@.take(i as int)),
            scales@ == cat_scales(mats@.take(i as int)),
        decreases mats@.len() - i,
    {
        extend_words(&mut packed, &mats[i].packed);
        extend_scales(&mut scales, &mats[i].scales);
        proof {
            assert(mats@.take(i + 1).drop_last() =~= mats@.take(i as int));
            assert(mats@.take(i + 1).last() == mats@[i as int]);
        }
        i = i + 1;
    }
    assert(mats@.take(i as int) =~= mats@);
    HostW4Stack { packed, scales, e: mats.len(), n, k }
}

/// Expert `e` of a stack of equal matrices is the matrix that was put there.
pub proof fn law_stack_slices(m: Seq<HostW4Mat>, words: int, scales: int, e: int)
    requires
        0 <= e < m.len(),
        words >= 0,
        scales >= 0,
        forall|i: int|
            0 <= i < m.len() ==> (#[trigger] m[i]).packed@.len() == words && m[i].scales@.len()
                == scales,
    ensures
        cat_words(m).len() == m.len() * words,
        cat_scales(m).len() == m.len() * scales,
        cat_words(m).subrange(e * words, (e + 1) * words) == m[e].packed@,
        cat_scales(m).subrange(e * scales, (e + 1) * scales) == m[e].scales@,
    decreases m.len(),
{
    let rest = m.drop_last();
    let n = rest.len() as int;
    assert(m.last() == m[n]);
    assert((n + 1) * words == n * words + words) by (nonlinear_arith);
    assert((n + 1) * scales == n * scales + scales) by (nonlinear_arith);
    assert forall|i: int| 0 <= i < rest.len() implies (#[trigger] rest[i]).packed@.len() == words
        && rest[i].scales@.len() == scales by {
        assert(rest[i] == m[i]);
    }
    if n > 0 {
        let f = if e < n { e } else { 0 };
        law_stack_slices(rest, words, scales, f);
    } else {
        assert(cat_words(rest).len() == 0 && cat_scales(rest).len() == 0);
        assert(0 * words == 0 && 0 * scales == 0) by (nonlinear_arith);
    }
    if e < n {
        assert(0 <= e * words && (e + 1) * words <= n * words && e * words <= (e + 1) * words && 0
            <= e * scales && (e + 1) * scales <= n * scales && e * scales <= (e + 1) * scales)
            by (nonlinear_arith)
            requires
                0 <= e < n,
                words >= 0,
                scales >= 0,
        ;
        assert(cat_words(m).subrange(e * words, (e + 1) * words) =~= cat_words(rest).subrange(
            e * words,
            (e + 1) * words,
        ));
        assert(cat_scales(m).subrange(e * scales, (e + 1) * scales) =~= cat_scales(rest).subrange(
            e * scales,
            (e + 1) * scales,
        ));
        assert(rest[e] == m[e]);
    } else {
        assert(e == n);
        assert(cat_words(m).subrange(e * words, (e + 1) * words) =~= m[e].packed@);
        assert(cat_scales(m).subrange(e * scales, (e + 1) * scales) =~= m[e].scales@);
    }
}

/// A code and the bits of the scale that it is multiplied by.
#[derive(Clone, Copy, Debug, PartialEq, Eq, Structural)]
pub struct Code {
    pub q: i32,
    pub scale: u32,
}

/// The bits of the single precision value whose leading half a bf16 value is.
pub open spec fn scale_bits(bits: u16) -> u32 {
    (bits as u32) << 16
}

impl HostW4Stack {
    /// The stack holds as many words and scales as its shape says.
    pub open spec fn wf(&self) -> bool {
        &&& self.k % W4_GS == 0
        &&& self.e * (self.n * self.k) <= usize::MAX
        &&& self.packed@.len() == self.e * (self.n * self.k / 8)
        &&& self.scales@.len() == self.e * (self.n * (self.k / W4_GS))
    }

    /// Element `i` of expert `e`, row by row.
    pub open spec fn code(&self, e: int, i: int) -> Code {
        Code {
            q: w4_at(self.packed@, e * (self.n * self.k) + i) as i32,
            scale: scale_bits(self.scales@[(e * (self.n * self.k) + i) / W4_GS as int]),
        }
    }
}

/// The codes and scales of one expert's matrix, row by row.
pub fn dequantize_w4_expert(stack: &HostW4Stack, e: usize) -> (r: Vec<Code>)
    requires
        stack.wf(),
        e < stack.e,
    ensures
        r@ == Seq::new((stack.n * stack.k) as nat, |i: int| stack.code(e as int, i)),
{
    let n: usize = stack.n;
    let k: usize = stack.k;
    proof {
        lemma_stack(stack.e as int, e as int, n as int, k as int);
    }
    let size: usize = n * k;
    let base: usize = e * size;
    let mut r: Vec<Code> = Vec::new();
    let mut i: usize = 0;
    while i < size
        invariant
            stack.wf(),
            e < stack.e,
            n == stack.n,
            k == stack.k,
            size == n * k,
            base == e * size,
            i <= size,
            base + size <= stack.e * size,
            stack.e * size <= usize::MAX,
            size % 32 == 0,
            stack.packed@.len() == stack.e * (size as int / 8),
            stack.scales@.len() == stack.e * (size as int / 32),
            r@ == Seq::new(i as nat, |j: int| stack.code(e as int, j)),
        decreases size - i,
    {
        let at: usize = base + i;
        proof {
            lemma_in_range(stack.e as int, size as int, at as int);
        }
        let word: u32 = stack.packed[at / 8];
        let sh: u32 = (4 * (at % 8)) as u32;
        assert((word >> sh) & 15 < 16) by (bit_vector);
        let q: i32 = ((word >> sh) & 15) as i32 - 8;
        let scale: u32 = (stack.scales[at / W4_GS] as u32) << 16;
        r.push(Code { q, scale });
        i = i + 1;
        assert(r@ =~= Seq::new(i as nat, |j: int| stack.code(e as int, j)));
    }
    r
}

proof fn lemma_stack(e: int, i: int, n: int, k: int)
    requires
        0 <= i < e,
        0 <= n,
        0 <= k,
        k % 32 == 0,
        e * (n * k) <= usize::MAX,
    ensures
        0 <= n * k <= usize::MAX,
        i * (n * k) + n * k <= e * (n * k),
        0 <= i * (n * k),
        (n * k) % 32 == 0,
        n * (k / 32) == (n * k) / 32,
{
    let s = n * k;
    let g = k / 32;
    assert(s == 32 * (n * g)) by (nonlinear_arith)
        requires
            s == n * k,
            k == 32 * g,
    ;
    assert(0 <= n * g) by (nonlinear_arith)
        requires
            0 <= n,
            0 <= g,
    ;
    assert(i * s + s <= e * s && 0 <= i * s && s <= e * s) by (nonlinear_arith)
        requires
            0 <= i < e,
            0 <= s,
    ;
}

proof fn lemma_in_range(e: int, size: int, at: int)
    requires
        0 <= at < e * size,
        size % 32 == 0,
        size >= 0,
    ensures
        0 <= at / 8 < e * (size / 8),
        0 <= at / 32 < e * (size / 32),
{
    let g = size / 32;
    assert(size == 32 * g);
    assert(size / 8 == 4 * g);
    assert(e * size == 32 * (e * g)) by (nonlinear_arith)
        requires
            size == 32 * g,
    ;
    assert(e * (size / 8) == 4 * (e * g)) by (nonlinear_arith)
        requires
            size / 8 == 4 * g,
    ;
}

impl HostI8Mat {
    pub open spec fn wf(&self) -> bool {
        &&& self.k % I8_GS == 0
        &&& self.n * self.k <= usize::MAX
        &&& self.q@.len() == self.n * (self.k / 4)
        &&& self.scales@.len() == self.n * (self.k / I8_GS)
    }

    /// Element `i` of row `r`: its byte, and the bits of its scale.
    pub open spec fn code(&self, r: int, i: int) -> (u8, u32) {
        (
            i8_at(self.q@, r * self.k + i),
            scale_bits(self.scales@[r * (self.k / I8_GS) + i / I8_GS as int]),
        )
    }
}

/// The bytes and scales of one row.
pub fn dequantize_i8_row(m: &HostI8Mat, r: usize) -> (v: Vec<(u8, u32)>)
    requires
        m.wf(),
        r < m.n,
    ensures
        v@ == Seq::new(m.k as nat, |i: int| m.code(r as int, i)),
{
    let k: usize = m.k;
    let groups: usize = k / I8_GS;
    let mut v: Vec<(u8, u32)> = Vec::new();
    let mut i: usize = 0;
    while i < k
        invariant
            m.wf(),
            r < m.n,
            k == m.k,
            groups == k / I8_GS,
            i <= k,
            v@ == Seq::new(i as nat, |j: int| m.code(r as int, j)),
        decreases k - i,
    {
        proof {
            lemma_row(m.n as int, r as int, k as int, i as int);
        }
        let word: u32 = m.q[r * (k / 4) + i / 4];
        let sh: u32 = (8 * (i % 4)) as u32;
        let byte: u8 = ((word >> sh) & 0xff) as u8;
        let scale: u32 = (m.scales[r * groups + i / I8_GS] as u32) << 16;
        v.push((byte, scale));
        i = i + 1;
        assert(v@ =~= Seq::new(i as nat, |j: int| m.code(r as int, j)));
    }
    v
}

proof fn lemma_row(n: int, r: int, k: int, i: int)
    requires
        0 <= r < n,
        0 <= i < k,
        k % 32 == 0,
        n * k <= usize::MAX,
    ensures
        0 <= r * (k / 4) + i / 4 < n * (k / 4),
        0 <= r * (k / 32) + i / 32 < n * (k / 32),
        n * (k / 4) <= usize::MAX,
        n * (k / 32) <= usize::MAX,
        0 <= r * (k / 4),
        0 <= r * (k / 32),
        (r * k + i) / 4 == r * (k / 4) + i / 4,
        (r * k + i) % 4 == i % 4,
{
    let g = k / 32;
    let q = k / 4;
    assert(k == 32 * g && q == 8 * g);
    assert(0 <= r * q && r * q + q <= n * q && 0 <= r * g && r * g + g <= n * g) by (nonlinear_arith)
        requires
            0 <= r < n,
            0 <= q,
            0 <= g,
    ;
    assert(n * k == 4 * (n * q) && n * q == 8 * (n * g)) by (nonlinear_arith)
        requires
            k == 4 * q,
            q == 8 * g,
    ;
    assert(0 <= n * g) by (nonlinear_arith)
        requires
            0 <= n,
            0 <= g,
    ;
    assert(r * k == 4 * (r * q)) by (nonlinear_arith)
        requires
            k == 4 * q,
    ;
}

/// What was packed for one expert is what is read of it from the stack: its code, and the
/// scale of its group.
pub proof fn law_stack_read_back(m: Seq<HostW4Mat>, stack: HostW4Stack, e: int, i: int)
    requires
        stack.wf(),
        stack.packed@ == cat_words(m),
        stack.scales@ == cat_scales(m),
        stack.e == m.len(),
        forall|j: int|
            0 <= j < m.len() ==> (#[trigger] m[j]).packed@.len() == stack.n * stack.k / 8
                && m[j].scales@.len() == stack.n * (stack.k / W4_GS),
        0 <= e < m.len(),
        0 <= i < stack.n * stack.k,
    ensures
        stack.code(e, i).q == w4_at(m[e].packed@, i),
        stack.code(e, i).scale == scale_bits(m[e].scales@[i / W4_GS as int]),
{
    let size = stack.n * stack.k;
    lemma_stack(stack.e as int, e, stack.n as int, stack.k as int);
    let words = size / 8;
    let scales = size / 32;
    law_stack_slices(m, words, scales, e);
    let at = e * size + i;
    assert(size == 32 * scales && words == 4 * scales);
    assert(e * size == 32 * (e * scales) && e * words == 4 * (e * scales)) by (nonlinear_arith)
        requires
            size == 32 * scales,
            words == 4 * scales,
    ;
    assert(at / 8 == e * words + i / 8 && at % 8 == i % 8);
    assert(at / 32 == e * scales + i / 32);
    assert((e + 1) * words == e * words + words && (e + 1) * scales == e * scales + scales)
        by (nonlinear_arith);
    assert(0 <= e * scales && (e + 1) * scales <= m.len() * scales && (e + 1) * words <= m.len()
        * words) by (nonlinear_arith)
        requires
            0 <= e < m.len(),
            scales >= 0,
            words == 4 * scales,
    ;
    assert(cat_words(m).subrange(e * words, (e + 1) * words)[i / 8] == cat_words(m)[e * words + i
        / 8]);
    assert(cat_scales(m).subrange(e * scales, (e + 1) * scales)[i / 32] == cat_scales(m)[e * scales
        + i / 32]);
    let w = m[e].packed@[i / 8];
    let sh = (4 * (i % 8)) as u32;
    assert((w >> sh) & 15 < 16) by (bit_vector);
}

} // verus!
