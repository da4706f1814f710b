//! Sixteen-bit floating point numbers as bits.
use vstd::prelude::*;

verus! {

/// The bits of a sixteen-bit number, widened to thirty-two. A number keeps its bits as the
/// upper half; what is not a number also has the quiet bit set.
pub open spec fn widened(bits: u16) -> u32 {
    if bits & 0x7fff > 0x7f80 {
        ((bits as u32) | 0x40) << 16
    } else {
        (bits as u32) << 16
    }
}

/// Calls `half::bf16::to_f32`, between `from_bits` and `to_bits`. Claims that widening keeps
/// the bits as the upper half, and sets the quiet bit of what is not a number.
#[verifier::external_body]
pub(crate) fn widen(bits: u16) -> (r: u32)
    ensures
        r == widened(bits),
{
    half::bf16::from_bits(bits).to_f32().to_bits()
}

/// The widened bits of sixteen-bit numbers.
pub fn widen_all(v: &[u16]) -> (r: Vec<u32>)
    ensures
        r@ == Seq::new(v@.len(), |i: int| widened(v@[i])),
{
    let mut r: Vec<u32> = Vec::new();
    let mut i: usize = 0;
    while i < v.len()
        invariant
            i <= v@.len(),
            r@ == Seq::new(i as nat, |j: int| widened(v@[j])),
        decreases v@.len() - i,
    {
        r.push(widen(v[i]));
        i = i + 1;
        assert(r@ =~= Seq::new(i as nat, |j: int| widened(v@[j])));
    }
    r
}

/// The widened bits of the first of a tensor's values, if it has any.
pub fn first_widened(v: &[u16]) -> (r: Option<u32>)
    ensures
        r == if v@.len() > 0 {
            Some(widened(v@[0]))
        } else {
            None::<u32>
        },
{
    if v.len() == 0 {
        return None;
    }
    Some(widen(v[0]))
}

/// Widening is undone by dropping the lower half, save for the quiet bit of what is not a
/// number.
pub proof fn law_widened(bits: u16)
    ensures
        widened(bits) & 0xffff == 0,
        bits & 0x7fff <= 0x7f80 ==> widened(bits) >> 16 == bits,
        bits & 0x7fff > 0x7f80 ==> widened(bits) >> 16 == bits | 0x40,
{
    let low = (bits as u32) << 16;
    let quiet = ((bits as u32) | 0x40) << 16;
    assert(low & 0xffff == 0 && low >> 16 == bits && quiet & 0xffff == 0 && quiet >> 16 == bits
        | 0x40) by (bit_vector)
        requires
            low == (bits as u32) << 16,
            quiet == ((bits as u32) | 0x40) << 16,
    ;
}

/// The bits of a number, rounded to the nearest with sixteen, and to the even one of two
/// that are equally near. What is not a number keeps its upper half, with the quiet bit set.
pub open spec fn narrowed(bits: u32) -> u16 {
    if bits & 0x7fff_ffff > 0x7f80_0000 {
        ((bits >> 16) | 0x40) as u16
    } else if bits & 0x8000 != 0 && bits & 0x1_7fff != 0 {
        ((bits >> 16) + 1) as u16
    } else {
        (bits >> 16) as u16
    }
}

/// Calls `half::bf16::from_f32`, on the number whose bits `bytemuck::cast` hands it. Claims
/// that it rounds to nearest, ties to even, and sets the quiet bit of what is not a number.
#[verifier::external_body]
pub(crate) fn narrow(bits: u32) -> (r: u16)
    ensures
        r == narrowed(bits),
{
    half::bf16::from_f32(bytemuck::cast(bits)).to_bits()
}

/// Numbers rounded to sixteen bits.
pub fn narrow_all(v: &[u32]) -> (r: Vec<u16>)
    ensures
        r@ == Seq::new(v@.len(), |i: int| narrowed(v@[i])),
{
    let mut r: Vec<u16> = Vec::new();
    let mut i: usize = 0;
    while i < v.len()
        invariant
            i <= v@.len(),
            r@ == Seq::new(i as nat, |j: int| narrowed(v@[j])),
        decreases v@.len() - i,
    {
        r.push(narrow(v[i]));
        i = i + 1;
        assert(r@ =~= Seq::new(i as nat, |j: int| narrowed(v@[j])));
    }
    r
}

/// Rounding gives back what was widened, save for the quiet bit of what is not a number.
pub proof fn law_narrow_widen(bits: u16)
    ensures
        bits & 0x7fff <= 0x7f80 ==> narrowed(widened(bits)) == bits,
        bits & 0x7fff > 0x7f80 ==> narrowed(widened(bits)) == bits | 0x40,
{
    let low = (bits as u32) << 16;
    let quiet = ((bits as u32) | 0x40) << 16;
    assert(low & 0x8000 == 0 && (low >> 16) as u16 == bits && (low & 0x7fff_ffff > 0x7f80_0000) == (
    bits & 0x7fff > 0x7f80) && quiet & 0x8000 == 0 && ((quiet >> 16) | 0x40) as u16 == bits | 0x40
        && (bits & 0x7fff > 0x7f80 ==> quiet & 0x7fff_ffff > 0x7f80_0000)) by (bit_vector)
        requires
            low == (bits as u32) << 16,
            quiet == ((bits as u32) | 0x40) << 16,
    ;
}

/// Rounding a number down to the bits that are left never moves it by more than half of the
/// last of them.
pub proof fn law_narrow_near(bits: u32)
    requires
        bits & 0x7fff_ffff <= 0x7f80_0000,
    ensures
        -0x8000 <= narrowed(bits) * 0x1_0000 - bits <= 0x8000,
{
    let up = (bits >> 16) + 1;
    assert(bits & 0x7fff_ffff <= 0x7f80_0000 ==> ({
        &&& (bits >> 16) <= 0xff80
        &&& (bits & 0x8000 == 0) ==> (bits - (bits >> 16) * 0x1_0000 < 0x8000 && bits >= (bits >> 16)
            * 0x1_0000)
        &&& (bits & 0x8000 != 0) ==> (bits >> 16) * 0x1_0000 + 0x8000 <= bits && bits < (bits >> 16)
            * 0x1_0000 + 0x1_0000
        &&& (bits & 0x8000 != 0 && bits & 0x1_7fff == 0) ==> bits == (bits >> 16) * 0x1_0000
            + 0x8000
    })) by (bit_vector);
}

} // verus!
