//! Narrowing of wide sample values to the signed 16-bit range.

use vstd::prelude::*;

verus! {

/// `value` clipped to the signed 16-bit range.
pub open spec fn clamp16(value: int) -> int {
    if value < i16::MIN as int {
        i16::MIN as int
    } else if value > i16::MAX as int {
        i16::MAX as int
    } else {
        value
    }
}

/// Every element of `wide`, clipped to the signed 16-bit range.
pub open spec fn narrowed(wide: Seq<i128>) -> Seq<i16> {
    Seq::new(wide.len(), |i: int| clamp16(wide[i] as int) as i16)
}

/// Clipping leaves a value that is already a 16-bit sample as it is, and
/// clipping twice is clipping once.
pub proof fn lemma_clamp16_fixes_samples(value: int)
    ensures
        i16::MIN <= clamp16(value) <= i16::MAX,
        i16::MIN <= value <= i16::MAX ==> clamp16(value) == value,
        clamp16(clamp16(value)) == clamp16(value),
{
}

/// Clips a wide sample value to the signed 16-bit range: too loud a value is
/// pinned to the nearest bound, never wrapped.
pub fn clamp_sample(value: i128) -> (sample: i16)
    ensures
        sample == clamp16(value as int),
{
    if value < i16::MIN as i128 {
        i16::MIN
    } else if value > i16::MAX as i128 {
        i16::MAX
    } else {
        value as i16
    }
}

/// Clips every value of `wide` to the signed 16-bit range, in order.
pub fn narrow(wide: &Vec<i128>) -> (samples: Vec<i16>)
    ensures
        samples@ == narrowed(wide@),
{
    let mut samples: Vec<i16> = Vec::with_capacity(wide.len());
    let mut i: usize = 0;
    while i < wide.len()
        invariant
            i <= wide.len(),
            samples@ == narrowed(wide@.subrange(0, i as int)),
        decreases wide.len() - i,
    {
        samples.push(clamp_sample(wide[i]));
        i += 1;
    }
    assert(wide@.subrange(0, i as int) == wide@);
    samples
}

} // verus!
