//! Bit ranges of a 32-bit word.
use vstd::prelude::*;

verus! {

/// The bits of `word` selected by `mask` once shifted right by `lo`.
pub open spec fn field(word: u32, lo: u32, mask: u32) -> u32 {
    (word >> lo) & mask
}

/// Bit `n` of `word`.
pub open spec fn bit(word: u32, n: u32) -> bool {
    (word >> n) & 1 == 1
}

/// `word` with the field at `lo` under `mask` replaced by the low bits of `value`.
pub open spec fn set_field(word: u32, lo: u32, mask: u32, value: u32) -> u32 {
    (word & !(mask << lo)) | ((value & mask) << lo)
}

/// `word` with bit `n` set to `value`.
pub open spec fn set_bit(word: u32, n: u32, value: bool) -> u32 {
    if value {
        word | (1u32 << n)
    } else {
        word & !(1u32 << n)
    }
}

/// The two most significant bits of `word`.
pub open spec fn tag(word: u32) -> u32 {
    word >> 30
}

/// The tags of the three layouts' empty words, and the range of a tag.
pub proof fn lemma_tag_values(word: u32)
    ensures
        tag(0) == 0,
        tag(0x4000_0000) == 1,
        tag(0x8000_0000) == 2,
        tag(word) < 4,
{
    assert(0u32 >> 30u32 == 0 && 0x4000_0000u32 >> 30u32 == 1 && 0x8000_0000u32 >> 30u32 == 2
        && word >> 30u32 < 4) by (bit_vector);
}

/// Writing a field below bit 30 keeps the tag.
pub proof fn lemma_set_field_keeps_tag(word: u32, lo: u32, value: u32)
    requires
        lo <= 20,
    ensures
        tag(set_field(word, lo, 0x3FF, value)) == tag(word),
{
    assert(((word & !(0x3FFu32 << lo)) | ((value & 0x3FFu32) << lo)) >> 30u32 == word >> 30u32)
        by (bit_vector)
        requires
            lo <= 20,
    ;
}

/// Writing a bit below bit 30 keeps the tag.
pub proof fn lemma_set_bit_keeps_tag(word: u32, n: u32, value: bool)
    requires
        n < 30,
    ensures
        tag(set_bit(word, n, value)) == tag(word),
{
    assert((word | (1u32 << n)) >> 30u32 == word >> 30u32) by (bit_vector)
        requires
            n < 30,
    ;
    assert((word & !(1u32 << n)) >> 30u32 == word >> 30u32) by (bit_vector)
        requires
            n < 30,
    ;
}

} // verus!
