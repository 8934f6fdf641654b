//! Element widths and the little-endian encoding shared by all views.
//!
//! A view interprets memory as an array of integers of one of three widths,
//! signed or unsigned. This module defines the width type, the mathematical
//! meaning of reading and writing such an element (`decode_at`, `encode`),
//! and the representable range of each element type.

use vstd::prelude::*;

verus! {

/// The number of bytes of one view element.
#[derive(Clone, Copy, Debug, PartialEq, Eq, Structural)]
pub enum ElementWidth {
    One,
    Two,
    Four,
}

/// The byte count of an element width.
pub open spec fn width_bytes(w: ElementWidth) -> int {
    match w {
        ElementWidth::One => 1,
        ElementWidth::Two => 2,
        ElementWidth::Four => 4,
    }
}

/// The number of distinct values an element of width `w` can hold.
pub open spec fn modulus(w: ElementWidth) -> int {
    match w {
        ElementWidth::One => 0x100,
        ElementWidth::Two => 0x1_0000,
        ElementWidth::Four => 0x1_0000_0000,
    }
}

/// Whether `x` is representable in an element of width `w` with the given
/// signedness: two's complement when signed, else non-negative below the
/// modulus.
pub open spec fn in_range(w: ElementWidth, signed: bool, x: int) -> bool {
    if signed {
        -(modulus(w) / 2) <= x < modulus(w) / 2
    } else {
        0 <= x < modulus(w)
    }
}

/// The unsigned little-endian value of the `width_bytes(w)` bytes of `bytes`
/// starting at `pos`.
pub open spec fn le_word(bytes: Seq<u8>, pos: int, w: ElementWidth) -> int {
    match w {
        ElementWidth::One => bytes[pos] as int,
        ElementWidth::Two => bytes[pos] + 0x100 * bytes[pos + 1],
        ElementWidth::Four => bytes[pos] + 0x100 * bytes[pos + 1] + 0x1_0000 * bytes[pos + 2]
            + 0x100_0000 * bytes[pos + 3],
    }
}

/// The element value read at byte position `pos`: the little-endian word,
/// reinterpreted in two's complement when `signed`.
pub open spec fn decode_at(bytes: Seq<u8>, pos: int, w: ElementWidth, signed: bool) -> int {
    let u = le_word(bytes, pos, w);
    if signed && u >= modulus(w) / 2 {
        u - modulus(w)
    } else {
        u
    }
}

/// The little-endian bytes that encode `x` in an element of width `w`.
/// For a negative (signed) `x` this is the two's-complement representative
/// `x + modulus(w)`.
pub open spec fn encode(x: int, w: ElementWidth) -> Seq<u8> {
    let u = if x < 0 {
        x + modulus(w)
    } else {
        x
    };
    match w {
        ElementWidth::One => seq![(u % 0x100) as u8],
        ElementWidth::Two => seq![(u % 0x100) as u8, ((u / 0x100) % 0x100) as u8],
        ElementWidth::Four => seq![
            (u % 0x100) as u8,
            ((u / 0x100) % 0x100) as u8,
            ((u / 0x1_0000) % 0x100) as u8,
            ((u / 0x100_0000) % 0x100) as u8,
        ],
    }
}

/// `s` with the bytes of `bs` written at position `pos`, everything else
/// unchanged; the length never changes.
pub open spec fn write_bytes(s: Seq<u8>, pos: int, bs: Seq<u8>) -> Seq<u8> {
    Seq::new(
        s.len(),
        |j: int|
            if pos <= j < pos + bs.len() {
                bs[j - pos]
            } else {
                s[j]
            },
    )
}

impl ElementWidth {
    /// The byte count of this width, as executable code.
    pub fn bytes(&self) -> (r: usize)
        ensures
            r == width_bytes(*self),
    {
        match self {
            ElementWidth::One => 1,
            ElementWidth::Two => 2,
            ElementWidth::Four => 4,
        }
    }
}

/// Decoding the encoding of a representable value gives the value back,
/// whatever the width and signedness.
pub proof fn lemma_encode_decode(w: ElementWidth, signed: bool, x: int)
    requires
        in_range(w, signed, x),
    ensures
        encode(x, w).len() == width_bytes(w),
        decode_at(encode(x, w), 0, w, signed) == x,
{
    let u = if x < 0 {
        x + modulus(w)
    } else {
        x
    };
    assert(0 <= u < modulus(w));
    let bs = encode(x, w);
    match w {
        ElementWidth::One => {
            assert(le_word(bs, 0, w) == u);
        },
        ElementWidth::Two => {
            assert(u == (u % 0x100) + 0x100 * ((u / 0x100) % 0x100)) by {
                assert(u / 0x100 < 0x100);
                assert((u / 0x100) % 0x100 == u / 0x100);
            }
            assert(le_word(bs, 0, w) == u);
        },
        ElementWidth::Four => {
            assert(u / 0x100_0000 < 0x100);
            assert((u / 0x100_0000) % 0x100 == u / 0x100_0000);
            assert((u / 0x100) % 0x100 == u / 0x100 - 0x100 * (u / 0x1_0000)) by {
                assert(u / 0x100 / 0x100 == u / 0x1_0000) by {
                    vstd::arithmetic::div_mod::lemma_div_denominator(u, 0x100, 0x100);
                }
            }
            assert((u / 0x1_0000) % 0x100 == u / 0x1_0000 - 0x100 * (u / 0x100_0000)) by {
                assert(u / 0x1_0000 / 0x100 == u / 0x100_0000) by {
                    vstd::arithmetic::div_mod::lemma_div_denominator(u, 0x1_0000, 0x100);
                }
            }
            assert(le_word(bs, 0, w) == u);
        },
    }
}

} // verus!
