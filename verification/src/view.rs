//! Typed, bounds-checked views over a linear memory.

use vstd::prelude::*;

use crate::codec::{
    decode_at, encode, in_range, le_word, lemma_encode_decode, modulus, width_bytes, write_bytes,
    ElementWidth,
};
use crate::error::MemoryError;
use crate::memory::{Memory, PAGE_SIZE};

verus! {

/// A typed lens over a linear memory: it reinterprets the bytes from
/// `byte_offset` on as an array of little-endian integers of one width and
/// signedness. A view stores no memory contents and no length; every
/// access takes the memory by reference and recomputes the element count
/// from its current size, so growth is visible to existing views at their
/// very next access. Several views of different widths may overlap the
/// same bytes on purpose, to reinterpret them under different encodings.
#[derive(Clone, Copy, Debug, PartialEq, Eq, Structural)]
pub struct MemoryView {
    /// The first byte of memory the view covers.
    pub byte_offset: usize,
    /// The byte width of one element.
    pub width: ElementWidth,
    /// Whether elements are decoded in two's complement.
    pub signed: bool,
}

impl MemoryView {
    /// The number of whole elements between the view's offset and the
    /// current end of `m`; trailing bytes that do not fill an element, or
    /// an offset at or beyond the end, yield none.
    pub open spec fn spec_length(self, m: Memory) -> int {
        if self.byte_offset <= m.byte_len() {
            (m.byte_len() - self.byte_offset) / width_bytes(self.width)
        } else {
            0
        }
    }

    /// The byte position in memory of element `index`.
    pub open spec fn elem_pos(self, index: int) -> int {
        self.byte_offset + index * width_bytes(self.width)
    }

    /// The value of element `index` under this view, read from the current
    /// bytes of `m`.
    pub open spec fn spec_read(self, m: Memory, index: int) -> int {
        decode_at(m.spec_bytes(), self.elem_pos(index), self.width, self.signed)
    }

    /// Creates a view of the given element width and signedness, starting
    /// at `byte_offset`. Construction never fails and never touches memory:
    /// the offset may lie beyond the current end, anticipating growth.
    pub fn new(width: ElementWidth, signed: bool, byte_offset: usize) -> (v: MemoryView)
        ensures
            v.byte_offset == byte_offset,
            v.width == width,
            v.signed == signed,
    {
        MemoryView { byte_offset, width, signed }
    }

    /// The element count of this view over the current size of `m`,
    /// recomputed on every call.
    pub fn length(&self, m: &Memory) -> (r: usize)
        ensures
            r == self.spec_length(*m),
    {
        let len = m.byte_length();
        if self.byte_offset <= len {
            (len - self.byte_offset) / self.width.bytes()
        } else {
            0
        }
    }

    /// The signed lower and upper bounds of the representable values of
    /// this view's element type.
    fn value_bounds(&self) -> (r: (i64, i64))
        ensures
            forall|x: int| in_range(self.width, self.signed, x) <==> r.0 <= x <= r.1,
    {
        if self.signed {
            match self.width {
                ElementWidth::One => (-0x80, 0x7f),
                ElementWidth::Two => (-0x8000, 0x7fff),
                ElementWidth::Four => (-0x8000_0000, 0x7fff_ffff),
            }
        } else {
            match self.width {
                ElementWidth::One => (0, 0xff),
                ElementWidth::Two => (0, 0xffff),
                ElementWidth::Four => (0, 0xffff_ffff),
            }
        }
    }

    /// Reads element `index`, decoding `width` bytes at
    /// `byte_offset + index * width` from the current bytes of `m` as a
    /// little-endian integer, sign-extended when the view is signed and
    /// zero-extended otherwise. Succeeds exactly when `index` is below the
    /// view's current length; otherwise nothing is read and `OutOfBounds`
    /// is reported.
    pub fn get(&self, m: &Memory, index: usize) -> (r: Result<i64, MemoryError>)
        ensures
            r is Ok <==> index < self.spec_length(*m),
            r matches Ok(x) ==> x == self.spec_read(*m, index as int),
            r matches Ok(x) ==> in_range(self.width, self.signed, x as int),
            r matches Err(e) ==> e is OutOfBounds,
    {
        let n = self.length(m);
        if index >= n {
            return Err(MemoryError::OutOfBounds);
        }
        proof {
            lemma_element_in_bounds(*self, *m, index as int);
            m.lemma_byte_len_fits();
        }
        let w = self.width.bytes();
        let pos = self.byte_offset + index * w;
        let u: i64 = match self.width {
            ElementWidth::One => m.byte_at(pos) as i64,
            ElementWidth::Two => (m.byte_at(pos) as i64) + 0x100 * (m.byte_at(pos + 1) as i64),
            ElementWidth::Four => (m.byte_at(pos) as i64) + 0x100 * (m.byte_at(pos + 1) as i64)
                + 0x1_0000 * (m.byte_at(pos + 2) as i64) + 0x100_0000 * (m.byte_at(pos + 3) as i64),
        };
        let half: i64 = match self.width {
            ElementWidth::One => 0x80,
            ElementWidth::Two => 0x8000,
            ElementWidth::Four => 0x8000_0000,
        };
        let x: i64 = if self.signed && u >= half {
            u - 2 * half
        } else {
            u
        };
        Ok(x)
    }

    /// Writes `value` into element `index`: encodes it in `width`
    /// little-endian bytes, honouring the view's signedness, and stores
    /// them at `byte_offset + index * width` in `m`. The write is visible
    /// through every other view over the same memory, since they share the
    /// same bytes. Succeeds exactly when `index` is below the view's
    /// current length and `value` is representable; otherwise nothing is
    /// written, with `OutOfBounds` reported for a bad index and
    /// `ValueOutOfRange` for an unrepresentable value (rejected, never
    /// silently truncated).
    pub fn set(&self, m: &mut Memory, index: usize, value: i64) -> (r: Result<(), MemoryError>)
        ensures
            final(m).spec_page_count() == old(m).spec_page_count(),
            final(m).spec_max_pages() == old(m).spec_max_pages(),
            final(m).byte_len() == old(m).byte_len(),
            old(m).wf() ==> final(m).wf(),
            match r {
                Ok(_) => {
                    &&& index < self.spec_length(*old(m))
                    &&& in_range(self.width, self.signed, value as int)
                    &&& final(m).spec_bytes() == write_bytes(
                        old(m).spec_bytes(),
                        self.elem_pos(index as int),
                        encode(value as int, self.width),
                    )
                },
                Err(e) => {
                    &&& final(m).spec_bytes() == old(m).spec_bytes()
                    &&& !(index < self.spec_length(*old(m)) && in_range(
                        self.width,
                        self.signed,
                        value as int,
                    ))
                    &&& (e is OutOfBounds <==> index >= self.spec_length(*old(m)))
                    &&& (e is ValueOutOfRange <==> (index < self.spec_length(*old(m))
                        && !in_range(self.width, self.signed, value as int)))
                },
            },
    {
        let n = self.length(m);
        if index >= n {
            return Err(MemoryError::OutOfBounds);
        }
        let (lo, hi) = self.value_bounds();
        if value < lo || value > hi {
            return Err(MemoryError::ValueOutOfRange);
        }
        proof {
            lemma_element_in_bounds(*self, *m, index as int);
            m.lemma_byte_len_fits();
        }
        let w = self.width.bytes();
        let pos = self.byte_offset + index * w;
        let md: i64 = match self.width {
            ElementWidth::One => 0x100,
            ElementWidth::Two => 0x1_0000,
            ElementWidth::Four => 0x1_0000_0000,
        };
        let u: i64 = if value < 0 {
            value + md
        } else {
            value
        };
        proof {
            assert(md == modulus(self.width));
            assert(in_range(self.width, self.signed, value as int));
            assert(0 <= u < md);
        }
        m.set_byte(pos, (u % 0x100) as u8);
        match self.width {
            ElementWidth::One => {},
            ElementWidth::Two => {
                m.set_byte(pos + 1, ((u / 0x100) % 0x100) as u8);
            },
            ElementWidth::Four => {
                m.set_byte(pos + 1, ((u / 0x100) % 0x100) as u8);
                m.set_byte(pos + 2, ((u / 0x1_0000) % 0x100) as u8);
                m.set_byte(pos + 3, ((u / 0x100_0000) % 0x100) as u8);
            },
        }
        proof {
            assert(m.spec_bytes() =~= write_bytes(
                old(m).spec_bytes(),
                self.elem_pos(index as int),
                encode(value as int, self.width),
            ));
        }
        Ok(())
    }
}

/// Element `index` of a view lies, in whole, within the current bytes of
/// the memory whenever `index` is below the view's current length.
pub proof fn lemma_element_in_bounds(v: MemoryView, m: Memory, index: int)
    requires
        0 <= index < v.spec_length(m),
    ensures
        v.byte_offset <= v.elem_pos(index),
        v.elem_pos(index) + width_bytes(v.width) <= m.byte_len(),
{
    let w = width_bytes(v.width);
    let d = m.byte_len() - v.byte_offset;
    vstd::arithmetic::div_mod::lemma_fundamental_div_mod(d, w);
    vstd::arithmetic::div_mod::lemma_mod_bound(d, w);
    vstd::arithmetic::mul::lemma_mul_inequality(index + 1, d / w, w);
    vstd::arithmetic::mul::lemma_mul_is_distributive_add_other_way(w, index, 1);
    vstd::arithmetic::mul::lemma_mul_is_commutative(index, w);
    vstd::arithmetic::mul::lemma_mul_nonnegative(index, w);
}

/// A view whose offset is exactly the current byte length of the memory
/// has no elements; by the contracts of `get` and `set`, every access
/// through it then fails with `OutOfBounds`.
pub proof fn lemma_boundary_view_is_empty(v: MemoryView, m: Memory)
    requires
        v.byte_offset == m.byte_len(),
    ensures
        v.spec_length(m) == 0,
{
    vstd::arithmetic::div_mod::lemma_div_of0(width_bytes(v.width));
}

/// Growth extends every existing view: after the memory gains at least one
/// page, a view whose offset lay within the old bytes counts strictly more
/// elements than before, without being recreated. The hypothesis on the
/// byte contents is exactly what a successful `grow` ensures.
pub proof fn lemma_growth_extends_views(v: MemoryView, m1: Memory, m2: Memory, pages: u32)
    requires
        pages >= 1,
        v.byte_offset <= m1.byte_len(),
        m2.spec_bytes() == m1.spec_bytes() + Seq::new((pages * PAGE_SIZE) as nat, |i: int| 0u8),
    ensures
        v.spec_length(m2) > v.spec_length(m1),
{
    let w = width_bytes(v.width);
    let per_page = (PAGE_SIZE as int) / w;
    let k = (pages as int) * per_page;
    assert(k * w == pages * (PAGE_SIZE as int)) by {
        vstd::arithmetic::mul::lemma_mul_is_associative(pages as int, per_page, w);
    }
    assert(k >= 1) by {
        vstd::arithmetic::mul::lemma_mul_strictly_positive(pages as int, per_page);
    }
    let d1 = m1.byte_len() - v.byte_offset;
    assert(m2.byte_len() == m1.byte_len() + pages * (PAGE_SIZE as int));
    vstd::arithmetic::div_mod::lemma_hoist_over_denominator(d1, k, w as nat);
    vstd::arithmetic::div_mod::lemma_div_pos_is_pos(d1, w);
}

/// Growth preserves existing elements: every element index that was
/// accessible before the memory gained pages reads the same value after,
/// since the old bytes are kept in place and only zero bytes are appended.
pub proof fn lemma_growth_preserves_reads(v: MemoryView, m1: Memory, m2: Memory, pages: u32)
    requires
        m2.spec_bytes() == m1.spec_bytes() + Seq::new((pages * PAGE_SIZE) as nat, |i: int| 0u8),
    ensures
        forall|i: int|
            0 <= i < v.spec_length(m1) ==> #[trigger] v.spec_read(m2, i) == v.spec_read(m1, i),
{
    assert forall|i: int|
        0 <= i < v.spec_length(m1) implies #[trigger] v.spec_read(m2, i) == v.spec_read(
        m1,
        i,
    ) by {
        lemma_element_in_bounds(v, m1, i);
        let pos = v.elem_pos(i);
        assert(m2.spec_bytes()[pos] == m1.spec_bytes()[pos]);
        match v.width {
            ElementWidth::One => {},
            ElementWidth::Two => {
                assert(m2.spec_bytes()[pos + 1] == m1.spec_bytes()[pos + 1]);
            },
            ElementWidth::Four => {
                assert(m2.spec_bytes()[pos + 1] == m1.spec_bytes()[pos + 1]);
                assert(m2.spec_bytes()[pos + 2] == m1.spec_bytes()[pos + 2]);
                assert(m2.spec_bytes()[pos + 3] == m1.spec_bytes()[pos + 3]);
            },
        }
        assert(le_word(m2.spec_bytes(), pos, v.width) == le_word(m1.spec_bytes(), pos, v.width));
    }
}

/// Freshly grown memory reads as zero: when the old bytes ended on an
/// element boundary of the view, every element index that growth made
/// accessible — at or beyond the old length, below the new one — decodes
/// to zero, since all its bytes lie in the zero-filled extension.
pub proof fn lemma_grown_elements_read_zero(v: MemoryView, m1: Memory, m2: Memory, pages: u32)
    requires
        v.byte_offset <= m1.byte_len() ==> (m1.byte_len() - v.byte_offset) % width_bytes(v.width)
            == 0,
        m2.spec_bytes() == m1.spec_bytes() + Seq::new((pages * PAGE_SIZE) as nat, |i: int| 0u8),
    ensures
        forall|i: int|
            v.spec_length(m1) <= i < v.spec_length(m2) ==> #[trigger] v.spec_read(m2, i) == 0,
{
    let w = width_bytes(v.width);
    assert forall|i: int|
        v.spec_length(m1) <= i < v.spec_length(m2) implies #[trigger] v.spec_read(m2, i)
        == 0 by {
        lemma_element_in_bounds(v, m2, i);
        let pos = v.elem_pos(i);
        if v.byte_offset <= m1.byte_len() {
            let d1 = m1.byte_len() - v.byte_offset;
            let count1 = d1 / w;
            vstd::arithmetic::div_mod::lemma_fundamental_div_mod(d1, w);
            vstd::arithmetic::mul::lemma_mul_inequality(count1, i, w);
            vstd::arithmetic::mul::lemma_mul_is_commutative(count1, w);
            vstd::arithmetic::mul::lemma_mul_is_commutative(i, w);
            assert(pos >= m1.byte_len());
        } else {
            vstd::arithmetic::mul::lemma_mul_nonnegative(i, w);
            assert(pos >= m1.byte_len());
        }
        assert(m2.spec_bytes()[pos] == 0);
        match v.width {
            ElementWidth::One => {},
            ElementWidth::Two => {
                assert(m2.spec_bytes()[pos + 1] == 0);
            },
            ElementWidth::Four => {
                assert(m2.spec_bytes()[pos + 1] == 0);
                assert(m2.spec_bytes()[pos + 2] == 0);
                assert(m2.spec_bytes()[pos + 3] == 0);
            },
        }
        assert(le_word(m2.spec_bytes(), pos, v.width) == 0);
    }
}

/// Round trip: writing a representable value into an element and reading
/// the same element back through the same view yields the value written,
/// and the view's length is unchanged. The hypothesis on the byte contents
/// is exactly what a successful `set` ensures.
pub proof fn lemma_set_get_round_trip(v: MemoryView, m1: Memory, m2: Memory, index: int, x: int)
    requires
        0 <= index < v.spec_length(m1),
        in_range(v.width, v.signed, x),
        m2.spec_bytes() == write_bytes(m1.spec_bytes(), v.elem_pos(index), encode(x, v.width)),
    ensures
        v.spec_length(m2) == v.spec_length(m1),
        v.spec_read(m2, index) == x,
{
    lemma_element_in_bounds(v, m1, index);
    lemma_encode_decode(v.width, v.signed, x);
    let pos = v.elem_pos(index);
    let bs = encode(x, v.width);
    assert(m2.spec_bytes().len() == m1.spec_bytes().len());
    assert(m2.spec_bytes()[pos] == bs[0]);
    match v.width {
        ElementWidth::One => {},
        ElementWidth::Two => {
            assert(m2.spec_bytes()[pos + 1] == bs[1]);
        },
        ElementWidth::Four => {
            assert(m2.spec_bytes()[pos + 1] == bs[1]);
            assert(m2.spec_bytes()[pos + 2] == bs[2]);
            assert(m2.spec_bytes()[pos + 3] == bs[3]);
        },
    }
    assert(le_word(m2.spec_bytes(), pos, v.width) == le_word(bs, 0, v.width));
}

} // verus!
