//! The growable linear memory of one guest instance.

use vstd::prelude::*;

use crate::codec::ElementWidth;
use crate::error::MemoryError;
use crate::view::MemoryView;

verus! {

/// The fixed growth unit of linear memory, in bytes (64 KiB).
pub const PAGE_SIZE: usize = 0x1_0000;

/// Whether a memory of `total_pages` pages is admissible: the count stays
/// within `max_pages` (when set) and the byte size is addressable on this
/// host.
pub open spec fn pages_fit(total_pages: int, max_pages: Option<u32>) -> bool {
    &&& total_pages <= u32::MAX
    &&& match max_pages {
        Some(max) => total_pages <= max,
        None => true,
    }
    &&& total_pages * (PAGE_SIZE as int) <= usize::MAX as int
}

/// A contiguous, growable byte buffer addressed by byte offset, sized in
/// whole pages and optionally capped at `max_pages`. Exactly one owner
/// holds it; views receive it by reference on every access, so they always
/// observe its current size and contents.
#[derive(Debug)]
pub struct Memory {
    bytes: Vec<u8>,
    page_count: u32,
    max_pages: Option<u32>,
}

impl Memory {
    /// The buffer contents.
    pub closed spec fn spec_bytes(self) -> Seq<u8> {
        self.bytes@
    }

    /// The current size in pages.
    pub closed spec fn spec_page_count(self) -> u32 {
        self.page_count
    }

    /// The configured page maximum, if any.
    pub closed spec fn spec_max_pages(self) -> Option<u32> {
        self.max_pages
    }

    /// The current size in bytes.
    pub open spec fn byte_len(self) -> int {
        self.spec_bytes().len() as int
    }

    /// The memory's invariant: the buffer holds exactly `page_count` whole
    /// pages, within the configured maximum.
    pub open spec fn wf(self) -> bool {
        &&& self.byte_len() == self.spec_page_count() * (PAGE_SIZE as int)
        &&& match self.spec_max_pages() {
            Some(max) => self.spec_page_count() <= max,
            None => true,
        }
    }

    /// Whether growing by `pages` can succeed: the new page count stays
    /// within `max_pages` (when set) and the new byte size is addressable
    /// on this host.
    pub open spec fn can_grow(self, pages: u32) -> bool {
        pages_fit(self.spec_page_count() + pages, self.spec_max_pages())
    }

    /// Creates a zero-filled memory of `initial_pages` pages, capped at
    /// `max_pages` when given. Fails with `GrowFailed` exactly when the
    /// initial size itself exceeds the cap or is not addressable.
    pub fn new(initial_pages: u32, max_pages: Option<u32>) -> (r: Result<Memory, MemoryError>)
        ensures
            match r {
                Ok(m) => {
                    &&& m.wf()
                    &&& m.spec_page_count() == initial_pages
                    &&& m.spec_max_pages() == max_pages
                    &&& m.spec_bytes() == Seq::new(
                        (initial_pages * PAGE_SIZE) as nat,
                        |i: int| 0u8,
                    )
                    &&& pages_fit(initial_pages as int, max_pages)
                },
                Err(e) => {
                    &&& e is GrowFailed
                    &&& !pages_fit(initial_pages as int, max_pages)
                },
            },
    {
        let mut m = Memory { bytes: Vec::new(), page_count: 0, max_pages };
        match m.grow(initial_pages) {
            Ok(_) => {
                proof {
                    assert(m.spec_bytes() =~= Seq::new((initial_pages * PAGE_SIZE) as nat, |i: int| 0u8));
                }
                Ok(m)
            },
            Err(e) => Err(e),
        }
    }

    /// The current size of the memory in bytes.
    pub fn byte_length(&self) -> (r: usize)
        ensures
            r == self.byte_len(),
    {
        self.bytes.len()
    }

    /// The current size of the memory in pages.
    pub fn page_count(&self) -> (r: u32)
        ensures
            r == self.spec_page_count(),
    {
        self.page_count
    }

    /// The configured page maximum, if any.
    pub fn max_pages(&self) -> (r: Option<u32>)
        ensures
            r == self.spec_max_pages(),
    {
        self.max_pages
    }

    /// Extends the memory by `pages` zero-filled pages, in place, and
    /// returns the page count from before the call. Growing by zero pages
    /// is a legal no-op. Fails with `GrowFailed` — and changes nothing —
    /// exactly when the new page count would exceed `max_pages` or the new
    /// size would not be addressable; growth is atomic either way.
    pub fn grow(&mut self, pages: u32) -> (r: Result<u32, MemoryError>)
        requires
            old(self).wf(),
        ensures
            final(self).wf(),
            final(self).spec_max_pages() == old(self).spec_max_pages(),
            match r {
                Ok(prev) => {
                    &&& old(self).can_grow(pages)
                    &&& prev == old(self).spec_page_count()
                    &&& final(self).spec_page_count() == old(self).spec_page_count() + pages
                    &&& final(self).byte_len() == old(self).byte_len() + pages * (
                    PAGE_SIZE as int)
                    &&& final(self).spec_bytes() == old(self).spec_bytes() + Seq::new(
                        (pages * PAGE_SIZE) as nat,
                        |i: int| 0u8,
                    )
                },
                Err(e) => {
                    &&& e is GrowFailed
                    &&& !old(self).can_grow(pages)
                    &&& final(self).spec_bytes() == old(self).spec_bytes()
                    &&& final(self).spec_page_count() == old(self).spec_page_count()
                },
            },
    {
        let prev = self.page_count;
        let new_pages = match self.page_count.checked_add(pages) {
            Some(n) => n,
            None => {
                return Err(MemoryError::GrowFailed);
            },
        };
        match self.max_pages {
            Some(max) => {
                if new_pages > max {
                    return Err(MemoryError::GrowFailed);
                }
            },
            None => {},
        }
        let extra = match (pages as usize).checked_mul(PAGE_SIZE) {
            Some(n) => n,
            None => {
                return Err(MemoryError::GrowFailed);
            },
        };
        if self.bytes.len().checked_add(extra).is_none() {
            return Err(MemoryError::GrowFailed);
        }
        let ghost orig = *self;
        let mut added: usize = 0;
        while added < extra
            invariant
                added <= extra,
                extra == pages * PAGE_SIZE,
                self.page_count == orig.page_count,
                self.max_pages == orig.max_pages,
                orig.spec_bytes().len() + extra <= usize::MAX,
                self.spec_bytes() == orig.spec_bytes() + Seq::new(added as nat, |i: int| 0u8),
            decreases extra - added,
        {
            self.bytes.push(0);
            added += 1;
            proof {
                assert(self.spec_bytes() =~= orig.spec_bytes() + Seq::new(added as nat, |i: int| 0u8));
            }
        }
        self.page_count = new_pages;
        proof {
            vstd::arithmetic::mul::lemma_mul_is_distributive_add_other_way(
                PAGE_SIZE as int,
                prev as int,
                pages as int,
            );
        }
        Ok(prev)
    }

    /// The buffer is a real allocation, so its byte length is addressable.
    pub proof fn lemma_byte_len_fits(self)
        ensures
            self.byte_len() <= usize::MAX as int,
    {
        vstd::std_specs::vec::axiom_spec_len(&self.bytes);
    }

    /// Growth limit: a memory capped at `max` pages cannot grow past it —
    /// whenever the current page count plus the requested pages exceeds the
    /// cap, `can_grow` is false, so by the contract of `grow` the call
    /// fails with `GrowFailed` and changes nothing.
    pub proof fn lemma_grow_beyond_max_fails(self, pages: u32)
        requires
            self.spec_max_pages() matches Some(max) && self.spec_page_count() + pages > max,
        ensures
            !self.can_grow(pages),
    {
    }

    /// The byte stored at offset `i`.
    pub(crate) fn byte_at(&self, i: usize) -> (r: u8)
        requires
            i < self.byte_len(),
        ensures
            r == self.spec_bytes()[i as int],
    {
        self.bytes[i]
    }

    /// Stores `b` at offset `i`, leaving every other byte and the page
    /// bookkeeping unchanged.
    pub(crate) fn set_byte(&mut self, i: usize, b: u8)
        requires
            i < old(self).byte_len(),
        ensures
            final(self).spec_bytes() == old(self).spec_bytes().update(i as int, b),
            final(self).spec_page_count() == old(self).spec_page_count(),
            final(self).spec_max_pages() == old(self).spec_max_pages(),
    {
        self.bytes[i] = b;
    }

    /// A view of this memory as an array of unsigned 8-bit elements
    /// starting at byte `offset`.
    pub fn uint8_view(&self, offset: usize) -> (v: MemoryView)
        ensures
            v.byte_offset == offset,
            v.width is One,
            !v.signed,
    {
        MemoryView::new(ElementWidth::One, false, offset)
    }

    /// A view of this memory as an array of signed 8-bit elements starting
    /// at byte `offset`.
    pub fn int8_view(&self, offset: usize) -> (v: MemoryView)
        ensures
            v.byte_offset == offset,
            v.width is One,
            v.signed,
    {
        MemoryView::new(ElementWidth::One, true, offset)
    }

    /// A view of this memory as an array of unsigned 16-bit elements
    /// starting at byte `offset`.
    pub fn uint16_view(&self, offset: usize) -> (v: MemoryView)
        ensures
            v.byte_offset == offset,
            v.width is Two,
            !v.signed,
    {
        MemoryView::new(ElementWidth::Two, false, offset)
    }

    /// A view of this memory as an array of signed 16-bit elements starting
    /// at byte `offset`.
    pub fn int16_view(&self, offset: usize) -> (v: MemoryView)
        ensures
            v.byte_offset == offset,
            v.width is Two,
            v.signed,
    {
        MemoryView::new(ElementWidth::Two, true, offset)
    }

    /// A view of this memory as an array of unsigned 32-bit elements
    /// starting at byte `offset`.
    pub fn uint32_view(&self, offset: usize) -> (v: MemoryView)
        ensures
            v.byte_offset == offset,
            v.width is Four,
            !v.signed,
    {
        MemoryView::new(ElementWidth::Four, false, offset)
    }

    /// A view of this memory as an array of signed 32-bit elements starting
    /// at byte `offset`.
    pub fn int32_view(&self, offset: usize) -> (v: MemoryView)
        ensures
            v.byte_offset == offset,
            v.width is Four,
            v.signed,
    {
        MemoryView::new(ElementWidth::Four, true, offset)
    }
}

} // verus!
