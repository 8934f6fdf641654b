use wasm_memory::codec::ElementWidth;
use wasm_memory::error::MemoryError;
use wasm_memory::memory::{Memory, PAGE_SIZE};
use wasm_memory::view::MemoryView;
use wasm_memory::ExportedFunctions;

#[test]
fn grow_extends_by_whole_pages() {
    let mut m = Memory::new(1, None).unwrap();
    assert_eq!(m.byte_length(), PAGE_SIZE);
    assert_eq!(m.page_count(), 1);
    let prev = m.grow(2).unwrap();
    assert_eq!(prev, 1);
    assert_eq!(m.page_count(), 3);
    assert_eq!(m.byte_length(), 3 * PAGE_SIZE);
}

#[test]
fn grow_zero_pages_is_a_no_op() {
    let mut m = Memory::new(2, Some(2)).unwrap();
    let prev = m.grow(0).unwrap();
    assert_eq!(prev, 2);
    assert_eq!(m.page_count(), 2);
    assert_eq!(m.byte_length(), 2 * PAGE_SIZE);
}

#[test]
fn grow_past_max_fails_and_changes_nothing() {
    let mut m = Memory::new(1, Some(3)).unwrap();
    let err = m.grow(3).unwrap_err();
    assert_eq!(err, MemoryError::GrowFailed);
    assert_eq!(m.page_count(), 1);
    assert_eq!(m.byte_length(), PAGE_SIZE);
    // Growing up to the cap still succeeds afterwards.
    assert_eq!(m.grow(2).unwrap(), 1);
    assert_eq!(m.page_count(), 3);
    assert_eq!(m.grow(1).unwrap_err(), MemoryError::GrowFailed);
}

#[test]
fn new_beyond_max_fails() {
    let err = Memory::new(4, Some(3)).unwrap_err();
    assert_eq!(err, MemoryError::GrowFailed);
}

#[test]
fn fresh_memory_is_zero_filled() {
    let m = Memory::new(1, None).unwrap();
    let v = m.uint8_view(0);
    for i in [0, 1, PAGE_SIZE / 2, PAGE_SIZE - 1] {
        assert_eq!(v.get(&m, i).unwrap(), 0);
    }
}

#[test]
fn get_succeeds_exactly_below_length() {
    let mut m = Memory::new(1, None).unwrap();
    let v = m.uint16_view(0);
    let n = v.length(&m);
    assert_eq!(n, PAGE_SIZE / 2);
    assert!(v.get(&m, 0).is_ok());
    assert!(v.get(&m, n - 1).is_ok());
    assert_eq!(v.get(&m, n).unwrap_err(), MemoryError::OutOfBounds);
    assert_eq!(v.set(&mut m, n, 0).unwrap_err(), MemoryError::OutOfBounds);
}

#[test]
fn growth_is_visible_through_existing_views() {
    let mut m = Memory::new(1, None).unwrap();
    let v = m.uint8_view(0);
    let l0 = v.length(&m);
    assert_eq!(l0, PAGE_SIZE);
    assert_eq!(v.get(&m, l0).unwrap_err(), MemoryError::OutOfBounds);
    m.grow(1).unwrap();
    // The same view, not recreated, sees the larger memory ...
    assert!(v.length(&m) > l0);
    assert_eq!(v.length(&m), 2 * PAGE_SIZE);
    // ... and the freshly grown bytes read as zero.
    assert_eq!(v.get(&m, l0).unwrap(), 0);
    assert_eq!(v.get(&m, 2 * PAGE_SIZE - 1).unwrap(), 0);
}

#[test]
fn growth_preserves_existing_contents() {
    let mut m = Memory::new(1, None).unwrap();
    let v = m.int32_view(8);
    v.set(&mut m, 0, -123_456).unwrap();
    v.set(&mut m, 1, 0x7fff_ffff).unwrap();
    m.grow(2).unwrap();
    assert_eq!(v.get(&m, 0).unwrap(), -123_456);
    assert_eq!(v.get(&m, 1).unwrap(), 0x7fff_ffff);
}

#[test]
fn round_trip_all_widths_and_signs() {
    let mut m = Memory::new(1, None).unwrap();
    let cases: &[(MemoryView, &[i64])] = &[
        (m.uint8_view(0), &[0, 1, 0x7f, 0x80, 0xff]),
        (m.int8_view(0), &[-0x80, -1, 0, 1, 0x7f]),
        (m.uint16_view(0), &[0, 1, 0x7fff, 0x8000, 0xffff]),
        (m.int16_view(0), &[-0x8000, -1, 0, 1, 0x7fff]),
        (m.uint32_view(0), &[0, 1, 0x7fff_ffff, 0x8000_0000, 0xffff_ffff]),
        (m.int32_view(0), &[-0x8000_0000, -1, 0, 1, 0x7fff_ffff]),
    ];
    for (v, values) in cases {
        for (i, &x) in values.iter().enumerate() {
            v.set(&mut m, i, x).unwrap();
            assert_eq!(v.get(&m, i).unwrap(), x);
        }
    }
}

#[test]
fn little_endian_aliasing_across_views() {
    let mut m = Memory::new(1, None).unwrap();
    let v32 = m.uint32_view(0);
    v32.set(&mut m, 0, 0x0102_0304).unwrap();
    let v8 = m.uint8_view(0);
    let bytes: Vec<i64> = (0..4).map(|i| v8.get(&m, i).unwrap()).collect();
    assert_eq!(bytes, vec![0x04, 0x03, 0x02, 0x01]);
}

#[test]
fn writes_through_one_view_are_visible_through_others() {
    let mut m = Memory::new(1, None).unwrap();
    let v8 = m.uint8_view(0);
    v8.set(&mut m, 0, 0xFE).unwrap();
    v8.set(&mut m, 1, 0xFF).unwrap();
    // Bytes [0xFE, 0xFF] little-endian are 0xFFFE: -2 in two's complement.
    let s16 = m.int16_view(0);
    assert_eq!(s16.get(&m, 0).unwrap(), -2);
    let u16 = m.uint16_view(0);
    assert_eq!(u16.get(&m, 0).unwrap(), 0xFFFE);
}

#[test]
fn view_at_exact_end_is_empty() {
    let mut m = Memory::new(1, None).unwrap();
    let end = m.byte_length();
    let v = m.uint8_view(end);
    assert_eq!(v.length(&m), 0);
    assert_eq!(v.get(&m, 0).unwrap_err(), MemoryError::OutOfBounds);
    assert_eq!(v.set(&mut m, 0, 1).unwrap_err(), MemoryError::OutOfBounds);
}

#[test]
fn view_beyond_end_becomes_usable_after_growth() {
    let mut m = Memory::new(1, None).unwrap();
    let v = m.uint32_view(PAGE_SIZE + 4);
    assert_eq!(v.length(&m), 0);
    assert_eq!(v.get(&m, 0).unwrap_err(), MemoryError::OutOfBounds);
    m.grow(1).unwrap();
    assert_eq!(v.length(&m), (PAGE_SIZE - 4) / 4);
    assert_eq!(v.get(&m, 0).unwrap(), 0);
}

#[test]
fn trailing_bytes_that_fill_no_element_are_inaccessible() {
    let m = Memory::new(1, None).unwrap();
    let v = m.uint32_view(PAGE_SIZE - 3);
    assert_eq!(v.length(&m), 0);
    let v2 = m.uint16_view(3);
    assert_eq!(v2.length(&m), (PAGE_SIZE - 3) / 2);
}

#[test]
fn out_of_range_values_are_rejected_not_truncated() {
    let mut m = Memory::new(1, None).unwrap();
    let u8v = m.uint8_view(0);
    u8v.set(&mut m, 0, 0x55).unwrap();
    for (v, bad) in [
        (m.uint8_view(0), 0x100),
        (m.uint8_view(0), -1),
        (m.int8_view(0), 0x80),
        (m.int8_view(0), -0x81),
        (m.uint16_view(0), 0x1_0000),
        (m.int16_view(0), 0x8000),
        (m.int16_view(0), -0x8001),
        (m.uint32_view(0), 0x1_0000_0000),
        (m.uint32_view(0), -1),
        (m.int32_view(0), 0x8000_0000),
        (m.int32_view(0), -0x8000_0001),
    ] {
        assert_eq!(v.set(&mut m, 0, bad).unwrap_err(), MemoryError::ValueOutOfRange);
    }
    // The rejected writes left the memory untouched.
    assert_eq!(u8v.get(&m, 0).unwrap(), 0x55);
}

#[test]
fn general_factory_matches_named_factories() {
    let m = Memory::new(1, None).unwrap();
    let v = MemoryView::new(ElementWidth::Two, true, 8);
    assert_eq!(v, m.int16_view(8));
    assert_eq!(v.byte_offset, 8);
    assert_eq!(v.width, ElementWidth::Two);
    assert!(v.signed);
}

#[test]
fn error_kinds_have_distinct_messages() {
    let msgs = [
        MemoryError::GrowFailed.message(),
        MemoryError::OutOfBounds.message(),
        MemoryError::ValueOutOfRange.message(),
    ];
    assert_ne!(msgs[0], msgs[1]);
    assert_ne!(msgs[0], msgs[2]);
    assert_ne!(msgs[1], msgs[2]);
    assert_eq!(msgs[0], "failed to grow the memory");
}

#[test]
fn method_missing_returns_the_placeholder() {
    let exports = ExportedFunctions::new();
    assert_eq!(exports.method_missing(String::from("add_one")), 42);
}
