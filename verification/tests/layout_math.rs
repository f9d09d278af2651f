use sndlab::layout::{column_window, pow2_le, spectrum_size};

#[test]
fn largest_power_of_two() {
    assert_eq!(pow2_le(0), 0);
    assert_eq!(pow2_le(1), 1);
    assert_eq!(pow2_le(2), 2);
    assert_eq!(pow2_le(3), 2);
    assert_eq!(pow2_le(1000), 512);
    assert_eq!(pow2_le(1024), 1024);
    assert_eq!(pow2_le(usize::MAX), 1usize << (usize::BITS - 1));
}

#[test]
fn spectrum_sizes() {
    assert_eq!(spectrum_size(0), 0);
    assert_eq!(spectrum_size(1), 0);
    assert_eq!(spectrum_size(2), 2);
    assert_eq!(spectrum_size(48_000), 16_384);
    assert_eq!(spectrum_size(10_000), 8_192);
}

#[test]
fn column_windows_cover_the_buffer() {
    assert_eq!(column_window(0, 10, 4), (0, 2));
    assert_eq!(column_window(3, 10, 4), (7, 10));
    // Fewer items than columns: each column shows at least one item.
    assert_eq!(column_window(0, 2, 5), (0, 1));
    assert_eq!(column_window(4, 2, 5), (1, 2));
    assert_eq!(column_window(1, 0, 5), (0, 0));
}
