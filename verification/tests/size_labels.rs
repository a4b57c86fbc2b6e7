use cargo_vanish::size::size_label;
use cargo_vanish::to_memory_string;

#[test]
fn unknown_size_has_the_sentinel_label() {
    assert_eq!(to_memory_string(None), "\x1B[0;33mN/A --\x1B[0m");
}

#[test]
fn bytes_below_one_kilobyte_are_shown_raw() {
    assert_eq!(to_memory_string(Some(999)), "999  B");
    assert_eq!(to_memory_string(Some(0)), "  0  B");
    assert_eq!(to_memory_string(Some(42)), " 42  B");
}

#[test]
fn kilobytes_round_down() {
    assert_eq!(to_memory_string(Some(1_500)), "\x1B[0;32m  1 KB\x1B[0m");
    assert_eq!(to_memory_string(Some(1_000)), "\x1B[0;32m  1 KB\x1B[0m");
    assert_eq!(to_memory_string(Some(999_999)), "\x1B[0;32m999 KB\x1B[0m");
}

#[test]
fn megabytes_round_down() {
    assert_eq!(to_memory_string(Some(2_500_000)), "\x1B[0;34m  2 MB\x1B[0m");
    assert_eq!(to_memory_string(Some(1_000_000)), "\x1B[0;34m  1 MB\x1B[0m");
}

#[test]
fn gigabytes_round_down() {
    assert_eq!(to_memory_string(Some(3_000_000_000)), "\x1B[0;31m  3 GB\x1B[0m");
    assert_eq!(
        to_memory_string(Some(u64::MAX)),
        "\x1B[0;31m18446744073 GB\x1B[0m"
    );
}

#[test]
fn labels_without_colour_are_bare() {
    assert_eq!(size_label(None, 3, false), "N/A --");
    assert_eq!(size_label(Some(1_500_000_000), 0, false), "1 GB");
    assert_eq!(size_label(Some(12_000), 6, false), "    12 KB");
    assert_eq!(
        size_label(Some(u128::MAX), 3, false),
        "340282366920938463463374607431 GB"
    );
}
