use gmf::common::utils::format_size;
use gmf::number::{
    count_chunks, decimal_of, hex_of, parse_unsigned, signed_decimal_of, two_digits_of,
};

fn size_by_floating_point(size: u64) -> String {
    let units = ["B", "KB", "MB", "GB", "TB"];
    let mut s = size as f64;
    let mut unit = 0;
    while s >= 1024.0 && unit < units.len() - 1 {
        s /= 1024.0;
        unit += 1;
    }
    format!("{:.2} {}", s, units[unit])
}

#[test]
fn numbers_as_text() {
    for n in [0u64, 1, 9, 10, 99, 100, 12345, u64::MAX] {
        assert_eq!(decimal_of(n), format!("{n}"));
        assert_eq!(hex_of(n), format!("{n:x}"));
        assert_eq!(two_digits_of(n), format!("{n:02}"));
    }
    for n in [0i32, 1, -1, 255, -255, i32::MAX, i32::MIN] {
        assert_eq!(signed_decimal_of(n), format!("{n}"));
    }
}

#[test]
fn text_as_numbers() {
    for s in [
        "", "0", "7", "+7", "++7", "+", "-", "-1", "007", "65535", "65536", " 1", "1 ", "1a", "٣",
        "18446744073709551615", "18446744073709551616",
    ] {
        assert_eq!(parse_unsigned(s, u64::MAX), s.parse::<u64>().ok(), "{s:?}");
        assert_eq!(parse_unsigned(s, 65535), s.parse::<u16>().ok().map(u64::from), "{s:?}");
    }
}

#[test]
fn written_numbers_are_read_back() {
    for n in [0u64, 5, 10, 4096, u64::MAX] {
        assert_eq!(parse_unsigned(&decimal_of(n), u64::MAX), Some(n));
    }
}

#[test]
fn chunks_of_a_file() {
    assert_eq!(count_chunks(0, 10), 0);
    assert_eq!(count_chunks(1, 10), 1);
    assert_eq!(count_chunks(10, 10), 1);
    assert_eq!(count_chunks(11, 10), 2);
    assert_eq!(count_chunks(u64::MAX, 1), u64::MAX);
    for size in 0u64..3000 {
        for chunk in [1u64, 2, 3, 7, 1000, 1024] {
            let by_float = (size as f64 / chunk as f64).ceil() as u64;
            assert_eq!(count_chunks(size, chunk), by_float);
        }
    }
}

#[test]
fn sizes_for_people() {
    assert_eq!(format_size(0), "0.00 B");
    assert_eq!(format_size(1023), "1023.00 B");
    assert_eq!(format_size(1024), "1.00 KB");
    assert_eq!(format_size(1536), "1.50 KB");
    assert_eq!(format_size(10 * 1024 * 1024), "10.00 MB");
    assert_eq!(format_size(u64::MAX), "16777216.00 TB");
}

#[test]
fn sizes_are_those_of_floating_point() {
    for size in 0u64..70_000 {
        assert_eq!(format_size(size), size_by_floating_point(size), "{size}");
    }
    let mut size = 1u64;
    for _ in 0..63 {
        for delta in [0u64, 1, 2, 3, 5, 128, 129, 511, 512, 513] {
            for s in [size.saturating_add(delta), size.saturating_sub(delta)] {
                assert_eq!(format_size(s), size_by_floating_point(s), "{s}");
            }
        }
        size *= 2;
    }
    let mut x = 0x9e37_79b9_7f4a_7c15u64;
    for shift in 0..64u32 {
        for _ in 0..200 {
            x ^= x << 13;
            x ^= x >> 7;
            x ^= x << 17;
            let s = x >> shift;
            assert_eq!(format_size(s), size_by_floating_point(s), "{s}");
        }
    }
}
