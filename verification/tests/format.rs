use num_format::{Locale, ToFormattedString};
use syncbox::numbers::{decimal_string, parse_unsigned_exec};
use syncbox::utils::format::{format_count, format_file_size};

#[test]
fn file_sizes() {
    assert_eq!(format_file_size(0), "0 B");
    assert_eq!(format_file_size(1023), "1023 B");
    assert_eq!(format_file_size(1024), "1.00 KB");
    assert_eq!(format_file_size(1536), "1.50 KB");
    assert_eq!(format_file_size(1048576), "1.00 MB");
    assert_eq!(format_file_size(5 * 1024 * 1024 * 1024), "5.00 GB");
    assert_eq!(format_file_size(3 * 1024u64.pow(4) / 2), "1.50 TB");
    assert_eq!(format_file_size(u64::MAX), "16777216.00 TB");
}

#[test]
fn file_sizes_round_half_to_even() {
    // 1029 / 1024 = 1.0048828125 -> 1.00
    assert_eq!(format_file_size(1029), "1.00 KB");
    // 1035 / 1024 = 1.0107421875 -> 1.01
    assert_eq!(format_file_size(1035), "1.01 KB");
}

#[test]
fn counts_group_like_num_format() {
    for n in [0u64, 7, 999, 1000, 1001, 12345, 999_999, 1_000_000, 1_234_567_890, u64::MAX] {
        assert_eq!(format_count(n), n.to_formatted_string(&Locale::en));
    }
}

#[test]
fn decimals() {
    assert_eq!(decimal_string(0), "0");
    assert_eq!(decimal_string(42), "42");
    assert_eq!(decimal_string(u64::MAX), u64::MAX.to_string());
}

#[test]
fn printed_numbers_parse_back() {
    for n in [0u64, 7, 10, 65535, 1_000_000, u64::MAX] {
        let chars: Vec<char> = decimal_string(n).chars().collect();
        assert_eq!(parse_unsigned_exec(&chars, u64::MAX), Some(n));
    }
    let chars: Vec<char> = decimal_string(65536).chars().collect();
    assert_eq!(parse_unsigned_exec(&chars, 65535), None);
}
