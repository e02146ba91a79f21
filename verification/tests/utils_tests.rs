use fairshare::utils::{
    format_memory_size, match_cgroup_pattern, parse_memory_size, u64_to_string,
    validate_slice_name, MemParseError, SliceNameError,
};

#[test]
fn test_parse_memory_size_bytes() {
    assert_eq!(parse_memory_size("1024").unwrap(), 1024);
    assert_eq!(parse_memory_size("1024B").unwrap(), 1024);
}

#[test]
fn test_parse_memory_size_kilobytes() {
    assert_eq!(parse_memory_size("1K").unwrap(), 1024);
    assert_eq!(parse_memory_size("1KB").unwrap(), 1024);
    assert_eq!(parse_memory_size("2K").unwrap(), 2048);
}

#[test]
fn test_parse_memory_size_megabytes() {
    assert_eq!(parse_memory_size("1M").unwrap(), 1024 * 1024);
    assert_eq!(parse_memory_size("1MB").unwrap(), 1024 * 1024);
    assert_eq!(parse_memory_size("512M").unwrap(), 512 * 1024 * 1024);
}

#[test]
fn test_parse_memory_size_gigabytes() {
    assert_eq!(parse_memory_size("1G").unwrap(), 1024 * 1024 * 1024);
    assert_eq!(parse_memory_size("1GB").unwrap(), 1024 * 1024 * 1024);
    assert_eq!(parse_memory_size("8G").unwrap(), 8 * 1024 * 1024 * 1024);
    assert_eq!(parse_memory_size("32GB").unwrap(), 32 * 1024 * 1024 * 1024);
}

#[test]
fn test_parse_memory_size_terabytes() {
    assert_eq!(parse_memory_size("1T").unwrap(), 1024u64 * 1024 * 1024 * 1024);
    assert_eq!(parse_memory_size("1TB").unwrap(), 1024u64 * 1024 * 1024 * 1024);
}

#[test]
fn test_parse_memory_size_decimals() {
    assert_eq!(
        parse_memory_size("1.5G").unwrap(),
        (1.5 * 1024.0 * 1024.0 * 1024.0) as u64
    );
    assert_eq!(parse_memory_size("0.5M").unwrap(), (0.5 * 1024.0 * 1024.0) as u64);
}

#[test]
fn test_parse_memory_size_whitespace() {
    assert_eq!(parse_memory_size("  8G  ").unwrap(), 8 * 1024 * 1024 * 1024);
    assert_eq!(parse_memory_size("8 G").unwrap(), 8 * 1024 * 1024 * 1024);
}

#[test]
fn test_parse_memory_size_case_insensitive() {
    assert_eq!(parse_memory_size("8g").unwrap(), 8 * 1024 * 1024 * 1024);
    assert_eq!(parse_memory_size("8gb").unwrap(), 8 * 1024 * 1024 * 1024);
    assert_eq!(parse_memory_size("512m").unwrap(), 512 * 1024 * 1024);
}

#[test]
fn test_parse_memory_size_invalid_format() {
    assert!(parse_memory_size("").is_err());
    assert!(parse_memory_size("invalid").is_err());
    assert!(parse_memory_size("G8").is_err());
}

#[test]
fn test_parse_memory_size_invalid_unit() {
    assert!(parse_memory_size("8X").is_err());
    assert!(parse_memory_size("8PB").is_err());
}

#[test]
fn test_parse_memory_size_zero() {
    assert!(parse_memory_size("0G").is_err());
    assert!(parse_memory_size("0").is_err());
}

#[test]
fn test_parse_memory_size_error_variants() {
    assert_eq!(parse_memory_size("invalid").unwrap_err(), MemParseError::InvalidFormat);
    assert_eq!(parse_memory_size("1.2.3G").unwrap_err(), MemParseError::InvalidFormat);
    assert_eq!(parse_memory_size(".").unwrap_err(), MemParseError::InvalidFormat);
    assert_eq!(parse_memory_size("8PB").unwrap_err(), MemParseError::UnknownUnit);
    assert_eq!(
        parse_memory_size("99999999999999999999G").unwrap_err(),
        MemParseError::TooLarge
    );
    assert_eq!(parse_memory_size("0G").unwrap_err(), MemParseError::Zero);
    assert_eq!(parse_memory_size("0.0000001B").unwrap_err(), MemParseError::Zero);
}

#[test]
fn test_parse_memory_size_fraction_edges() {
    assert_eq!(parse_memory_size(".5M").unwrap(), 512 * 1024);
    assert_eq!(parse_memory_size("5.").unwrap(), 5);
    assert_eq!(parse_memory_size("1.25K").unwrap(), 1280);
}

#[test]
fn test_format_memory_size_bytes() {
    assert_eq!(format_memory_size(512), "512B");
    assert_eq!(format_memory_size(1023), "1023B");
}

#[test]
fn test_format_memory_size_kilobytes() {
    assert_eq!(format_memory_size(1024), "1.00K");
    assert_eq!(format_memory_size(2048), "2.00K");
}

#[test]
fn test_format_memory_size_megabytes() {
    assert_eq!(format_memory_size(1024 * 1024), "1.00M");
    assert_eq!(format_memory_size(512 * 1024 * 1024), "512.00M");
}

#[test]
fn test_format_memory_size_gigabytes() {
    assert_eq!(format_memory_size(1024 * 1024 * 1024), "1.00G");
    assert_eq!(format_memory_size(8 * 1024 * 1024 * 1024), "8.00G");
}

#[test]
fn test_format_memory_size_terabytes() {
    assert_eq!(format_memory_size(1024u64 * 1024 * 1024 * 1024), "1.00T");
}

#[test]
fn test_format_memory_size_rounding_carry() {
    // 2047 bytes is 1.999K, which rounds up across the integer boundary.
    assert_eq!(format_memory_size(2047), "2.00K");
    // 1536 bytes is exactly 1.50K.
    assert_eq!(format_memory_size(1536), "1.50K");
}

#[test]
fn test_u64_rendering() {
    assert_eq!(u64_to_string(0), "0");
    assert_eq!(u64_to_string(7), "7");
    assert_eq!(u64_to_string(1000), "1000");
    assert_eq!(u64_to_string(u64::MAX), "18446744073709551615");
}

#[test]
fn test_slice_name_validation() {
    assert!(validate_slice_name("user-1000.slice").is_ok());
    assert!(validate_slice_name("fairshare-1001.slice").is_ok());
    assert_eq!(validate_slice_name("foo").unwrap_err(), SliceNameError::NotSlice);
    assert_eq!(validate_slice_name(".slice").unwrap_err(), SliceNameError::EmptyStem);
    assert_eq!(
        validate_slice_name("bad name.slice").unwrap_err(),
        SliceNameError::BadChar
    );
}

#[test]
fn test_cgroup_pattern_matching() {
    assert!(match_cgroup_pattern("*", "/user.slice/user-1000.slice"));
    assert!(match_cgroup_pattern(
        "/user.slice/user-*.slice",
        "/user.slice/user-1000.slice"
    ));
    assert!(match_cgroup_pattern("user-100?.slice", "user-1000.slice"));
    assert!(!match_cgroup_pattern("user-100?.slice", "user-10000.slice"));
    assert!(!match_cgroup_pattern("/system.slice/*", "/user.slice/user-1000.slice"));
    assert!(match_cgroup_pattern("", ""));
    assert!(!match_cgroup_pattern("", "x"));
}

#[test]
fn test_config_paths() {
    assert_eq!(fairshare::utils::get_config_dir(), "/etc/fairshared");
    assert_eq!(fairshare::utils::get_socket_path(), "/var/run/fairshared.sock");
}
