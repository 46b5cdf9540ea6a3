use http_server::bytes::{
    append, decimal_bytes, find_byte, is_space_byte, push_decimal, same_bytes, skip_spaces_in,
    skip_token_in, strip_nul_bytes, trim_bytes,
};
use http_server::config::{listen_address, serving_directory, ConfigError, BUFFER_SIZE};

#[test]
fn decimal_rendering() {
    assert_eq!(decimal_bytes(0), b"0");
    assert_eq!(decimal_bytes(7), b"7");
    assert_eq!(decimal_bytes(9), b"9");
    assert_eq!(decimal_bytes(10), b"10");
    assert_eq!(decimal_bytes(13), b"13");
    assert_eq!(decimal_bytes(99), b"99");
    assert_eq!(decimal_bytes(100), b"100");
    assert_eq!(decimal_bytes(1024), b"1024");
    assert_eq!(decimal_bytes(90210), b"90210");
    assert_eq!(decimal_bytes(usize::MAX), format!("{}", usize::MAX).into_bytes());
    let mut out = b"n=".to_vec();
    push_decimal(&mut out, 405);
    assert_eq!(out, b"n=405");
}

#[test]
fn whitespace_bytes() {
    for b in [b' ', b'\t', b'\n', 0x0b, 0x0c, b'\r'] {
        assert!(is_space_byte(b));
    }
    for b in [0u8, 8, 14, 31, 33, b'a', 0x85, 0xa0, 255] {
        assert!(!is_space_byte(b));
    }
}

#[test]
fn trimming() {
    assert_eq!(trim_bytes(b"  a b  "), b"a b");
    assert_eq!(trim_bytes(b"\t\r\n\x0b\x0cx\x0c\x0b\n\r\t"), b"x");
    assert_eq!(trim_bytes(b"abc"), b"abc");
    assert_eq!(trim_bytes(b""), b"");
    assert_eq!(trim_bytes(b" \t "), b"");
    assert_eq!(trim_bytes(b"\0 a \0"), b"\0 a \0");
    assert_eq!(strip_nul_bytes(b"ab\0\0"), b"ab");
    assert_eq!(strip_nul_bytes(b"\0ab"), b"\0ab");
    assert_eq!(strip_nul_bytes(b"ab \0 "), b"ab \0 ");
    assert_eq!(strip_nul_bytes(b"\0\0"), b"");
    assert_eq!(strip_nul_bytes(b""), b"");
}

#[test]
fn searching() {
    assert_eq!(find_byte(b"a:b:c", b':', 0), 1);
    assert_eq!(find_byte(b"a:b:c", b':', 1), 1);
    assert_eq!(find_byte(b"a:b:c", b':', 2), 3);
    assert_eq!(find_byte(b"a:b:c", b':', 4), 5);
    assert_eq!(find_byte(b"a:b:c", b':', 5), 5);
    assert_eq!(find_byte(b"a:b:c", b':', 99), 5);
    assert_eq!(find_byte(b"", b':', 0), 0);
    assert_eq!(skip_spaces_in(b"  ab  ", 0), 2);
    assert_eq!(skip_spaces_in(b"  ab  ", 3), 3);
    assert_eq!(skip_spaces_in(b"  ab  ", 4), 6);
    assert_eq!(skip_spaces_in(b"  ab  ", 40), 6);
    assert_eq!(skip_token_in(b"  ab  ", 0), 0);
    assert_eq!(skip_token_in(b"  ab  ", 2), 4);
    assert_eq!(skip_token_in(b"ab", 0), 2);
    assert_eq!(skip_token_in(b"ab", 7), 2);
}

#[test]
fn comparing() {
    assert!(same_bytes(b"", b""));
    assert!(same_bytes(b"GET", b"GET"));
    assert!(!same_bytes(b"GET", b"GEt"));
    assert!(!same_bytes(b"GET", b"GETS"));
    assert!(!same_bytes(b"GETS", b"GET"));
    let mut out = b"ab".to_vec();
    append(&mut out, b"cd");
    append(&mut out, b"");
    assert_eq!(out, b"abcd");
}

fn arguments(items: &[&str]) -> Vec<String> {
    items.iter().map(|item| String::from(*item)).collect()
}

#[test]
fn directory_comes_from_the_arguments() {
    assert_eq!(
        serving_directory(&arguments(&["server", "--directory", "/tmp/data"])),
        Ok(String::from("/tmp/data"))
    );
    assert_eq!(
        serving_directory(&arguments(&["server", "--directory", "relative", "extra"])),
        Ok(String::from("relative"))
    );
    assert_eq!(
        serving_directory(&arguments(&["server", "--directory", ""])),
        Ok(String::new())
    );
}

#[test]
fn arguments_are_validated() {
    assert_eq!(serving_directory(&arguments(&[])), Err(ConfigError::MissingFlag));
    assert_eq!(serving_directory(&arguments(&["server"])), Err(ConfigError::MissingFlag));
    assert_eq!(
        serving_directory(&arguments(&["server", "--directory"])),
        Err(ConfigError::MissingDirectory)
    );
    assert_eq!(
        serving_directory(&arguments(&["server", "--other"])),
        Err(ConfigError::MissingDirectory)
    );
    assert_eq!(
        serving_directory(&arguments(&["server", "--dir", "/tmp/data"])),
        Err(ConfigError::InvalidFlag)
    );
    assert_eq!(
        serving_directory(&arguments(&["server", "/tmp/data", "--directory"])),
        Err(ConfigError::InvalidFlag)
    );
    assert_eq!(ConfigError::MissingFlag.message(), "Failed to get flag");
    assert_eq!(ConfigError::MissingDirectory.message(), "Failed to get directory");
    assert_eq!(ConfigError::InvalidFlag.message(), "Invalid flag for executable");
}

#[test]
fn fixed_settings() {
    assert_eq!(BUFFER_SIZE, 1024);
    assert_eq!(listen_address(), "127.0.0.1:4221");
}
