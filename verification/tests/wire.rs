use adb_tui::error::AdbError;
use adb_tui::frame::{encode_length, encode_request, parse_hex, parse_length_field, HexError};

fn chars(s: &str) -> Vec<char> {
    s.chars().collect()
}

#[test]
fn request_is_framed_with_hex_length() {
    assert_eq!(encode_request("host:version"), b"000chost:version".to_vec());
    assert_eq!(encode_request("host:devices-l"), b"000ehost:devices-l".to_vec());
    assert_eq!(encode_request(""), b"0000".to_vec());
}

#[test]
fn length_prefix_pads_to_four_digits_and_grows_beyond() {
    assert_eq!(encode_length(0x1a), b"001a".to_vec());
    assert_eq!(encode_length(0xbeef), b"beef".to_vec());
    assert_eq!(encode_length(70000), b"11170".to_vec());
    assert_eq!(encode_length(0), b"0000".to_vec());
}

#[test]
fn hex_reads_like_from_str_radix() {
    assert_eq!(parse_hex(&chars("1a")), Ok(26));
    assert_eq!(parse_hex(&chars("FF")), Ok(255));
    assert_eq!(parse_hex(&chars("+ff")), Ok(255));
    assert_eq!(parse_hex(&chars("")), Err(HexError::Empty));
    assert_eq!(parse_hex(&chars("+")), Err(HexError::InvalidDigit));
    assert_eq!(parse_hex(&chars("-")), Err(HexError::InvalidDigit));
    assert_eq!(parse_hex(&chars("-1")), Err(HexError::InvalidDigit));
    assert_eq!(parse_hex(&chars("1g")), Err(HexError::InvalidDigit));
    assert_eq!(parse_hex(&chars("fffffffffffffffff")), Err(HexError::Overflow));
    for s in ["1a", "+ff", "", "+", "-1", "zz", "0", "ffffffffffffffff", "10000000000000000"] {
        let expected = match usize::from_str_radix(s, 16) {
            Ok(v) => Ok(v),
            Err(e) => Err(match e.kind() {
                std::num::IntErrorKind::Empty => HexError::Empty,
                std::num::IntErrorKind::PosOverflow => HexError::Overflow,
                _ => HexError::InvalidDigit,
            }),
        };
        assert_eq!(parse_hex(&chars(s)), expected, "input {:?}", s);
    }
}

#[test]
fn length_field_is_trimmed_before_reading() {
    assert_eq!(parse_length_field(b" 1a "), Ok(26));
    assert_eq!(parse_length_field(b"001a"), Ok(26));
    assert_eq!(parse_length_field(b"00zz"), Err(HexError::InvalidDigit));
    assert_eq!(parse_length_field(b"    "), Err(HexError::Empty));
}

#[test]
fn length_prefix_reads_back() {
    for n in [0usize, 1, 15, 16, 255, 4096, 0xfffe, 0xffff] {
        let prefix = encode_length(n);
        assert_eq!(prefix.len(), 4);
        assert_eq!(parse_length_field(&prefix), Ok(n));
    }
}

#[test]
fn error_messages_read_as_the_client_reports_them() {
    assert_eq!(AdbError::Connect("refused".to_string()).message(), "Failed to connect to ADB server at 127.0.0.1:5037: refused");
    assert_eq!(AdbError::Io("broken pipe".to_string()).message(), "broken pipe");
    assert_eq!(AdbError::InvalidLength(HexError::InvalidDigit).message(), "Invalid length in ADB response: invalid digit found in string");
    assert_eq!(AdbError::InvalidLength(HexError::Empty).message(), "Invalid length in ADB response: cannot parse integer from empty string");
    assert_eq!(AdbError::InvalidLength(HexError::Overflow).message(), "Invalid length in ADB response: number too large to fit in target type");
    assert_eq!(AdbError::CommandFailed("device offline".to_string()).message(), "ADB command failed: device offline");
    assert_eq!(AdbError::SelectDevice("FAIL".to_string()).message(), "Failed to select device: FAIL");
    assert_eq!(AdbError::ShellRefused("FAIL".to_string()).message(), "Failed to execute shell command: FAIL");
    assert_eq!(AdbError::ReadOutput("bad".to_string()).message(), "Error reading command output: bad");
    assert_eq!(AdbError::ServerNotRunning("refused".to_string()).message(), "ADB server not running: Failed to connect to ADB server at 127.0.0.1:5037: refused");
    assert_eq!(AdbError::StartServer.message(), "Failed to start ADB server");
    assert_eq!(AdbError::PullFailed.message(), "Failed to pull file from device");
    assert_eq!(AdbError::PushFailed.message(), "Failed to push file to device");
}

#[test]
fn hex_errors_match_std_messages() {
    let e = usize::from_str_radix("", 16).unwrap_err();
    assert_eq!(AdbError::InvalidLength(HexError::Empty).message(), format!("Invalid length in ADB response: {}", e));
    let e = usize::from_str_radix("zz", 16).unwrap_err();
    assert_eq!(AdbError::InvalidLength(HexError::InvalidDigit).message(), format!("Invalid length in ADB response: {}", e));
}
