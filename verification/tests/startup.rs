use tspchat::logger::write_line;
use tspchat::startup::{mix_session_id, parse_port};

#[test]
fn parse_port_accepts_numbers() {
    assert_eq!(parse_port("8080"), Some(8080));
    assert_eq!(parse_port("0"), Some(0));
    assert_eq!(parse_port("65535"), Some(65535));
    assert_eq!(parse_port("+42"), Some(42));
    assert_eq!(parse_port("0008"), Some(8));
}

#[test]
fn parse_port_rejects_what_u16_rejects() {
    for text in ["", "+", "-1", "-0", "65536", "99999999999", "80a", " 80", "8 0", "٣"] {
        assert_eq!(parse_port(text), None, "{text:?}");
        assert!(text.parse::<u16>().is_err());
    }
    for text in ["1", "+1", "00065535", "1234"] {
        assert_eq!(parse_port(text), text.parse::<u16>().ok());
    }
}

#[test]
fn session_id_mixes_clock_and_pid() {
    assert_eq!(mix_session_id(0b1100, 0b1010), 0b0110);
    assert_eq!(mix_session_id(u64::MAX, 0), u64::MAX);
}

#[test]
fn log_line_format() {
    let mut out = String::new();
    write_line(&mut out, "INFO", "started");
    write_line(&mut out, "ERROR", "помилка");
    assert_eq!(out, "[INFO] started\n[ERROR] помилка\n");
}
