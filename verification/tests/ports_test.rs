use kanban_orchestrator::ports::{parse_u16_exec, port_from_text, proxy_port, server_port};

#[test]
fn parses_like_str_parse() {
    for s in ["0", "8080", "+80", "0065535", "65535", "65536", "", "+", "-", "-1", "12a", " 1", "99999999999"] {
        assert_eq!(parse_u16_exec(s), s.parse::<u16>().ok(), "input {s:?}");
    }
}

#[test]
fn port_text_is_trimmed_and_defaults_to_zero() {
    assert_eq!(port_from_text("  3000\n"), 3000);
    assert_eq!(port_from_text("abc"), 0);
    assert_eq!(port_from_text(""), 0);
    assert_eq!(port_from_text("70000"), 0);
}

#[test]
fn server_port_strips_ansi_codes() {
    assert_eq!(server_port(Some("\x1b[32m8080\x1b[0m")), 8080);
    assert_eq!(server_port(Some(" 4000 ")), 4000);
    assert_eq!(server_port(Some("nope")), 0);
    assert_eq!(server_port(None), 0);
}

#[test]
fn proxy_port_reads_plain_text() {
    assert_eq!(proxy_port(Some(" 5173")), 5173);
    assert_eq!(proxy_port(Some("\x1b[32m5173\x1b[0m")), 0);
    assert_eq!(proxy_port(None), 0);
}
