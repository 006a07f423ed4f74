use log_hub::bridge::{ends_inbound, ends_outbound, ClientFrame};
use log_hub::broadcaster::Received;
use log_hub::config::Config;
use log_hub::messages::{BroadcastLog, WsMessage};
use log_hub::text::{append_decimal, split_on_spaces, trim_end};

#[test]
fn trim_end_strips_line_terminators_and_spaces() {
    assert_eq!(trim_end("hello\n"), "hello");
    assert_eq!(trim_end("hello\r\n"), "hello");
    assert_eq!(trim_end("  x \t \n"), "  x");
    assert_eq!(trim_end(""), "");
    assert_eq!(trim_end(" \n"), "");
    assert_eq!(trim_end("a\u{3000}\u{a0}"), "a");
    assert_eq!(trim_end("plain"), "plain");
}

#[test]
fn frames_carry_their_tag() {
    let out = BroadcastLog::from_line("ready\n", false).frame();
    assert_eq!(out.text(), "[OUT]: ready");
    let err = BroadcastLog::new("boom".to_string(), true).frame();
    assert_eq!(err.0, "[ERR]: boom");
    let empty = BroadcastLog::from_line("\n", false).frame();
    assert_eq!(empty.0, "[OUT]: ");
    let m = WsMessage("x".to_string());
    assert_eq!(m.text(), "x");
}

#[test]
fn split_matches_str_split() {
    for s in ["a b", "", "a  b", " lead", "trail ", "one", "-jar server.jar nogui"] {
        let want: Vec<String> = s.split(' ').map(|p| p.to_string()).collect();
        assert_eq!(split_on_spaces(s), want);
    }
}

#[test]
fn config_splits_args() {
    let c = Config::new(
        "front".to_string(),
        "/srv".to_string(),
        "java".to_string(),
        "-Xmx1G -jar server.jar",
    );
    assert_eq!(c.front_build_dir, "front");
    assert_eq!(c.server_path, "/srv");
    assert_eq!(c.command, "java");
    assert_eq!(c.args, vec!["-Xmx1G", "-jar", "server.jar"]);
}

#[test]
fn decimal_rendering() {
    let mut s = String::from("n=");
    append_decimal(&mut s, 0);
    assert_eq!(s, "n=0");
    let mut t = String::new();
    append_decimal(&mut t, 1000907);
    assert_eq!(t, "1000907");
}

#[test]
fn inbound_ends_on_close_or_error_only() {
    assert!(ends_inbound(&ClientFrame::Close));
    assert!(ends_inbound(&ClientFrame::ReadError));
    for f in [
        ClientFrame::Text,
        ClientFrame::Binary,
        ClientFrame::Continuation,
        ClientFrame::Ping,
        ClientFrame::Pong,
        ClientFrame::Nop,
    ] {
        assert!(!ends_inbound(&f));
    }
}

#[test]
fn outbound_ends_once_gone() {
    assert!(ends_outbound(&Received::Gone));
    assert!(!ends_outbound(&Received::Empty));
    assert!(!ends_outbound(&Received::Frame(WsMessage("x".to_string()))));
}
