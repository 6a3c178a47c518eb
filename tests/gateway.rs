use pwr_server::command::{build_request, Command};
use pwr_server::config::{OptsCommon, DEFAULT_COAP_URL, DEFAULT_LISTEN, DEFAULT_TIMEOUT_SECS};
use pwr_server::decimal::{decimal_text, parse_fault, parse_i64, ParseFault};
use pwr_server::reply::{
    complete_exchange, parse_reply, parse_reply_text, GatewayError, PowerStatus, ReplyFault,
};
use pwr_server::status::{
    describe, status_line, CLOCK_PATTERN, EARLIEST_DATED, LATEST_DATED, TS_NONE,
};

fn opts(debug: bool, trace: bool) -> OptsCommon {
    OptsCommon {
        debug,
        trace,
        listen: DEFAULT_LISTEN.to_string(),
        coap_url: DEFAULT_COAP_URL.to_string(),
        timeout_secs: DEFAULT_TIMEOUT_SECS,
    }
}

fn malformed(r: Result<PowerStatus, GatewayError>) -> (ReplyFault, String) {
    match r {
        Err(GatewayError::MalformedReply { fault, text }) => (fault, text),
        other => panic!("expected a malformed reply, got {:?}", other),
    }
}

#[test]
fn on_reply_reads_on_with_change() {
    let st = parse_reply_text("1:1700000000").unwrap();
    assert_eq!(st, PowerStatus { on: true, last_change: Some(1700000000) });
    assert_eq!(
        status_line(&st, 0),
        "Power ON, last change: 2023-11-14 22:13:20 +00:00"
    );
}

#[test]
fn off_reply_without_change() {
    let st = parse_reply_text("0:0").unwrap();
    assert_eq!(st, PowerStatus { on: false, last_change: None });
    assert_eq!(status_line(&st, 0), "Power OFF, last change: (none)");
    assert_eq!(status_line(&st, 7200), "Power OFF, last change: (none)");
    assert_eq!(describe(&st), "Power OFF, last change: (none)");
}

#[test]
fn unknown_commands_query_status() {
    for name in ["status", "", "ON", "reboot", "on ", "offf", "pwr_on"] {
        assert_eq!(Command::from_name(name), Command::Status);
        let req = build_request("coap://127.0.0.1/", name, 5);
        assert_eq!(req.url, "coap://127.0.0.1/pwr_get_t");
    }
}

#[test]
fn on_and_off_commands() {
    assert_eq!(Command::from_name("on"), Command::On);
    assert_eq!(Command::from_name("off"), Command::Off);
    assert_eq!(Command::On.suffix(), "pwr_on");
    assert_eq!(Command::Off.suffix(), "pwr_off");
    assert_eq!(Command::Status.suffix(), "pwr_get_t");
    let on = build_request("coap://dev.local:5683/", "on", 1700000000);
    assert_eq!(on.url, "coap://dev.local:5683/pwr_on");
    assert_eq!(on.body, "1700000000");
    let off = build_request("coap://dev.local/", "off", -42);
    assert_eq!(off.url, "coap://dev.local/pwr_off");
    assert_eq!(off.body, "-42");
}

#[test]
fn reply_without_colon_is_malformed() {
    let (fault, text) = malformed(parse_reply_text("badreply"));
    assert_eq!(fault, ReplyFault::Shape);
    assert_eq!(text, "badreply");
    let (fault, text) = malformed(parse_reply_text(""));
    assert_eq!(fault, ReplyFault::Shape);
    assert_eq!(text, "");
}

#[test]
fn reply_with_two_colons_is_malformed() {
    let (fault, text) = malformed(parse_reply_text("1:2:3"));
    assert_eq!(fault, ReplyFault::Shape);
    assert_eq!(text, "1:2:3");
}

#[test]
fn reply_with_non_numeric_epoch_is_malformed() {
    let (fault, text) = malformed(parse_reply_text("1:notanumber"));
    assert_eq!(fault, ReplyFault::Epoch);
    assert_eq!(text, "notanumber");
    let (fault, text) = malformed(parse_reply_text("0:"));
    assert_eq!(fault, ReplyFault::Epoch);
    assert_eq!(text, "");
    let (fault, _) = malformed(parse_reply_text("1:99999999999999999999"));
    assert_eq!(fault, ReplyFault::Epoch);
}

#[test]
fn flag_other_than_one_is_off() {
    assert_eq!(parse_reply_text("x:5").unwrap(), PowerStatus { on: false, last_change: Some(5) });
    assert_eq!(parse_reply_text("11:5").unwrap(), PowerStatus { on: false, last_change: Some(5) });
    assert_eq!(parse_reply_text(":-3").unwrap(), PowerStatus { on: false, last_change: Some(-3) });
    assert_eq!(parse_reply_text("1:+7").unwrap(), PowerStatus { on: true, last_change: Some(7) });
}

#[test]
fn payload_with_invalid_utf8_is_replaced() {
    let (fault, text) = malformed(parse_reply(&[b'1', b':', 0xff]));
    assert_eq!(fault, ReplyFault::Epoch);
    assert_eq!(text, "\u{fffd}");
    assert_eq!(
        parse_reply(b"1:1700000000").unwrap(),
        PowerStatus { on: true, last_change: Some(1700000000) }
    );
}

#[test]
fn transport_failure_is_transport_error() {
    for _ in 0..2 {
        match complete_exchange(Err("Custom { kind: TimedOut }".to_string())) {
            Err(GatewayError::TransportError { cause }) => {
                assert_eq!(cause, "Custom { kind: TimedOut }")
            }
            other => panic!("expected a transport error, got {:?}", other),
        }
        let later = complete_exchange(Ok(b"1:0".to_vec())).unwrap();
        assert_eq!(later, PowerStatus { on: true, last_change: None });
    }
}

#[test]
fn error_messages() {
    let e = GatewayError::TransportError { cause: "timed out".to_string() };
    assert_eq!(e.message(), "CoAP error: timed out");
    let e = malformed(parse_reply_text("badreply"));
    let e = GatewayError::MalformedReply { fault: e.0, text: e.1 };
    assert_eq!(e.message(), "CoAP: invalid response: \"badreply\"");
    let e = GatewayError::MalformedReply { fault: ReplyFault::Epoch, text: "x1".to_string() };
    assert_eq!(
        e.message(),
        "CoAP response parse error: invalid digit found in string: \"x1\""
    );
    let e = malformed(parse_reply_text("1:"));
    let e = GatewayError::MalformedReply { fault: e.0, text: e.1 };
    assert_eq!(e.message(), "CoAP response parse error: cannot parse integer from empty string: \"\"");
    let e = malformed(parse_reply_text("1:99999999999999999999"));
    let e = GatewayError::MalformedReply { fault: e.0, text: e.1 };
    assert_eq!(
        e.message(),
        "CoAP response parse error: number too large to fit in target type: \"99999999999999999999\""
    );
}

#[test]
fn rendering_is_fixed_for_a_fixed_zone() {
    let st = PowerStatus { on: true, last_change: Some(1700000000) };
    let first = status_line(&st, 3600);
    let second = status_line(&st, 3600);
    assert_eq!(first, second);
    assert_eq!(first, "Power ON, last change: 2023-11-14 23:13:20 +01:00");
    assert_eq!(
        status_line(&st, -5 * 3600 - 1800),
        "Power ON, last change: 2023-11-14 16:43:20 -05:30"
    );
}

#[test]
fn epoch_beyond_any_date_shows_none() {
    let st = PowerStatus { on: true, last_change: Some(i64::MAX) };
    assert_eq!(status_line(&st, 0), format!("Power ON, last change: {}", TS_NONE));
}

#[test]
fn local_rendering_keeps_the_line_shape() {
    let st = PowerStatus { on: false, last_change: Some(1700000000) };
    let line = describe(&st);
    assert!(line.starts_with("Power OFF, last change: 2023-11-1"));
    assert!(!line.contains(TS_NONE));
}

#[test]
fn clock_pattern_is_date_time_zone() {
    assert_eq!(CLOCK_PATTERN, "%Y-%m-%d %H:%M:%S %Z");
    let st = PowerStatus { on: true, last_change: Some(-1) };
    assert_eq!(status_line(&st, 0), "Power ON, last change: 1969-12-31 23:59:59 +00:00");
}

#[test]
fn decimal_text_and_parse() {
    assert_eq!(decimal_text(0), "0");
    assert_eq!(decimal_text(1700000000), "1700000000");
    assert_eq!(decimal_text(i64::MIN), "-9223372036854775808");
    assert_eq!(decimal_text(i64::MAX), "9223372036854775807");
    assert_eq!(parse_i64("-9223372036854775808"), Some(i64::MIN));
    assert_eq!(parse_i64("9223372036854775807"), Some(i64::MAX));
    assert_eq!(parse_i64("9223372036854775808"), None);
    assert_eq!(parse_i64("-9223372036854775809"), None);
    assert_eq!(parse_i64("007"), Some(7));
    assert_eq!(parse_i64("+"), None);
    assert_eq!(parse_i64("-"), None);
    assert_eq!(parse_i64(" 1"), None);
    assert_eq!(parse_i64("1-"), None);
}

#[test]
fn log_level_from_flags() {
    assert_eq!(opts(false, false).get_loglevel(), log::LevelFilter::Info);
    assert_eq!(opts(true, false).get_loglevel(), log::LevelFilter::Debug);
    assert_eq!(opts(false, true).get_loglevel(), log::LevelFilter::Trace);
    assert_eq!(opts(true, true).get_loglevel(), log::LevelFilter::Trace);
}

#[test]
fn finish_keeps_options() {
    let mut o = opts(true, false);
    assert!(o.finish().is_ok());
    assert!(o.debug && !o.trace);
    assert_eq!(o.listen, "127.0.0.1:8080");
    assert_eq!(o.coap_url, "coap://127.0.0.1/");
    assert_eq!(o.timeout_secs, 5);
}

#[test]
fn parse_faults_name_the_reason() {
    for (text, fault) in [
        ("", ParseFault::Empty),
        ("+", ParseFault::InvalidDigit),
        ("-", ParseFault::InvalidDigit),
        ("notanumber", ParseFault::InvalidDigit),
        ("12a", ParseFault::InvalidDigit),
        ("9223372036854775808", ParseFault::PosOverflow),
        ("-9223372036854775809", ParseFault::NegOverflow),
    ] {
        assert_eq!(parse_i64(text), None);
        assert_eq!(parse_fault(text), fault);
        assert_eq!(format!("{}", text.parse::<i64>().unwrap_err()), parse_fault(text).words());
    }
}

#[test]
fn dated_range_edges() {
    let last = PowerStatus { on: true, last_change: Some(LATEST_DATED) };
    assert_eq!(status_line(&last, 0), "Power ON, last change: +262142-12-31 23:59:59 +00:00");
    let first = PowerStatus { on: false, last_change: Some(EARLIEST_DATED) };
    assert_eq!(status_line(&first, 0), "Power OFF, last change: -262143-01-01 00:00:00 +00:00");
    let beyond = PowerStatus { on: true, last_change: Some(LATEST_DATED + 1) };
    assert_eq!(status_line(&beyond, 0), "Power ON, last change: (none)");
    assert_eq!(describe(&beyond), "Power ON, last change: (none)");
    let before = PowerStatus { on: true, last_change: Some(EARLIEST_DATED - 1) };
    assert_eq!(status_line(&before, 3600), "Power ON, last change: (none)");
    assert!(!describe(&last).contains(TS_NONE));
}
