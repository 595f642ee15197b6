use samplem_bridge::event::{decode_line, event_name, log_line, LogLine, Source};
use samplem_bridge::pump::{pump_stream, Pump};
use samplem_bridge::session::resolve_exit;

fn texts(events: &[LogLine]) -> Vec<&str> {
    events.iter().map(|e| e.text.as_str()).collect()
}

#[test]
fn event_kind_is_stable() {
    assert_eq!(event_name(), "samplem-log");
}

#[test]
fn scanning_line_then_exit_zero() {
    let events = pump_stream(Source::Output, b"Scanning 120 files\n");
    assert_eq!(events.len(), 1);
    assert_eq!(events[0].text, "Scanning 120 files");
    assert_eq!(events[0].source, Source::Output);
    assert_eq!(resolve_exit(Some(0)), 0);
}

#[test]
fn lines_before_a_signal_are_still_delivered() {
    let mut pump = Pump::new(Source::Error);
    let first = pump.feed(b"step 1\nstep 2\nhalf a li");
    assert_eq!(texts(&first), vec!["step 1", "step 2"]);
    let last = pump.finish();
    assert_eq!(
        last,
        Some(LogLine { source: Source::Error, text: "half a li".to_string() })
    );
    assert_eq!(resolve_exit(None), -1);
}

#[test]
fn undecodable_line_is_dropped_and_the_rest_kept() {
    let events = pump_stream(Source::Output, b"ok\n\xff\xfe\nnext\n\xc3\n");
    assert_eq!(texts(&events), vec!["ok", "next"]);
}

#[test]
fn undecodable_open_line_is_dropped() {
    let mut pump = Pump::new(Source::Output);
    assert!(pump.feed(b"\xe2\x82").is_empty());
    assert_eq!(pump.finish(), None);
    assert_eq!(pump.finish(), None);
}

#[test]
fn multibyte_text_is_decoded() {
    let events = pump_stream(Source::Output, b"caf\xc3\xa9 \xe2\x82\xac5\r\n\xf0\x9f\x8e\xb5");
    assert_eq!(texts(&events), vec!["caf\u{e9} \u{20ac}5", "\u{1f3b5}"]);
    assert_eq!(events[0].text.chars().count(), 7);
    assert_eq!(events[1].text.chars().count(), 1);
}

#[test]
fn character_split_over_chunks_is_decoded() {
    let mut pump = Pump::new(Source::Output);
    assert!(pump.feed(b"h\xc3").is_empty());
    let events = pump.feed(b"\xa9\nx");
    assert_eq!(texts(&events), vec!["h\u{e9}"]);
    assert_eq!(pump.finish().map(|l| l.text), Some("x".to_string()));
}

#[test]
fn every_cut_of_a_channel_delivers_the_same_events() {
    let stream: &[u8] = b"a\r\n\xffbad\n\nna\xc3\xafve\nend";
    let whole = pump_stream(Source::Error, stream);
    assert_eq!(texts(&whole), vec!["a", "", "na\u{ef}ve", "end"]);
    for cut in 0..=stream.len() {
        let mut pump = Pump::new(Source::Error);
        let mut events = pump.feed(&stream[..cut]);
        events.extend(pump.feed(&stream[cut..]));
        events.extend(pump.finish());
        assert_eq!(events, whole);
    }
}

#[test]
fn each_pump_keeps_its_own_tag_and_bytes() {
    let mut out = Pump::new(Source::Output);
    let mut err = Pump::new(Source::Error);
    assert_eq!(out.tag(), Source::Output);
    assert_eq!(err.tag(), Source::Error);
    assert!(out.feed(b"from out").is_empty());
    assert!(err.feed(b"from err").is_empty());
    let e = err.feed(b"\n");
    let o = out.feed(b"\n");
    assert_eq!(o, vec![LogLine { source: Source::Output, text: "from out".to_string() }]);
    assert_eq!(e, vec![LogLine { source: Source::Error, text: "from err".to_string() }]);
}

#[test]
fn decode_line_tells_text_from_other_bytes() {
    assert_eq!(
        decode_line(Source::Output, b"plain".to_vec()),
        Some(LogLine { source: Source::Output, text: "plain".to_string() })
    );
    assert_eq!(
        decode_line(Source::Error, Vec::new()),
        Some(LogLine { source: Source::Error, text: String::new() })
    );
    assert_eq!(decode_line(Source::Output, vec![0x80]), None);
    assert_eq!(decode_line(Source::Output, vec![0xed, 0xa0, 0x80]), None);
    assert_eq!(decode_line(Source::Output, vec![0xc0, 0xaf]), None);
}

#[test]
fn log_line_wraps_decoded_text() {
    assert_eq!(log_line(Source::Output, None), None);
    assert_eq!(
        log_line(Source::Error, Some("t".to_string())),
        Some(LogLine { source: Source::Error, text: "t".to_string() })
    );
}

#[test]
fn a_read_with_bytes_keeps_the_pump_reading() {
    let mut pump = Pump::new(Source::Output);
    let (events, again) = pump.on_read(Some(b"one\ntw"));
    assert_eq!(texts(&events), vec!["one"]);
    assert!(again);
    let (events, again) = pump.on_read(Some(b"o"));
    assert!(events.is_empty());
    assert!(again);
}

#[test]
fn a_read_without_bytes_ends_the_pump_with_the_open_line() {
    let mut pump = Pump::new(Source::Error);
    let (_, again) = pump.on_read(Some(b"one\ntwo\r"));
    assert!(again);
    let (events, again) = pump.on_read(Some(b""));
    assert_eq!(events, vec![LogLine { source: Source::Error, text: "two\r".to_string() }]);
    assert!(!again);
    let (events, again) = pump.on_read(Some(b""));
    assert!(events.is_empty());
    assert!(!again);
}

#[test]
fn a_failed_read_ends_the_pump_without_an_event() {
    let mut pump = Pump::new(Source::Output);
    let (events, again) = pump.on_read(Some(b"done\nhalf"));
    assert_eq!(texts(&events), vec!["done"]);
    assert!(again);
    let (events, again) = pump.on_read(None);
    assert!(events.is_empty());
    assert!(!again);
}

#[test]
fn a_pump_that_was_never_fed_delivers_nothing() {
    let mut pump = Pump::new(Source::Output);
    assert_eq!(pump.on_read(Some(b"")), (Vec::new(), false));
    assert!(pump_stream(Source::Output, b"").is_empty());
}
