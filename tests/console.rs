use at_commander::console::{full_script, line_reads_radix, SCRIPT_WAIT_BUDGET};
use at_commander::{parse_bytes, translate_line, Args, ConsoleCommand, WifiEvent};

fn emitted(line: &str) -> (WifiEvent, String) {
    match translate_line(line, 16) {
        ConsoleCommand::Emit(e) => (e.kind(), e.data.clone()),
        _ => panic!("no event for {line:?}"),
    }
}

#[test]
fn parse_bytes_reads_hex_tokens() {
    assert_eq!(parse_bytes("0F F0 30 40 5C", 16), Ok(vec![0x0F, 0xF0, 0x30, 0x40, 0x5C]));
    assert_eq!(parse_bytes("  ff\t+1  ", 16), Ok(vec![0xFF, 0x01]));
    assert_eq!(parse_bytes("", 16), Ok(vec![]));
    assert_eq!(parse_bytes("255 0", 10), Ok(vec![255, 0]));
    assert_eq!(parse_bytes("101", 2), Ok(vec![5]));
}

#[test]
fn parse_bytes_rejects_bad_tokens() {
    assert_eq!(parse_bytes("0F zz 10", 16), Err("Invalid hex: zz".to_string()));
    assert_eq!(parse_bytes("100", 16), Err("Invalid hex: 100".to_string()));
    assert_eq!(parse_bytes("256", 10), Err("Invalid hex: 256".to_string()));
    assert_eq!(parse_bytes("-1", 16), Err("Invalid hex: -1".to_string()));
    assert_eq!(parse_bytes("+", 16), Err("Invalid hex: +".to_string()));
    assert_eq!(parse_bytes("2", 2), Err("Invalid hex: 2".to_string()));
}

#[test]
fn console_events() {
    assert_eq!(emitted("configure"), (WifiEvent::Configure, String::new()));
    assert_eq!(emitted("  start  "), (WifiEvent::PublishConnectRequest, "243".to_string()));
    assert_eq!(emitted("start:17"), (WifiEvent::PublishConnectRequest, "17".to_string()));
    assert_eq!(emitted("reset"), (WifiEvent::Reset, "reset".to_string()));
    assert_eq!(emitted("connack"), (WifiEvent::ConnAck, "connack".to_string()));
    assert_eq!(emitted("msg:t:hi"), (WifiEvent::Publish, ":t:hi".to_string()));
    assert_eq!(emitted("close"), (WifiEvent::Close, "close".to_string()));
}

#[test]
fn console_raw_lines() {
    match translate_line("0a 0B~\n", 16) {
        ConsoleCommand::Write(b) => assert_eq!(b, vec![0x0A, 0x0B]),
        _ => panic!("raw bytes expected"),
    }
    match translate_line("AT+GMR\r\n", 16) {
        ConsoleCommand::Write(b) => assert_eq!(b, b"AT+GMR\r\n".to_vec()),
        _ => panic!("text line expected"),
    }
    match translate_line("12 xyz~", 16) {
        ConsoleCommand::Invalid(m) => assert_eq!(m, "Invalid hex: xyz"),
        _ => panic!("error expected"),
    }
}

#[test]
fn console_full_exchange() {
    match translate_line("full:12:/room:hey", 16) {
        ConsoleCommand::Full { addr, topic, message } => {
            assert_eq!((addr.as_str(), topic.as_str(), message.as_str()), ("12", "/room", "hey"));
        }
        _ => panic!("full expected"),
    }
    match translate_line("full", 16) {
        ConsoleCommand::Full { addr, topic, message } => {
            assert_eq!((addr.as_str(), topic.as_str(), message.as_str()), ("243", "/home", "heLLOAS"));
        }
        _ => panic!("full expected"),
    }
    let (first, steps) = full_script("12", "/room", "hey");
    assert_eq!(first.kind(), WifiEvent::PublishConnectRequest);
    assert_eq!(first.data, "12");
    assert_eq!(steps.len(), 3);
    assert_eq!(steps[0].marker, "CONNECT");
    assert_eq!(steps[0].event.kind(), WifiEvent::ConnAck);
    assert_eq!(steps[1].marker, "SEND OK");
    assert_eq!(steps[1].event.data, "msg:/room:hey");
    assert_eq!(steps[2].event.kind(), WifiEvent::Close);
}

#[test]
fn default_args() {
    let a = Args::default();
    assert_eq!(a.port, "/dev/ttyUSB0");
    assert_eq!(a.baud_rate, 115_200);
    assert_eq!(a.radix_input_buffer, 16);
    assert!(a.radix_is_valid());
}

#[test]
fn radix_is_read_only_for_raw_tokens() {
    assert_eq!(parse_bytes("", 0), Ok(vec![]));
    assert_eq!(parse_bytes(" \t ", 40), Ok(vec![]));
    assert!(!line_reads_radix("start:12"));
    assert!(!line_reads_radix("  ~ "));
    assert!(line_reads_radix("0F~"));
    match translate_line("  ~", 0) {
        ConsoleCommand::Write(b) => assert!(b.is_empty()),
        _ => panic!("empty raw write expected"),
    }
    match translate_line("start:12", 0) {
        ConsoleCommand::Emit(e) => assert_eq!(e.data, "12"),
        _ => panic!("event expected"),
    }
    match translate_line("AT", 99) {
        ConsoleCommand::Write(b) => assert_eq!(b, b"AT\r\n".to_vec()),
        _ => panic!("text line expected"),
    }
}

#[test]
fn scripted_wait_checks_1002_times() {
    let mut w = at_commander::AckWaiter::new("CONNECT", SCRIPT_WAIT_BUDGET);
    let mut checks: u32 = 0;
    loop {
        checks += 1;
        match w.poll("busy p...") {
            at_commander::WaitStatus::Pending => continue,
            status => {
                assert_eq!(status, at_commander::WaitStatus::TimedOut);
                break;
            }
        }
    }
    assert_eq!(checks, 1002);
    let mut locked_out = at_commander::AckWaiter::new("CONNECT", SCRIPT_WAIT_BUDGET);
    let mut misses: u32 = 0;
    loop {
        misses += 1;
        if locked_out.miss() != at_commander::WaitStatus::Pending {
            break;
        }
    }
    assert_eq!(misses, 1002);
}
