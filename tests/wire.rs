use at_commander::commands::{close_socket, disconnect, echo_off, open_socket, send_length};
use at_commander::payload::{payload_field, text_field};
use at_commander::{Event, WifiEvent};

#[test]
fn at_commands_are_spelled_out() {
    assert_eq!(echo_off(), b"ATE0\r\n".to_vec());
    assert_eq!(close_socket(), b"AT+CIPCLOSE\r\n".to_vec());
    assert_eq!(disconnect(), vec![0xE0, 0x00]);
    assert_eq!(open_socket(b"7"), b"AT+CIPSTART=\"TCP\",\"192.168.0.7\",1883\r\n".to_vec());
}

#[test]
fn send_length_writes_decimal() {
    assert_eq!(send_length(0), b"AT+CIPSEND=0\r\n".to_vec());
    assert_eq!(send_length(9), b"AT+CIPSEND=9\r\n".to_vec());
    assert_eq!(send_length(10), b"AT+CIPSEND=10\r\n".to_vec());
    assert_eq!(send_length(1234), b"AT+CIPSEND=1234\r\n".to_vec());
    assert_eq!(
        send_length(usize::MAX),
        format!("AT+CIPSEND={}\r\n", usize::MAX).into_bytes()
    );
}

#[test]
fn payload_fields_split_at_colons() {
    assert_eq!(payload_field(b"x:mytopic:hi", 0), Some(b"x".to_vec()));
    assert_eq!(payload_field(b"x:mytopic:hi", 1), Some(b"mytopic".to_vec()));
    assert_eq!(payload_field(b"x:mytopic:hi", 2), Some(b"hi".to_vec()));
    assert_eq!(payload_field(b"x:mytopic:hi", 3), None);
    assert_eq!(payload_field(b"", 0), Some(vec![]));
    assert_eq!(payload_field(b"", 1), None);
    assert_eq!(payload_field(b"a::", 2), Some(vec![]));
    assert_eq!(text_field("full:1:é:x", 2), Some("é".to_string()));
    assert_eq!(text_field("start", 1), None);
}

#[test]
fn event_describes_itself() {
    let e = Event::new(WifiEvent::Publish, "msg:t:hi".to_string());
    assert_eq!(e.describe(), "Publish: msg:t:hi");
    assert_eq!(WifiEvent::PublishConnectRequest.name(), "PublishConnectRequest");
    assert_eq!(e.payload(), "msg:t:hi");
}
