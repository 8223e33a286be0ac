use vstd::prelude::*;
use vstd::string::*;

use crate::bytes::{append_bytes, copy_range, decimal, push_decimal};

verus! {

/// `ATE0\r\n`: turn off the modem's local echo.
pub open spec fn echo_off_spec() -> Seq<u8> {
    "ATE0\r\n".spec_bytes()
}

/// `AT+CIPSTART="TCP","192.168.0.<host>",1883\r\n`: open a TCP socket to the
/// broker at the given last address component.
pub open spec fn open_socket_spec(host: Seq<u8>) -> Seq<u8> {
    "AT+CIPSTART=\"TCP\",\"192.168.0.".spec_bytes() + host + "\",1883\r\n".spec_bytes()
}

/// `AT+CIPSEND=<len>\r\n`: prime the modem to take exactly `len` raw bytes.
pub open spec fn send_length_spec(len: nat) -> Seq<u8> {
    "AT+CIPSEND=".spec_bytes() + decimal(len) + "\r\n".spec_bytes()
}

/// `AT+CIPCLOSE\r\n`: close the modem's socket.
pub open spec fn close_socket_spec() -> Seq<u8> {
    "AT+CIPCLOSE\r\n".spec_bytes()
}

/// The two raw bytes `0xE0 0x00` that close the session.
pub open spec fn disconnect_spec() -> Seq<u8> {
    seq![0xE0u8, 0x00u8]
}

pub fn echo_off() -> (r: Vec<u8>)
    ensures
        r@ == echo_off_spec(),
{
    let b = "ATE0\r\n".as_bytes();
    copy_range(b, 0, b.len())
}

pub fn open_socket(host: &[u8]) -> (r: Vec<u8>)
    ensures
        r@ == open_socket_spec(host@),
{
    let head = "AT+CIPSTART=\"TCP\",\"192.168.0.".as_bytes();
    let tail = "\",1883\r\n".as_bytes();
    let mut r = copy_range(head, 0, head.len());
    append_bytes(&mut r, host);
    append_bytes(&mut r, tail);
    r
}

pub fn send_length(len: usize) -> (r: Vec<u8>)
    ensures
        r@ == send_length_spec(len as nat),
{
    let head = "AT+CIPSEND=".as_bytes();
    let tail = "\r\n".as_bytes();
    let mut r = copy_range(head, 0, head.len());
    push_decimal(&mut r, len);
    append_bytes(&mut r, tail);
    r
}

pub fn close_socket() -> (r: Vec<u8>)
    ensures
        r@ == close_socket_spec(),
{
    let b = "AT+CIPCLOSE\r\n".as_bytes();
    copy_range(b, 0, b.len())
}

pub fn disconnect() -> (r: Vec<u8>)
    ensures
        r@ == disconnect_spec(),
{
    let r: Vec<u8> = vec![0xE0, 0x00];
    assert(r@ =~= disconnect_spec());
    r
}

} // verus!
