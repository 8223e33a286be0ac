use vstd::prelude::*;
use vstd::string::*;
use vstd::utf8::*;

use crate::bytes::append_bytes;
use crate::event_loop::{Event, WifiEvent};
use crate::payload::{field, text_field};
use crate::utils::{is_space, parse_bytes, parse_spans, spans_of, token_spans};

verus! {

/// Index of the first non-space character of `s` at or after `i`, or its length.
pub open spec fn skip_space(s: Seq<char>, i: int) -> int
    decreases s.len() - i,
{
    if i < 0 || i >= s.len() {
        s.len() as int
    } else if is_space(s[i]) {
        skip_space(s, i + 1)
    } else {
        i
    }
}

/// One past the last non-space character of `s` before `j`, or 0.
pub open spec fn skip_space_back(s: Seq<char>, j: int) -> int
    decreases j,
{
    if j <= 0 || j > s.len() {
        0
    } else if is_space(s[j - 1]) {
        skip_space_back(s, j - 1)
    } else {
        j
    }
}

/// `s` without leading and trailing white space, as `str::trim` gives it.
pub open spec fn trim(s: Seq<char>) -> Seq<char> {
    let a = skip_space(s, 0);
    let b = skip_space_back(s, s.len() as int);
    if b < a {
        Seq::empty()
    } else {
        s.subrange(a, b)
    }
}

pub open spec fn starts_with(s: Seq<char>, p: Seq<char>) -> bool {
    p.len() <= s.len() && s.subrange(0, p.len() as int) == p
}

pub open spec fn or_default(f: Option<Seq<char>>, d: Seq<char>) -> Seq<char> {
    match f {
        Some(v) => v,
        None => d,
    }
}

/// What a console line asks for.
pub enum ConsoleCommand {
    /// Bytes to write to the modem as they are.
    Write(Vec<u8>),
    /// An event for the dispatcher.
    Emit(Event),
    /// The scripted exchange: connect to `addr`, then publish `message` on
    /// `topic`, then close, each step after the modem's acknowledgment.
    Full { addr: String, topic: String, message: String },
    /// A raw-byte line with a token that is no byte; input stops with it.
    Invalid(String),
}

pub enum CommandView {
    Write(Seq<u8>),
    Emit(WifiEvent, Seq<char>),
    Full(Seq<char>, Seq<char>, Seq<char>),
    Invalid(Seq<char>),
}

impl View for ConsoleCommand {
    type V = CommandView;

    open spec fn view(&self) -> CommandView {
        match self {
            ConsoleCommand::Write(b) => CommandView::Write(b@),
            ConsoleCommand::Emit(e) => CommandView::Emit(e@.kind, e@.data),
            ConsoleCommand::Full { addr, topic, message } => CommandView::Full(addr@, topic@, message@),
            ConsoleCommand::Invalid(m) => CommandView::Invalid(m@),
        }
    }
}

/// Polls beyond the first allowed for each acknowledgment of the scripted
/// exchange: the buffer is checked 1002 times, one tick apart, before the
/// step is given up.
pub const SCRIPT_WAIT_BUDGET: u64 = 1001;

/// One step of the scripted exchange: once `marker` is read from the modem,
/// `event` is sent to the dispatcher.
pub struct ScriptStep {
    pub marker: String,
    pub event: Event,
}

/// The scripted exchange for `Full { addr, topic, message }`: the event sent
/// at once, then the steps, in order.
pub fn full_script(addr: &str, topic: &str, message: &str) -> (r: (Event, Vec<ScriptStep>))
    ensures
        r.0@.kind == WifiEvent::PublishConnectRequest,
        r.0@.data == addr@,
        r.1@.len() == 3,
        r.1@[0].marker@ == "CONNECT"@,
        r.1@[0].event@.kind == WifiEvent::ConnAck,
        r.1@[0].event@.data == Seq::<char>::empty(),
        r.1@[1].marker@ == "SEND OK"@,
        r.1@[1].event@.kind == WifiEvent::Publish,
        r.1@[1].event@.data == "msg:"@ + topic@ + ":"@ + message@,
        r.1@[2].marker@ == "SEND OK"@,
        r.1@[2].event@.kind == WifiEvent::Close,
        r.1@[2].event@.data == Seq::<char>::empty(),
{
    let first = Event::new(WifiEvent::PublishConnectRequest, addr.to_string());
    let publish = "msg:".to_string().concat(topic).concat(":").concat(message);
    let steps = vec![
        ScriptStep { marker: "CONNECT".to_string(), event: Event::new(WifiEvent::ConnAck, String::new()) },
        ScriptStep { marker: "SEND OK".to_string(), event: Event::new(WifiEvent::Publish, publish) },
        ScriptStep { marker: "SEND OK".to_string(), event: Event::new(WifiEvent::Close, String::new()) },
    ];
    (first, steps)
}

/// The command of the trimmed line `t`, whose raw bytes are read in base `radix`.
pub open spec fn command_of_trimmed(t: Seq<char>, radix: nat) -> CommandView {
    if t.len() > 0 && t.last() == '~' {
        let body = t.drop_last();
        match parse_spans(body, token_spans(body), radix) {
            Ok(b) => CommandView::Write(b),
            Err(bad) => CommandView::Invalid("Invalid hex: "@ + bad),
        }
    } else if t == "configure"@ {
        CommandView::Emit(WifiEvent::Configure, Seq::empty())
    } else if starts_with(t, "start"@) {
        CommandView::Emit(WifiEvent::PublishConnectRequest, or_default(field(t, ':', 1), "243"@))
    } else if t == "reset"@ {
        CommandView::Emit(WifiEvent::Reset, t)
    } else if starts_with(t, "con"@) {
        CommandView::Emit(WifiEvent::ConnAck, t)
    } else if starts_with(t, "msg"@) {
        CommandView::Emit(WifiEvent::Publish, t.subrange(3, t.len() as int))
    } else if t == "close"@ {
        CommandView::Emit(WifiEvent::Close, t)
    } else if starts_with(t, "full"@) {
        CommandView::Full(
            or_default(field(t, ':', 1), "243"@),
            or_default(field(t, ':', 2), "/home"@),
            or_default(field(t, ':', 3), "heLLOAS"@),
        )
    } else {
        CommandView::Write(encode_utf8(t) + "\r\n".spec_bytes())
    }
}

/// Whether the command of `line` depends on the base of raw bytes: a line
/// ending in `~` with at least one token before it.
pub open spec fn reads_radix(line: Seq<char>) -> bool {
    let t = trim(line);
    t.len() > 0 && t.last() == '~' && token_spans(t.drop_last()).len() > 0
}

/// The command of a console line.
pub open spec fn command_spec(line: Seq<char>, radix: nat) -> CommandView {
    command_of_trimmed(trim(line), radix)
}

/// `s` without leading and trailing white space.
pub fn trim_text(s: &str) -> (r: &str)
    ensures
        r@ == trim(s@),
{
    let n = s.unicode_len();
    let mut a: usize = 0;
    while a < n && is_space_at(s, a)
        invariant
            n == s@.len(),
            a <= n,
            skip_space(s@, a as int) == skip_space(s@, 0),
        decreases n - a,
    {
        a = a + 1;
    }
    let mut b: usize = n;
    while b > 0 && is_space_at(s, b - 1)
        invariant
            n == s@.len(),
            b <= n,
            skip_space_back(s@, b as int) == skip_space_back(s@, n as int),
        decreases b,
    {
        b = b - 1;
    }
    if b < a {
        s.substring_char(0, 0)
    } else {
        s.substring_char(a, b)
    }
}

fn is_space_at(s: &str, i: usize) -> (r: bool)
    requires
        i < s@.len(),
    ensures
        r == is_space(s@[i as int]),
{
    let u = s.get_char(i) as u32;
    (0x09 <= u && u <= 0x0D) || u == 0x20 || u == 0x85 || u == 0xA0 || u == 0x1680 || (0x2000 <= u
        && u <= 0x200A) || u == 0x2028 || u == 0x2029 || u == 0x202F || u == 0x205F || u == 0x3000
}

/// Whether `s` begins with `p`.
pub fn has_prefix(s: &str, p: &str) -> (r: bool)
    ensures
        r == starts_with(s@, p@),
{
    let n = s.unicode_len();
    let m = p.unicode_len();
    if m > n {
        return false;
    }
    let mut i: usize = 0;
    while i < m
        invariant
            n == s@.len(),
            m == p@.len(),
            m <= n,
            i <= m,
            forall|j: int| 0 <= j < i ==> s@[j] == p@[j],
        decreases m - i,
    {
        if s.get_char(i) != p.get_char(i) {
            assert(s@.subrange(0, m as int)[i as int] != p@[i as int]);
            return false;
        }
        i = i + 1;
    }
    assert(s@.subrange(0, m as int) =~= p@);
    true
}

/// Whether `s` is exactly `p`.
pub fn is_text(s: &str, p: &str) -> (r: bool)
    ensures
        r == (s@ == p@),
{
    let same_len = s.unicode_len() == p.unicode_len();
    if same_len && has_prefix(s, p) {
        assert(s@.subrange(0, p@.len() as int) =~= s@);
        true
    } else {
        proof {
            if s@ == p@ {
                assert(s@.subrange(0, p@.len() as int) =~= p@);
            }
        }
        false
    }
}

fn field_or(t: &str, k: usize, default: &str) -> (r: String)
    ensures
        r@ == or_default(field(t@, ':', k as nat), default@),
{
    match text_field(t, k) {
        Some(v) => v,
        None => default.to_string(),
    }
}

/// Whether translating `line` reads raw bytes in the configured base.
pub fn line_reads_radix(line: &str) -> (r: bool)
    ensures
        r == reads_radix(line@),
{
    let t = trim_text(line);
    let n = t.unicode_len();
    if n > 0 && t.get_char(n - 1) == '~' {
        let body = t.substring_char(0, n - 1);
        assert(body@ == t@.drop_last());
        spans_of(body).len() > 0
    } else {
        false
    }
}

/// Reads one console line: raw bytes in base `radix` when it ends with `~`,
/// a protocol event, the scripted full exchange, or text to send as a line.
pub fn translate_line(line: &str, radix: u8) -> (r: ConsoleCommand)
    requires
        reads_radix(line@) ==> 2 <= radix <= 36,
    ensures
        r@ == command_spec(line@, radix as nat),
{
    let t = trim_text(line);
    let n = t.unicode_len();
    if n > 0 && t.get_char(n - 1) == '~' {
        let body = t.substring_char(0, n - 1);
        assert(body@ == t@.drop_last());
        match parse_bytes(body, radix) {
            Ok(b) => ConsoleCommand::Write(b),
            Err(m) => ConsoleCommand::Invalid(m),
        }
    } else if is_text(t, "configure") {
        ConsoleCommand::Emit(Event::new(WifiEvent::Configure, String::new()))
    } else if has_prefix(t, "start") {
        ConsoleCommand::Emit(Event::new(WifiEvent::PublishConnectRequest, field_or(t, 1, "243")))
    } else if is_text(t, "reset") {
        ConsoleCommand::Emit(Event::new(WifiEvent::Reset, t.to_string()))
    } else if has_prefix(t, "con") {
        ConsoleCommand::Emit(Event::new(WifiEvent::ConnAck, t.to_string()))
    } else if has_prefix(t, "msg") {
        proof {
            reveal_strlit("msg");
        }
        ConsoleCommand::Emit(Event::new(WifiEvent::Publish, t.substring_char(3, n).to_string()))
    } else if is_text(t, "close") {
        ConsoleCommand::Emit(Event::new(WifiEvent::Close, t.to_string()))
    } else if has_prefix(t, "full") {
        ConsoleCommand::Full {
            addr: field_or(t, 1, "243"),
            topic: field_or(t, 2, "/home"),
            message: field_or(t, 3, "heLLOAS"),
        }
    } else {
        let mut b: Vec<u8> = Vec::new();
        append_bytes(&mut b, t.as_bytes());
        append_bytes(&mut b, "\r\n".as_bytes());
        ConsoleCommand::Write(b)
    }
}

} // verus!
