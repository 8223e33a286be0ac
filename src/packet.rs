use vstd::prelude::*;

use crate::bytes::append_bytes;

verus! {

/// The connect handshake: CONNECT control byte, remaining length 19,
/// protocol name "MQTT", level 4, clean session, keep-alive 60 s and the
/// client id "client1".
pub open spec fn connect_frame_spec() -> Seq<u8> {
    seq![
        0x10u8, 0x13u8, 0x00u8, 0x04u8, 0x4Du8, 0x51u8, 0x54u8, 0x54u8, 0x04u8, 0x02u8,
        0x00u8, 0x3Cu8, 0x00u8, 0x07u8, 0x63u8, 0x6Cu8, 0x69u8, 0x65u8, 0x6Eu8, 0x74u8, 0x31u8,
    ]
}

/// Remaining-length byte of a publish frame: the two topic-length bytes plus
/// topic and message, saturated at 0xFF.
pub open spec fn remaining_length(topic_len: nat, message_len: nat) -> u8 {
    if topic_len + message_len + 2 > 0xFF {
        0xFFu8
    } else {
        (topic_len + message_len + 2) as u8
    }
}

/// A publish frame: control byte 0x30, the remaining-length byte, a topic
/// length whose high byte is zero and whose low byte is the topic length
/// truncated to eight bits, then the topic followed directly by the message.
pub open spec fn publish_frame_spec(topic: Seq<u8>, message: Seq<u8>) -> Seq<u8> {
    seq![0x30u8, remaining_length(topic.len(), message.len()), 0x00u8, (topic.len() % 256) as u8]
        + topic + message
}

/// Builds the fixed connect handshake frame.
pub fn connect_frame() -> (r: Vec<u8>)
    ensures
        r@ == connect_frame_spec(),
        r@.len() == 21,
{
    let r: Vec<u8> = vec![
        0x10, 0x13, 0x00, 0x04, 0x4D, 0x51, 0x54, 0x54, 0x04, 0x02,
        0x00, 0x3C, 0x00, 0x07, 0x63, 0x6C, 0x69, 0x65, 0x6E, 0x74, 0x31,
    ];
    assert(r@ =~= connect_frame_spec());
    r
}

/// Builds the publish frame carrying `message` on `topic`.
pub fn publish_frame(topic: &[u8], message: &[u8]) -> (r: Vec<u8>)
    ensures
        r@ == publish_frame_spec(topic@, message@),
{
    let t: usize = topic.len();
    let m: usize = message.len();
    let len_byte: u8 = if t > 0xFF || m > 0xFF || t + m + 2 > 0xFF {
        0xFF
    } else {
        (t + m + 2) as u8
    };
    let mut r: Vec<u8> = vec![0x30, len_byte, 0x00, (t % 256) as u8];
    append_bytes(&mut r, topic);
    append_bytes(&mut r, message);
    assert(r@ =~= publish_frame_spec(topic@, message@));
    r
}

/// A connect frame is always the same 21 bytes, and a publish frame is the
/// four header bytes followed by exactly the topic and message bytes.
pub proof fn lemma_frame_shapes(topic: Seq<u8>, message: Seq<u8>)
    ensures
        connect_frame_spec().len() == 21,
        publish_frame_spec(topic, message).len() == 4 + topic.len() + message.len(),
        publish_frame_spec(topic, message)[0] == 0x30u8,
        publish_frame_spec(topic, message)[2] == 0x00u8,
        publish_frame_spec(topic, message).subrange(4, 4 + topic.len() as int) == topic,
        publish_frame_spec(topic, message).subrange(
            4 + topic.len() as int,
            (4 + topic.len() + message.len()) as int,
        ) == message,
        topic.len() + message.len() + 2 <= 0xFF ==> publish_frame_spec(topic, message)[1] as nat
            == topic.len() + message.len() + 2,
        topic.len() < 256 ==> publish_frame_spec(topic, message)[3] as nat == topic.len(),
{
    let f = publish_frame_spec(topic, message);
    assert(f.subrange(4, 4 + topic.len() as int) =~= topic);
    assert(f.subrange(4 + topic.len() as int, f.len() as int) =~= message);
}

} // verus!
