//! Wire codec for the controller's channel-voice dialect.
//!
//! Inbound: raw 3-byte channel-voice messages become semantic events.
//! Outbound: semantic commands become the raw messages to send, in order.

use vstd::prelude::*;

use crate::midi::{MidiCommand, MidiEvent};

verus! {

/// Status byte for a Note-On message on channel 1.
pub const NOTE_ON_STATUS: u8 = 0x90;

/// Status byte for a Control-Change message on channel 1.
pub const CONTROL_CHANGE_STATUS: u8 = 0xB0;

/// What the inbound translator produces for a raw message: an event for a
/// well-formed Note-On or Control-Change with a non-zero payload, nothing
/// for everything else (short messages, other statuses, zero payloads).
pub open spec fn spec_decode(msg: Seq<u8>) -> Option<MidiEvent> {
    if msg.len() < 3 {
        None
    } else if msg[0] & 0xF0 == NOTE_ON_STATUS {
        if msg[2] > 0 {
            Some(MidiEvent::NoteOn { note: msg[1], velocity: msg[2] })
        } else {
            None
        }
    } else if msg[0] & 0xF0 == CONTROL_CHANGE_STATUS {
        if msg[2] > 0 {
            Some(MidiEvent::ControlChange { controller: msg[1], value: msg[2] })
        } else {
            None
        }
    } else {
        None
    }
}

/// Decode one raw message received on the input port. Malformed or
/// irrelevant messages yield no event, never an error.
pub fn decode_message(msg: &[u8]) -> (r: Option<MidiEvent>)
    ensures
        r == spec_decode(msg@),
{
    if msg.len() < 3 {
        return None;
    }
    let status = msg[0] & 0xF0;
    if status == NOTE_ON_STATUS {
        if msg[2] > 0 {
            Some(MidiEvent::NoteOn { note: msg[1], velocity: msg[2] })
        } else {
            None
        }
    } else if status == CONTROL_CHANGE_STATUS {
        if msg[2] > 0 {
            Some(MidiEvent::ControlChange { controller: msg[1], value: msg[2] })
        } else {
            None
        }
    } else {
        None
    }
}

/// A 3-byte message with status nibble `0x9` decodes to `NoteOn` exactly
/// when its third byte is non-zero; a zero third byte is suppressed.
pub proof fn lemma_decode_note_on(msg: Seq<u8>)
    requires
        msg.len() == 3,
        msg[0] >> 4 == 0x9,
    ensures
        msg[2] > 0 ==> spec_decode(msg) == Some(
            MidiEvent::NoteOn { note: msg[1], velocity: msg[2] },
        ),
        msg[2] == 0 ==> spec_decode(msg) is None,
{
    let b = msg[0];
    assert(b & 0xF0 == 0x90) by (bit_vector)
        requires
            b >> 4 == 0x9,
    ;
}

/// A 3-byte message with status nibble `0xB` decodes to `ControlChange`
/// exactly when its third byte is non-zero.
pub proof fn lemma_decode_control_change(msg: Seq<u8>)
    requires
        msg.len() == 3,
        msg[0] >> 4 == 0xB,
    ensures
        msg[2] > 0 ==> spec_decode(msg) == Some(
            MidiEvent::ControlChange { controller: msg[1], value: msg[2] },
        ),
        msg[2] == 0 ==> spec_decode(msg) is None,
{
    let b = msg[0];
    assert(b & 0xF0 == 0xB0 && !(b & 0xF0 == 0x90)) by (bit_vector)
        requires
            b >> 4 == 0xB,
    ;
}

/// A message shorter than 3 bytes, or with any status nibble other than
/// `0x9` or `0xB`, produces no event.
pub proof fn lemma_decode_drops_others(msg: Seq<u8>)
    requires
        msg.len() < 3 || (msg[0] >> 4 != 0x9 && msg[0] >> 4 != 0xB),
    ensures
        spec_decode(msg) is None,
{
    if msg.len() >= 3 {
        let b = msg[0];
        assert(!(b & 0xF0 == 0x90) && !(b & 0xF0 == 0xB0)) by (bit_vector)
            requires
                b >> 4 != 0x9 && b >> 4 != 0xB,
        ;
    }
}

/// On any valid MIDI feed (data bytes at most 127) every decoded event
/// carries a payload in `1..=127`: zero payloads are suppressed.
pub proof fn lemma_decoded_payload_in_range(msg: Seq<u8>)
    requires
        msg.len() >= 3 ==> msg[2] <= 127,
    ensures
        match spec_decode(msg) {
            Some(MidiEvent::NoteOn { note, velocity }) => 1 <= velocity <= 127,
            Some(MidiEvent::ControlChange { controller, value }) => 1 <= value <= 127,
            _ => true,
        },
{
}

/// The clear-all burst: for every index 0..127, in ascending order, a
/// Note-Off then a Control-Change-Off for that index.
pub open spec fn clear_all_messages() -> Seq<Seq<u8>> {
    Seq::new(
        254,
        |k: int|
            if k % 2 == 0 {
                seq![NOTE_ON_STATUS, (k / 2) as u8, 0u8]
            } else {
                seq![CONTROL_CHANGE_STATUS, (k / 2) as u8, 0u8]
            },
    )
}

/// What the outbound dispatcher sends for one command, in order.
pub open spec fn spec_encode(cmd: MidiCommand) -> Seq<Seq<u8>> {
    match cmd {
        MidiCommand::SetPadColor { note, color } => seq![seq![NOTE_ON_STATUS, note, color]],
        MidiCommand::SetButtonColor { cc, color } => seq![
            seq![CONTROL_CHANGE_STATUS, cc, color],
        ],
        MidiCommand::ClearAll => clear_all_messages(),
    }
}

fn message3(a: u8, b: u8, c: u8) -> (m: Vec<u8>)
    ensures
        m@ == seq![a, b, c],
{
    let mut m: Vec<u8> = Vec::new();
    m.push(a);
    m.push(b);
    m.push(c);
    proof {
        assert(m@ =~= seq![a, b, c]);
    }
    m
}

/// Encode one command into the raw messages to send on the output port,
/// in the order they must be sent.
pub fn encode_command(cmd: &MidiCommand) -> (r: Vec<Vec<u8>>)
    ensures
        r.deep_view() == spec_encode(*cmd),
{
    match cmd {
        MidiCommand::SetPadColor { note, color } => {
            let mut r: Vec<Vec<u8>> = Vec::new();
            r.push(message3(NOTE_ON_STATUS, *note, *color));
            proof {
                assert(r.deep_view() =~~= spec_encode(*cmd));
            }
            r
        },
        MidiCommand::SetButtonColor { cc, color } => {
            let mut r: Vec<Vec<u8>> = Vec::new();
            r.push(message3(CONTROL_CHANGE_STATUS, *cc, *color));
            proof {
                assert(r.deep_view() =~~= spec_encode(*cmd));
            }
            r
        },
        MidiCommand::ClearAll => {
            let mut r: Vec<Vec<u8>> = Vec::new();
            let mut i: u8 = 0;
            while i < 127
                invariant
                    i <= 127,
                    r@.len() == 2 * i,
                    forall|k: int|
                        0 <= k < 2 * i ==> r.deep_view()[k] == clear_all_messages()[k],
                decreases 127 - i,
            {
                r.push(message3(NOTE_ON_STATUS, i, 0));
                r.push(message3(CONTROL_CHANGE_STATUS, i, 0));
                proof {
                    let k0 = 2 * (i as int);
                    assert(k0 % 2 == 0 && k0 / 2 == i as int);
                    assert((k0 + 1) % 2 == 1 && (k0 + 1) / 2 == i as int);
                    assert(r.deep_view()[k0] == clear_all_messages()[k0]);
                    assert(r.deep_view()[k0 + 1] == clear_all_messages()[k0 + 1]);
                }
                i = i + 1;
            }
            proof {
                assert(r.deep_view() =~~= clear_all_messages());
            }
            r
        },
    }
}

/// The clear-all burst is exactly 254 messages: at each index `i` in
/// ascending order 0..127, message `2 * i` is the Note-Off for `i` and
/// message `2 * i + 1` is the Control-Change-Off for `i`.
pub proof fn lemma_clear_all_shape(i: int)
    requires
        0 <= i < 127,
    ensures
        clear_all_messages().len() == 254,
        clear_all_messages()[2 * i] == seq![NOTE_ON_STATUS, i as u8, 0u8],
        clear_all_messages()[2 * i + 1] == seq![CONTROL_CHANGE_STATUS, i as u8, 0u8],
{
    assert((2 * i) % 2 == 0 && (2 * i) / 2 == i);
    assert((2 * i + 1) % 2 == 1 && (2 * i + 1) / 2 == i);
}

} // verus!
