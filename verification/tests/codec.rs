use launchpad_bridge::codec::{decode_message, encode_command};
use launchpad_bridge::init::mode_switch_message;
use launchpad_bridge::midi::{MidiCommand, MidiEvent};

#[test]
fn note_on_nonzero_velocity_decodes() {
    let r = decode_message(&[0x90, 5, 100]);
    assert_eq!(r, Some(MidiEvent::NoteOn { note: 5, velocity: 100 }));
}

#[test]
fn note_on_any_channel_decodes() {
    let r = decode_message(&[0x95, 3, 7]);
    assert_eq!(r, Some(MidiEvent::NoteOn { note: 3, velocity: 7 }));
}

#[test]
fn note_on_zero_velocity_is_suppressed() {
    assert_eq!(decode_message(&[0x90, 5, 0]), None);
    assert_eq!(decode_message(&[0x9F, 127, 0]), None);
}

#[test]
fn control_change_nonzero_value_decodes() {
    let r = decode_message(&[0xB0, 104, 1]);
    assert_eq!(r, Some(MidiEvent::ControlChange { controller: 104, value: 1 }));
}

#[test]
fn control_change_zero_value_is_suppressed() {
    assert_eq!(decode_message(&[0xB0, 104, 0]), None);
}

#[test]
fn short_messages_produce_no_event() {
    assert_eq!(decode_message(&[]), None);
    assert_eq!(decode_message(&[0x90]), None);
    assert_eq!(decode_message(&[0x90, 5]), None);
}

#[test]
fn other_statuses_produce_no_event() {
    assert_eq!(decode_message(&[0x80, 5, 100]), None); // note off
    assert_eq!(decode_message(&[0xA0, 5, 100]), None); // poly aftertouch
    assert_eq!(decode_message(&[0xC0, 5, 100]), None); // program change
    assert_eq!(decode_message(&[0xF0, 5, 100]), None); // system
}

#[test]
fn set_pad_color_encodes_one_note_on() {
    let msgs = encode_command(&MidiCommand::SetPadColor { note: 10, color: 21 });
    assert_eq!(msgs.len(), 1);
    assert_eq!(msgs[0], vec![0x90, 10, 21]);
}

#[test]
fn set_button_color_encodes_one_control_change() {
    let msgs = encode_command(&MidiCommand::SetButtonColor { cc: 104, color: 5 });
    assert_eq!(msgs.len(), 1);
    assert_eq!(msgs[0], vec![0xB0, 104, 5]);
}

#[test]
fn clear_all_is_254_messages_ascending_note_before_cc() {
    let msgs = encode_command(&MidiCommand::ClearAll);
    assert_eq!(msgs.len(), 254);
    for i in 0..127u8 {
        assert_eq!(msgs[2 * i as usize], vec![0x90, i, 0]);
        assert_eq!(msgs[2 * i as usize + 1], vec![0xB0, i, 0]);
    }
}

#[test]
fn mode_switch_message_is_the_vendor_sequence() {
    let m = mode_switch_message();
    assert_eq!(m, vec![0xF0, 0x00, 0x20, 0x29, 0x02, 0x0D, 0x0E, 0x01, 0xF7]);
}
