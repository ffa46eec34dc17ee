use std::ops::ControlFlow;

use mario_story_dialog_decode::charsets::Button;
use mario_story_dialog_decode::extcmd::{ExtCmd, UnkCmd};
use mario_story_dialog_decode::render::write_event_string;
use mario_story_dialog_decode::{to_string, to_string_nth_bubble, translate, Event, Style};

/// Lays a decoder-order byte stream out in storage order: reversing each
/// four-byte group is its own inverse.
fn to_raw(stream: &[u8]) -> Vec<u8> {
    stream
        .chunks(4)
        .flat_map(|chunk| chunk.iter().rev().cloned())
        .collect()
}

#[test]
fn latin_text_renders() {
    let raw = to_raw(&[0xF4, 0x0A, 0x0B, 0xFD]);
    assert_eq!(to_string(&raw).unwrap(), "AB");
}

#[test]
fn kana_is_the_initial_table() {
    let raw = to_raw(&[0x01, 0x02]);
    assert_eq!(to_string(&raw).unwrap(), "\u{3042}\u{3044}");
}

#[test]
fn translate_emits_basic_events() {
    let raw = to_raw(&[0xF4, 0x0A, 0xF7, 0xF0, 0xF1, 0xF2, 0x05, 0xD9, 0xFB, 0xFD]);
    let events = translate(&raw).unwrap();
    assert_eq!(
        events,
        vec![
            Event::Dialog("A".to_owned()),
            Event::Space,
            Event::Linebreak,
            Event::Bell,
            Event::Delay(5),
            Event::Sparkly,
            Event::NextBubble,
            Event::End,
        ]
    );
}

#[test]
fn style_change_event() {
    let raw = to_raw(&[0xFC, 0x07]);
    let events = translate(&raw).unwrap();
    assert_eq!(events, vec![Event::StyleChange(Style::SignPost)]);
}

#[test]
fn style_from_byte_covers_the_known_range() {
    assert_eq!(Style::from_byte(0x00), Some(Style::Invalid));
    assert_eq!(Style::from_byte(0x07), Some(Style::SignPost));
    assert_eq!(Style::from_byte(0x0F), Some(Style::NarrationB));
    assert_eq!(Style::from_byte(0x10), None);
    assert_eq!(Style::from_byte(0xFF), None);
}

#[test]
fn unrecognized_style_byte_is_an_error() {
    let raw = to_raw(&[0xF4, 0x0A, 0xFC, 0x10, 0x0B]);
    let err = to_string(&raw).unwrap_err();
    assert_eq!(err, "unrecognized style byte 0x10");
    assert!(translate(&raw).is_err());
}

#[test]
fn truncated_extcmd_params_stop_silently() {
    // The command with id 0x18 declares seven parameters; only two arrive.
    let raw = to_raw(&[0xF4, 0x0A, 0xFF, 0x18, 0x01, 0x02]);
    let events = translate(&raw).unwrap();
    assert_eq!(events, vec![Event::Dialog("A".to_owned())]);
    assert_eq!(to_string(&raw).unwrap(), "A");
}

#[test]
fn truncation_right_after_the_id_byte() {
    let raw = to_raw(&[0xF4, 0x0A, 0xFF, 0x18]);
    let events = translate(&raw).unwrap();
    assert_eq!(events, vec![Event::Dialog("A".to_owned())]);
}

#[test]
fn zero_param_extcmd() {
    let raw = to_raw(&[0xFF, 0x08]);
    let events = translate(&raw).unwrap();
    assert_eq!(events, vec![Event::ExtCmd(ExtCmd::Unk8 {})]);
    assert_eq!(to_string(&raw).unwrap(), "");
}

#[test]
fn extcmd_with_params() {
    let raw = to_raw(&[0xFF, 0x0D, 0x03, 0x04]);
    let events = translate(&raw).unwrap();
    assert_eq!(events, vec![Event::ExtCmd(ExtCmd::FontSize { x: 3, y: 4 })]);
}

#[test]
fn unknown_extcmd_renders_a_placeholder() {
    let raw = to_raw(&[0xFF, 0x42]);
    let events = translate(&raw).unwrap();
    assert_eq!(events, vec![Event::ExtCmd(ExtCmd::Unknown(UnkCmd(0x42)))]);
    assert_eq!(to_string(&raw).unwrap(), " ( Unknown(0x42) ) ");
}

#[test]
fn button_table_emits_button_refs() {
    let raw = to_raw(&[0xF6, 0x00, 0x09]);
    let events = translate(&raw).unwrap();
    assert_eq!(
        events,
        vec![
            Event::ButtonRef { button: Some(Button::A), rawcode: 0x00 },
            Event::ButtonRef { button: None, rawcode: 0x09 },
        ]
    );
    assert_eq!(to_string(&raw).unwrap(), "[A]{buttonref:09}");
}

#[test]
fn unmapped_byte_becomes_an_inline_marker() {
    let raw = to_raw(&[0xF4, 0x50, 0xFD]);
    assert_eq!(to_string(&raw).unwrap(), "{latin:50}");
}

#[test]
fn end_marker_stops_rendering() {
    let raw = to_raw(&[0xF4, 0x0A, 0xFD, 0x0B]);
    let events = translate(&raw).unwrap();
    assert_eq!(
        events,
        vec![
            Event::Dialog("A".to_owned()),
            Event::End,
            Event::Dialog("B".to_owned()),
        ]
    );
    assert_eq!(to_string(&raw).unwrap(), "A");
}

#[test]
fn next_bubble_renders_a_marker() {
    let raw = to_raw(&[0xF4, 0x0A, 0xFB, 0x0B]);
    assert_eq!(to_string(&raw).unwrap(), "A\u{2B50}\nB");
}

#[test]
fn nth_bubble_selects_one_bubble() {
    let raw = to_raw(&[0xF4, 0x0A, 0xFB, 0x0B, 0xFB, 0x0C]);
    assert_eq!(to_string_nth_bubble(&raw, 0).unwrap(), "A");
    assert_eq!(to_string_nth_bubble(&raw, 1).unwrap(), "B");
    assert_eq!(to_string_nth_bubble(&raw, 2).unwrap(), "C");
    assert_eq!(to_string_nth_bubble(&raw, 3).unwrap(), "");
}

#[test]
fn nth_bubble_without_breaks() {
    let raw = to_raw(&[0xF4, 0x0A, 0x0B]);
    assert_eq!(to_string_nth_bubble(&raw, 0).unwrap(), "AB");
    assert_eq!(to_string_nth_bubble(&raw, 1).unwrap(), "");
    assert_eq!(to_string_nth_bubble(&raw, 5).unwrap(), "");
}

#[test]
fn silent_events_render_nothing() {
    let raw = to_raw(&[0xD9, 0xF1, 0xF2, 0x30, 0xFC, 0x01]);
    assert_eq!(to_string(&raw).unwrap(), "");
}

#[test]
fn delay_consumes_the_next_byte_raw() {
    // The byte after the delay marker is taken as data, control value or not.
    let raw = to_raw(&[0xF2, 0xFD]);
    let events = translate(&raw).unwrap();
    assert_eq!(events, vec![Event::Delay(0xFD)]);
}

#[test]
fn write_event_string_reports_the_end() {
    let mut s = String::new();
    let flow = write_event_string(&Event::End, &mut s);
    assert!(matches!(flow, ControlFlow::Break(())));
    assert_eq!(s, "");
}

#[test]
fn write_event_string_formats_a_command_error() {
    let mut s = String::new();
    let flow = write_event_string(
        &Event::ExtCmdError { id: 0x18, argc: 7, args_got: 3 },
        &mut s,
    );
    assert!(matches!(flow, ControlFlow::Continue(())));
    assert_eq!(s, "[extcmd_error] id: 0x18, argc: 7, got: 3");
}

#[test]
fn write_event_string_space_is_ideographic() {
    let mut s = String::new();
    write_event_string(&Event::Space, &mut s);
    assert_eq!(s, "\u{3000}");
}
