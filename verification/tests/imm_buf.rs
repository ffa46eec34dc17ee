use mario_story_dialog_decode::charsets::Button;
use mario_story_dialog_decode::decode_imm_buf;
use mario_story_dialog_decode::imm::{decode_events, Event};
use mario_story_dialog_decode::lines::{events_to_lines, Line, LineText};

/// Lays a decoder-order byte stream out in storage order: reversing each
/// four-byte group is its own inverse.
fn to_raw(stream: &[u8]) -> Vec<u8> {
    stream
        .chunks(4)
        .flat_map(|chunk| chunk.iter().rev().cloned())
        .collect()
}

#[test]
fn imm_basic_events() {
    let raw = to_raw(&[0xF8, 0x07, 0xF2, 0x0A, 0xF5, 0xF6, 0xF0, 0xFA, 0xFB, 0x0A]);
    let events = decode_events(&raw);
    assert_eq!(
        events,
        vec![
            Event::BubbleStyle(0x07),
            Event::Char('A'),
            Event::Space,
            Event::Tab,
            Event::Newline,
            Event::NextBubble,
        ]
    );
}

#[test]
fn imm_charset_tables() {
    assert_eq!(decode_events(&to_raw(&[0x01])), vec![Event::Char('\u{3042}')]);
    assert_eq!(
        decode_events(&to_raw(&[0xF4, 0x00])),
        vec![Event::Btn(Button::A)]
    );
    assert_eq!(decode_events(&to_raw(&[0xF4, 0x09])), vec![Event::UnkBtn(9)]);
    assert_eq!(
        decode_events(&to_raw(&[0xF2, 0x50])),
        vec![Event::UnkLatin(0x50)]
    );
    assert_eq!(
        decode_events(&to_raw(&[0xF3, 0x00])),
        vec![Event::Char('\u{4EBA}')]
    );
}

#[test]
fn imm_extended_commands() {
    assert_eq!(
        decode_events(&to_raw(&[0xFF, 0x04, 0x05])),
        vec![Event::ExtSetColor(5)]
    );
    assert_eq!(
        decode_events(&to_raw(&[0xFF, 0x1A])),
        vec![Event::ExtStoreColor]
    );
    assert_eq!(
        decode_events(&to_raw(&[0xFF, 0x06, 0x01, 0x02])),
        vec![Event::ExtCmd06(1, 2)]
    );
    assert_eq!(
        decode_events(&to_raw(&[0xFF, 0xFF, 0x0B, 0x10])),
        vec![Event::ExtExtVOffset(0x10)]
    );
    assert_eq!(
        decode_events(&to_raw(&[0xFF, 0xFF, 0x07])),
        vec![Event::UnkExtExtCmd(7)]
    );
    assert_eq!(
        decode_events(&to_raw(&[0xFF, 0x33])),
        vec![Event::UnkExtCmd(0x33)]
    );
}

#[test]
fn imm_text_effects() {
    assert_eq!(
        decode_events(&to_raw(&[0xFF, 0x1C, 0x00])),
        vec![Event::TextEffectShaky1]
    );
    assert_eq!(
        decode_events(&to_raw(&[0xFF, 0x1C, 0x03, 0x09])),
        vec![Event::TextEffectNoise(9)]
    );
    assert_eq!(
        decode_events(&to_raw(&[0xFF, 0x1C, 0x0F])),
        vec![Event::UnkTextEffect(0x0F)]
    );
}

#[test]
fn imm_truncated_escape_stops() {
    let raw = to_raw(&[0xF2, 0x0A, 0xFF, 0x06, 0x01]);
    assert_eq!(decode_events(&raw), vec![Event::Char('A')]);
}

#[test]
fn events_to_lines_flushes_on_newline() {
    let events = vec![Event::Char('A'), Event::Newline, Event::NextBubble];
    let out = events_to_lines(events);
    assert_eq!(
        out.lines,
        vec![
            Line::Text(LineText { text: "A".to_owned(), hoffset: 0 }),
            Line::BubbleBreak,
        ]
    );
    assert_eq!(out.start_scroll, 0);
    assert_eq!(out.bubble_style, 0);
}

#[test]
fn bubble_break_flushes_pending_text() {
    let events = vec![Event::Char('A'), Event::NextBubble, Event::Char('B')];
    let out = events_to_lines(events);
    assert_eq!(
        out.lines,
        vec![
            Line::Text(LineText { text: "A".to_owned(), hoffset: 0 }),
            Line::BubbleBreak,
            Line::Text(LineText { text: "B".to_owned(), hoffset: 0 }),
        ]
    );
}

#[test]
fn decoded_bubble_break_splits_pending_text() {
    let raw = to_raw(&[0xF2, 0x0A, 0xFA, 0x0B]);
    let out = decode_imm_buf(&raw, 0);
    assert_eq!(out.text, "A");
}

#[test]
fn first_page_is_three_lines() {
    let raw = to_raw(&[0xF2, 0x0A, 0xF0, 0x0B, 0xF0, 0x0C, 0xF0, 0x0D]);
    let out = decode_imm_buf(&raw, 0);
    assert_eq!(out.text, "A\nB\nC");
    assert_eq!(out.hoffs, 0);
}

#[test]
fn fewer_lines_join_without_a_trailing_newline() {
    let raw = to_raw(&[0xF2, 0x0A]);
    let out = decode_imm_buf(&raw, 0);
    assert_eq!(out.text, "A");
    let raw2 = to_raw(&[0xF2, 0x0A, 0xF0, 0x0B]);
    let out2 = decode_imm_buf(&raw2, 0);
    assert_eq!(out2.text, "A\nB");
}

#[test]
fn bubble_break_stops_after_a_line() {
    let raw = to_raw(&[0xF2, 0x0A, 0xF0, 0xFA, 0x0B]);
    let out = decode_imm_buf(&raw, 0);
    assert_eq!(out.text, "A");
}

#[test]
fn bubble_break_before_any_line_is_skipped() {
    let raw = to_raw(&[0xFA, 0xF2, 0x0A]);
    let out = decode_imm_buf(&raw, 0);
    assert_eq!(out.text, "A");
}

#[test]
fn scroll_skips_whole_lines() {
    let raw = to_raw(&[0xF2, 0x0A, 0xF0, 0x0B, 0xF0, 0x0C, 0xF0, 0x0D]);
    let out = decode_imm_buf(&raw, 16);
    assert_eq!(out.text, "B\nC\nD");
    let out2 = decode_imm_buf(&raw, 32);
    assert_eq!(out2.text, "C\nD");
}

#[test]
fn skipped_line_reports_its_horizontal_offset() {
    let raw = to_raw(&[0xFF, 0x1E, 0x05, 0xF2, 0x0A, 0xF0, 0x0B]);
    let out = decode_imm_buf(&raw, 16);
    assert_eq!(out.text, "B");
    assert_eq!(out.hoffs, 5);
}

#[test]
fn sign_post_style_reduces_the_scroll() {
    let plain = to_raw(&[0xF2, 0x0A, 0xF0, 0x0B]);
    let sign_post = to_raw(&[0xF8, 0x07, 0xF2, 0x0A, 0xF0, 0x0B]);
    // Sixteen units scroll one line away, but the sign-post style takes
    // twelve units back first.
    assert_eq!(decode_imm_buf(&plain, 16).text, "B");
    assert_eq!(decode_imm_buf(&sign_post, 16).text, "A\nB");
    assert_eq!(decode_imm_buf(&sign_post, 28).text, "B");
    // The reduction floors at zero.
    assert_eq!(decode_imm_buf(&sign_post, 5).text, "A\nB");
}

#[test]
fn vertical_offset_command_adds_to_the_scroll() {
    let raw = to_raw(&[0xFF, 0xFF, 0x0B, 0x10, 0xF2, 0x0A, 0xF0, 0x0B]);
    let out = decode_imm_buf(&raw, 0);
    assert_eq!(out.text, "B");
}

#[test]
fn decode_imm_buf_is_deterministic() {
    let raw = to_raw(&[0xF8, 0x03, 0xF2, 0x0A, 0xF0, 0x0B, 0xFF, 0x1C, 0x00, 0x0C]);
    let a = decode_imm_buf(&raw, 7);
    let b = decode_imm_buf(&raw, 7);
    assert_eq!(a.text, b.text);
    assert_eq!(a.hoffs, b.hoffs);
}

#[test]
fn unknown_bytes_become_inline_markers() {
    let raw = to_raw(&[0xF2, 0x50]);
    let out = decode_imm_buf(&raw, 0);
    assert_eq!(out.text, " ( UnkLatin(50)) ");
}

#[test]
fn silent_events_leave_no_text() {
    let raw = to_raw(&[0xFF, 0x04, 0x01, 0xFF, 0x1C, 0x00, 0xF2, 0x0A]);
    let out = decode_imm_buf(&raw, 0);
    assert_eq!(out.text, "A");
}
