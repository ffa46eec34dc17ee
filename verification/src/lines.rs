//! Line assembler and paginator for the on-screen buffer.
//!
//! The on-screen events are folded into logical lines: characters, buttons
//! and unknown-byte markers grow an in-progress line, a newline flushes it
//! (carrying the horizontal offset last set by the matching extended
//! command), a bubble break flushes any pending text and then stands as a
//! line of its own, and the text-effect and color events contribute nothing
//! visible.  Pagination then adds the caller's scroll to the stream's own
//! vertical offset, applies the sign-post reduction, skips whole lines and
//! shows up to three joined by newlines.

use vstd::prelude::*;

use crate::charsets::LookupTable;
use crate::cursor::chunk_rev;
use crate::imm;
use crate::imm::imm_decode;
use crate::render::{button_chars, button_str};
use crate::text::{hex_pair, push_char, push_hex};

verus! {

/// A flushed line of text and the horizontal offset it is drawn at.
#[derive(Debug, PartialEq, Eq)]
pub struct LineText {
    pub text: String,
    pub hoffset: u8,
}

/// One logical line of the on-screen buffer.
#[derive(Debug, PartialEq, Eq)]
pub enum Line {
    Text(LineText),
    BubbleBreak,
}

/// The mathematical model of a `Line`.
pub enum LineM {
    Text { text: Seq<char>, hoffset: u8 },
    BubbleBreak,
}

impl View for Line {
    type V = LineM;

    open spec fn view(&self) -> LineM {
        match self {
            Line::Text(lt) => LineM::Text { text: lt.text@, hoffset: lt.hoffset },
            Line::BubbleBreak => LineM::BubbleBreak,
        }
    }
}

/// The models of a sequence of lines.
pub open spec fn line_views(s: Seq<Line>) -> Seq<LineM> {
    s.map_values(|l: Line| l@)
}

pub broadcast proof fn lemma_line_views_push(s: Seq<Line>, l: Line)
    ensures
        #[trigger] line_views(s.push(l)) == line_views(s).push(l@),
{
    assert(line_views(s.push(l)) =~= line_views(s).push(l@));
}

/// The inline marker an unknown-byte event contributes to the line buffer.
pub open spec fn imm_unk_chars(e: imm::Event) -> Seq<char> {
    match e {
        imm::Event::UnkKana(b) => " ( UnkKana("@ + hex_pair(b) + ")) "@,
        imm::Event::UnkKanji(b) => " ( UnkKanji("@ + hex_pair(b) + ")) "@,
        imm::Event::UnkLatin(b) => " ( UnkLatin("@ + hex_pair(b) + ")) "@,
        imm::Event::UnkBtn(b) => " ( UnkBtn("@ + hex_pair(b) + ")) "@,
        imm::Event::UnkExtCmd(b) => " ( UnkExtCmd("@ + hex_pair(b) + ")) "@,
        imm::Event::UnkTextEffect(b) => " ( UnkTextEffect("@ + hex_pair(b) + ")) "@,
        imm::Event::UnkExtExtCmd(b) => " ( UnkExtExtCmd("@ + hex_pair(b) + ")) "@,
        imm::Event::ExtCmdUnk14(b) => " ( ExtCmdUnk14("@ + hex_pair(b) + ")) "@,
        imm::Event::ExtCmdUnk15(b) => " ( ExtCmdUnk15("@ + hex_pair(b) + ")) "@,
        _ => Seq::empty(),
    }
}

/// The line-assembly state: flushed lines, the in-progress line, and the
/// three scalars the events can set.
pub struct LState {
    pub lines: Seq<LineM>,
    pub linebuf: Seq<char>,
    pub hoffset: u8,
    pub start_scroll: u32,
    pub bubble_style: u8,
}

pub open spec fn l_init() -> LState {
    LState {
        lines: Seq::empty(),
        linebuf: Seq::empty(),
        hoffset: 0,
        start_scroll: 0,
        bubble_style: 0,
    }
}

/// How one on-screen event changes the line-assembly state.
pub open spec fn l_step(st: LState, e: imm::Event) -> LState {
    match e {
        imm::Event::Char(ch) => LState { linebuf: st.linebuf.push(ch), ..st },
        imm::Event::Newline => LState {
            lines: st.lines.push(LineM::Text { text: st.linebuf, hoffset: st.hoffset }),
            linebuf: Seq::empty(),
            ..st
        },
        imm::Event::Space => LState { linebuf: st.linebuf.push('\u{3000}'), ..st },
        imm::Event::Tab => LState { linebuf: st.linebuf.push('\u{3000}'), ..st },
        imm::Event::NextBubble => LState {
            lines: if st.linebuf.len() > 0 {
                st.lines.push(LineM::Text { text: st.linebuf, hoffset: st.hoffset }).push(
                    LineM::BubbleBreak,
                )
            } else {
                st.lines.push(LineM::BubbleBreak)
            },
            linebuf: Seq::empty(),
            ..st
        },
        imm::Event::BubbleStyle(style) => LState { bubble_style: style, ..st },
        imm::Event::Btn(btn) => LState { linebuf: st.linebuf + button_chars(btn), ..st },
        imm::Event::ExtTextHoffset(off) => LState { hoffset: off, ..st },
        imm::Event::ExtExtVOffset(off) => LState { start_scroll: off as u32, ..st },
        imm::Event::UnkKana(_) => LState { linebuf: st.linebuf + imm_unk_chars(e), ..st },
        imm::Event::UnkKanji(_) => LState { linebuf: st.linebuf + imm_unk_chars(e), ..st },
        imm::Event::UnkLatin(_) => LState { linebuf: st.linebuf + imm_unk_chars(e), ..st },
        imm::Event::UnkBtn(_) => LState { linebuf: st.linebuf + imm_unk_chars(e), ..st },
        imm::Event::UnkExtCmd(_) => LState { linebuf: st.linebuf + imm_unk_chars(e), ..st },
        imm::Event::UnkTextEffect(_) => LState { linebuf: st.linebuf + imm_unk_chars(e), ..st },
        imm::Event::UnkExtExtCmd(_) => LState { linebuf: st.linebuf + imm_unk_chars(e), ..st },
        imm::Event::ExtCmdUnk14(_) => LState { linebuf: st.linebuf + imm_unk_chars(e), ..st },
        imm::Event::ExtCmdUnk15(_) => LState { linebuf: st.linebuf + imm_unk_chars(e), ..st },
        _ => st,
    }
}

/// The line-assembly state after a whole event sequence.
pub open spec fn l_run(st: LState, evs: Seq<imm::Event>) -> LState
    decreases evs.len(),
{
    if evs.len() == 0 {
        st
    } else {
        l_run(l_step(st, evs[0]), evs.skip(1))
    }
}

/// What line assembly yields over a whole event sequence.
pub struct LinesOut {
    pub lines: Seq<LineM>,
    pub start_scroll: u32,
    pub bubble_style: u8,
}

/// The assembled lines of an event sequence: the fold of `l_step`, with a
/// non-empty leftover line buffer flushed as a final text line.
pub open spec fn lines_spec(evs: Seq<imm::Event>) -> LinesOut {
    let st = l_run(l_init(), evs);
    LinesOut {
        lines: if st.linebuf.len() > 0 {
            st.lines.push(LineM::Text { text: st.linebuf, hoffset: st.hoffset })
        } else {
            st.lines
        },
        start_scroll: st.start_scroll,
        bubble_style: st.bubble_style,
    }
}

/// The assembled lines of an on-screen event stream, with the stream's own
/// vertical offset and bubble style.
pub struct EventsToLinesOut {
    pub lines: Vec<Line>,
    pub start_scroll: u32,
    pub bubble_style: u8,
}

/// Applies one event to the live line-assembly state, mirroring `l_step`.
fn lines_step(
    e: &imm::Event,
    lines: &mut Vec<Line>,
    linebuf: &mut String,
    hoffset: &mut u8,
    start_scroll: &mut u32,
    bubble_style: &mut u8,
)
    ensures
        ({
            let st0 = LState {
                lines: line_views(old(lines)@),
                linebuf: old(linebuf)@,
                hoffset: *old(hoffset),
                start_scroll: *old(start_scroll),
                bubble_style: *old(bubble_style),
            };
            let st1 = LState {
                lines: line_views(final(lines)@),
                linebuf: final(linebuf)@,
                hoffset: *final(hoffset),
                start_scroll: *final(start_scroll),
                bubble_style: *final(bubble_style),
            };
            st1 == l_step(st0, *e)
        }),
{
    broadcast use lemma_line_views_push;

    match e {
        imm::Event::Char(ch) => {
            push_char(linebuf, *ch);
        },
        imm::Event::Newline => {
            let mut taken = String::new();
            core::mem::swap(linebuf, &mut taken);
            lines.push(Line::Text(LineText { text: taken, hoffset: *hoffset }));
        },
        imm::Event::Space => {
            push_char(linebuf, '\u{3000}');
        },
        imm::Event::Tab => {
            push_char(linebuf, '\u{3000}');
        },
        imm::Event::NextBubble => {
            if !linebuf.as_str().is_empty() {
                let mut taken = String::new();
                core::mem::swap(linebuf, &mut taken);
                lines.push(Line::Text(LineText { text: taken, hoffset: *hoffset }));
            } else {
                proof {
                    assert(linebuf@ =~= Seq::<char>::empty());
                }
            }
            lines.push(Line::BubbleBreak);
        },
        imm::Event::BubbleStyle(style) => {
            *bubble_style = *style;
        },
        imm::Event::Btn(btn) => {
            linebuf.append(button_str(btn));
        },
        imm::Event::ExtTextHoffset(off) => {
            *hoffset = *off;
        },
        imm::Event::ExtExtVOffset(off) => {
            *start_scroll = *off as u32;
        },
        imm::Event::UnkKana(b) => {
            linebuf.append(" ( UnkKana(");
            push_hex(linebuf, *b);
            linebuf.append(")) ");
            proof {
                assert(linebuf@ =~= old(linebuf)@ + imm_unk_chars(*e));
            }
        },
        imm::Event::UnkKanji(b) => {
            linebuf.append(" ( UnkKanji(");
            push_hex(linebuf, *b);
            linebuf.append(")) ");
            proof {
                assert(linebuf@ =~= old(linebuf)@ + imm_unk_chars(*e));
            }
        },
        imm::Event::UnkLatin(b) => {
            linebuf.append(" ( UnkLatin(");
            push_hex(linebuf, *b);
            linebuf.append(")) ");
            proof {
                assert(linebuf@ =~= old(linebuf)@ + imm_unk_chars(*e));
            }
        },
        imm::Event::UnkBtn(b) => {
            linebuf.append(" ( UnkBtn(");
            push_hex(linebuf, *b);
            linebuf.append(")) ");
            proof {
                assert(linebuf@ =~= old(linebuf)@ + imm_unk_chars(*e));
            }
        },
        imm::Event::UnkExtCmd(b) => {
            linebuf.append(" ( UnkExtCmd(");
            push_hex(linebuf, *b);
            linebuf.append(")) ");
            proof {
                assert(linebuf@ =~= old(linebuf)@ + imm_unk_chars(*e));
            }
        },
        imm::Event::UnkTextEffect(b) => {
            linebuf.append(" ( UnkTextEffect(");
            push_hex(linebuf, *b);
            linebuf.append(")) ");
            proof {
                assert(linebuf@ =~= old(linebuf)@ + imm_unk_chars(*e));
            }
        },
        imm::Event::UnkExtExtCmd(b) => {
            linebuf.append(" ( UnkExtExtCmd(");
            push_hex(linebuf, *b);
            linebuf.append(")) ");
            proof {
                assert(linebuf@ =~= old(linebuf)@ + imm_unk_chars(*e));
            }
        },
        imm::Event::ExtCmdUnk14(b) => {
            linebuf.append(" ( ExtCmdUnk14(");
            push_hex(linebuf, *b);
            linebuf.append(")) ");
            proof {
                assert(linebuf@ =~= old(linebuf)@ + imm_unk_chars(*e));
            }
        },
        imm::Event::ExtCmdUnk15(b) => {
            linebuf.append(" ( ExtCmdUnk15(");
            push_hex(linebuf, *b);
            linebuf.append(")) ");
            proof {
                assert(linebuf@ =~= old(linebuf)@ + imm_unk_chars(*e));
            }
        },
        _ => {},
    }
}

/// Folds a whole on-screen event sequence into logical lines and the two
/// scalars pagination needs.
pub fn events_to_lines(events: Vec<imm::Event>) -> (out: EventsToLinesOut)
    ensures
        line_views(out.lines@) == lines_spec(events@).lines,
        out.start_scroll == lines_spec(events@).start_scroll,
        out.bubble_style == lines_spec(events@).bubble_style,
{
    broadcast use lemma_line_views_push;

    let mut lines: Vec<Line> = Vec::new();
    let mut linebuf = String::new();
    let mut hoffset: u8 = 0;
    let mut start_scroll: u32 = 0;
    let mut bubble_style: u8 = 0;
    let mut i: usize = 0;
    proof {
        assert(line_views(lines@) =~= Seq::<LineM>::empty());
        assert(events@.skip(0) =~= events@);
    }
    while i < events.len()
        invariant
            i <= events.len(),
            l_run(
                LState {
                    lines: line_views(lines@),
                    linebuf: linebuf@,
                    hoffset,
                    start_scroll,
                    bubble_style,
                },
                events@.skip(i as int),
            ) == l_run(l_init(), events@),
        decreases events.len() - i,
    {
        let ghost i0 = i as int;
        proof {
            assert(events@.skip(i0)[0] == events@[i0]);
            assert(events@.skip(i0).skip(1) =~= events@.skip(i0 + 1));
        }
        lines_step(&events[i], &mut lines, &mut linebuf, &mut hoffset, &mut start_scroll,
            &mut bubble_style);
        i = i + 1;
    }
    if !linebuf.as_str().is_empty() {
        let leftover = linebuf;
        lines.push(Line::Text(LineText { text: leftover, hoffset }));
    }
    EventsToLinesOut { lines, start_scroll, bubble_style }
}

/// Skips `k` whole text lines, passing over bubble breaks, and remembers the
/// horizontal offset of the last line skipped: what pagination does before
/// any text is shown.
pub open spec fn page_skip(lines: Seq<LineM>, k: int, hoffs: u8) -> (Seq<LineM>, u8)
    decreases lines.len(),
{
    if k <= 0 {
        (lines, hoffs)
    } else if lines.len() == 0 {
        (lines, hoffs)
    } else {
        match lines[0] {
            LineM::Text { text, hoffset } => page_skip(lines.skip(1), k - 1, hoffset),
            LineM::BubbleBreak => page_skip(lines.skip(1), k, hoffs),
        }
    }
}

/// Shows up to three text lines joined by newlines (a separator only
/// between lines, none trailing), stopping early at a bubble break once at
/// least one line has been shown; a break before any line is passed over.
pub open spec fn page_take(lines: Seq<LineM>, shown: int, acc: Seq<char>) -> Seq<char>
    decreases lines.len(),
{
    if lines.len() == 0 {
        acc
    } else {
        match lines[0] {
            LineM::Text { text, hoffset } => {
                let grown = if shown > 0 {
                    acc.push('\n') + text
                } else {
                    acc + text
                };
                if shown + 1 == 3 {
                    grown
                } else {
                    page_take(lines.skip(1), shown + 1, grown)
                }
            },
            LineM::BubbleBreak => if shown > 0 {
                acc
            } else {
                page_take(lines.skip(1), shown, acc)
            },
        }
    }
}

/// The scroll pagination works with: the caller's scroll plus the stream's
/// own vertical offset, reduced by twelve units (floored at zero) under the
/// sign-post bubble style.
pub open spec fn effective_scroll(scroll: u32, out: LinesOut) -> int {
    let sc = scroll + out.start_scroll;
    if out.bubble_style == 0x07 {
        if sc - 12 >= 0 {
            sc - 12
        } else {
            0
        }
    } else {
        sc
    }
}

/// What decoding the on-screen buffer at a given scroll yields: the visible
/// text and the horizontal offset of the last line scrolled past.
pub open spec fn decode_imm_spec(input: Seq<u8>, scroll: u32) -> (Seq<char>, u8) {
    let evs = imm_decode(LookupTable::Kana, chunk_rev(input));
    let out = lines_spec(evs);
    let skipped = page_skip(out.lines, effective_scroll(scroll, out) / 16, 0);
    (page_take(skipped.0, 0, Seq::empty()), skipped.1)
}

/// The visible window of the on-screen buffer.
pub struct DecodeImmBufOut {
    pub text: String,
    pub hoffs: u8,
}

/// Decodes the on-screen buffer and pages it to the window the given scroll
/// value selects.
pub fn decode_imm_buf(data: &[u8], scroll: u32) -> (out: DecodeImmBufOut)
    ensures
        out.text@ == decode_imm_spec(data@, scroll).0,
        out.hoffs == decode_imm_spec(data@, scroll).1,
{
    let events = imm::decode_events(data);
    let ghost evs = events@;
    let assembled = events_to_lines(events);
    let ghost lines = line_views(assembled.lines@);
    let ghost out_model = lines_spec(evs);

    let mut eff: u64 = scroll as u64 + assembled.start_scroll as u64;
    if assembled.bubble_style == 0x07 {
        eff = if eff >= 12 {
            eff - 12
        } else {
            0
        };
    }
    let line_offs: u64 = eff / 16;
    proof {
        assert(eff as int == effective_scroll(scroll, out_model));
        assert(line_offs as int == effective_scroll(scroll, out_model) / 16);
    }

    let mut hoffs: u8 = 0;
    let mut i: usize = 0;
    let mut skipped: u64 = 0;
    proof {
        assert(lines.skip(0) =~= lines);
    }
    while skipped < line_offs && i < assembled.lines.len()
        invariant
            i <= assembled.lines.len(),
            skipped <= line_offs,
            lines == line_views(assembled.lines@),
            page_skip(lines, line_offs as int, 0) == page_skip(
                lines.skip(i as int),
                line_offs - skipped,
                hoffs,
            ),
        decreases assembled.lines.len() - i,
    {
        let ghost i0 = i as int;
        proof {
            assert(lines.skip(i0)[0] == lines[i0]);
            assert(lines.skip(i0).skip(1) =~= lines.skip(i0 + 1));
        }
        match &assembled.lines[i] {
            Line::Text(lt) => {
                skipped = skipped + 1;
                hoffs = lt.hoffset;
            },
            Line::BubbleBreak => {},
        }
        i = i + 1;
    }
    proof {
        assert(lines.skip(i as int).len() == 0 || line_offs - skipped <= 0);
        assert(page_skip(lines, line_offs as int, 0) == (lines.skip(i as int), hoffs));
    }

    let ghost i_base = i as int;
    let ghost rest = lines.skip(i_base);
    let mut buf = String::new();
    let mut shown: u8 = 0;
    proof {
        assert(Seq::<char>::empty() + page_take(rest, 0, Seq::empty()) =~= page_take(
            rest,
            0,
            Seq::empty(),
        ));
    }
    while i < assembled.lines.len()
        invariant_except_break
            i_base <= i <= assembled.lines.len(),
            shown < 3,
            lines == line_views(assembled.lines@),
            rest == lines.skip(i_base),
            page_take(rest, 0, Seq::empty()) == page_take(
                lines.skip(i as int),
                shown as int,
                buf@,
            ),
        ensures
            buf@ == page_take(rest, 0, Seq::empty()),
        decreases assembled.lines.len() - i,
    {
        let ghost i0 = i as int;
        proof {
            assert(lines.skip(i0)[0] == lines[i0]);
            assert(lines.skip(i0).skip(1) =~= lines.skip(i0 + 1));
        }
        match &assembled.lines[i] {
            Line::Text(lt) => {
                if shown > 0 {
                    push_char(&mut buf, '\n');
                }
                buf.append(lt.text.as_str());
                shown = shown + 1;
                if shown == 3 {
                    break ;
                }
            },
            Line::BubbleBreak => {
                if shown > 0 {
                    break ;
                }
            },
        }
        i = i + 1;
    }
    DecodeImmBufOut { text: buf, hoffs }
}

/// Decoding the on-screen buffer is a pure function of the bytes and the
/// scroll value: two results of the same input are the same output.
pub proof fn lemma_decode_imm_buf_deterministic(
    a: (Seq<char>, u8),
    b: (Seq<char>, u8),
    input: Seq<u8>,
    scroll: u32,
)
    requires
        a == decode_imm_spec(input, scroll),
        b == decode_imm_spec(input, scroll),
    ensures
        a == b,
{
}

/// With a zero scroll, a stream whose own vertical offset stays below one
/// line, and a bubble style other than the sign-post style, no line is
/// skipped: the window is the first up to three text lines, stopping at a
/// bubble break once at least one line has been shown.
pub proof fn lemma_zero_scroll_shows_first_lines(input: Seq<u8>)
    requires
        lines_spec(imm_decode(LookupTable::Kana, chunk_rev(input))).bubble_style != 0x07,
        lines_spec(imm_decode(LookupTable::Kana, chunk_rev(input))).start_scroll < 16,
    ensures
        decode_imm_spec(input, 0).0 == page_take(
            lines_spec(imm_decode(LookupTable::Kana, chunk_rev(input))).lines,
            0,
            Seq::empty(),
        ),
        decode_imm_spec(input, 0).1 == 0,
{
    let out = lines_spec(imm_decode(LookupTable::Kana, chunk_rev(input)));
    assert(effective_scroll(0, out) / 16 == 0);
}

/// The sign-post bubble style reduces the scroll by twelve units, floored at
/// zero, before the line offset is computed.
pub proof fn lemma_sign_post_scroll_reduction(input: Seq<u8>, scroll: u32)
    requires
        lines_spec(imm_decode(LookupTable::Kana, chunk_rev(input))).bubble_style == 0x07,
    ensures
        ({
            let out = lines_spec(imm_decode(LookupTable::Kana, chunk_rev(input)));
            let reduced = if scroll + out.start_scroll - 12 >= 0 {
                scroll + out.start_scroll - 12
            } else {
                0
            };
            decode_imm_spec(input, scroll) == (
                page_take(page_skip(out.lines, reduced / 16, 0).0, 0, Seq::empty()),
                page_skip(out.lines, reduced / 16, 0).1,
            )
        }),
{
}

} // verus!
