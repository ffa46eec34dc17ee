//! Primary translator: the full-text dialog grammar.
//!
//! A finite state machine walks the chunk-reversed byte stream and produces a
//! sequence of high-level events: style changes, dialog text runs, delays,
//! bubble breaks, button references, extended commands and the end marker.
//! The machine is specified by `p_step` (one byte) and `p_run` (a whole
//! stream); `translate` is the executable decoder proved against them.
//!
//! One condition aborts the whole decode: an unrecognized style byte.  Every
//! other malformed input degrades into an explicit event (an unknown-command
//! value, an inline unknown-character marker) and decoding goes on.  Input
//! that runs out in the middle of an escape sequence simply ends the decode
//! with the events collected so far.

use vstd::prelude::*;

use crate::charsets;
use crate::charsets::{Button, LookupTable};
use crate::cursor::{chunk_rev, Cursor};
use crate::extcmd;
use crate::extcmd::{ExtCmd, UnkCmd};
use crate::text::{hex_pair, push_char, push_hex};

verus! {

/// A dialog-bubble presentation style, named by the byte after a
/// style-change marker.
#[derive(Clone, Copy, Debug, PartialEq, Eq)]
pub enum Style {
    Invalid,
    BubbleRight,
    BubbleLeft,
    BubbleA,
    BubbleB,
    WhiteBorder,
    NarrationA,
    SignPost,
    BlueMessage,
    Invalid2,
    WhiteBubbleA,
    WhiteBubbleB,
    NoDisplay,
    NarrationSilent,
    NoDisplayVCenter,
    NarrationB,
}

/// The style a byte names, or `None` for a byte outside the known set.
pub open spec fn style_spec(b: u8) -> Option<Style> {
    match b {
        0x00 => Some(Style::Invalid),
        0x01 => Some(Style::BubbleRight),
        0x02 => Some(Style::BubbleLeft),
        0x03 => Some(Style::BubbleA),
        0x04 => Some(Style::BubbleB),
        0x05 => Some(Style::WhiteBorder),
        0x06 => Some(Style::NarrationA),
        0x07 => Some(Style::SignPost),
        0x08 => Some(Style::BlueMessage),
        0x09 => Some(Style::Invalid2),
        0x0A => Some(Style::WhiteBubbleA),
        0x0B => Some(Style::WhiteBubbleB),
        0x0C => Some(Style::NoDisplay),
        0x0D => Some(Style::NarrationSilent),
        0x0E => Some(Style::NoDisplayVCenter),
        0x0F => Some(Style::NarrationB),
        _ => None,
    }
}

impl Style {
    pub fn from_byte(b: u8) -> (r: Option<Style>)
        ensures
            r == style_spec(b),
    {
        match b {
            0x00 => Some(Style::Invalid),
            0x01 => Some(Style::BubbleRight),
            0x02 => Some(Style::BubbleLeft),
            0x03 => Some(Style::BubbleA),
            0x04 => Some(Style::BubbleB),
            0x05 => Some(Style::WhiteBorder),
            0x06 => Some(Style::NarrationA),
            0x07 => Some(Style::SignPost),
            0x08 => Some(Style::BlueMessage),
            0x09 => Some(Style::Invalid2),
            0x0A => Some(Style::WhiteBubbleA),
            0x0B => Some(Style::WhiteBubbleB),
            0x0C => Some(Style::NoDisplay),
            0x0D => Some(Style::NarrationSilent),
            0x0E => Some(Style::NoDisplayVCenter),
            0x0F => Some(Style::NarrationB),
            _ => None,
        }
    }
}

/// A decoded full-text event, in encounter order.
#[derive(Debug, PartialEq, Eq)]
pub enum Event {
    StyleChange(Style),
    Space,
    Dialog(String),
    End,
    Linebreak,
    Delay(u8),
    Bell,
    NextBubble,
    /// Sparkly text marker.
    Sparkly,
    ButtonRef { button: Option<Button>, rawcode: u8 },
    ExtCmd(ExtCmd),
    ExtCmdError { id: u8, argc: u8, args_got: u8 },
}

/// The mathematical model of an `Event`: the same variants with the dialog
/// run as a sequence of characters.
pub enum Ev {
    StyleChange(Style),
    Space,
    Dialog(Seq<char>),
    End,
    Linebreak,
    Delay(u8),
    Bell,
    NextBubble,
    Sparkly,
    ButtonRef { button: Option<Button>, rawcode: u8 },
    ExtCmd(ExtCmd),
    ExtCmdError { id: u8, argc: u8, args_got: u8 },
}

impl View for Event {
    type V = Ev;

    open spec fn view(&self) -> Ev {
        match self {
            Event::StyleChange(s) => Ev::StyleChange(*s),
            Event::Space => Ev::Space,
            Event::Dialog(t) => Ev::Dialog(t@),
            Event::End => Ev::End,
            Event::Linebreak => Ev::Linebreak,
            Event::Delay(d) => Ev::Delay(*d),
            Event::Bell => Ev::Bell,
            Event::NextBubble => Ev::NextBubble,
            Event::Sparkly => Ev::Sparkly,
            Event::ButtonRef { button, rawcode } => Ev::ButtonRef {
                button: *button,
                rawcode: *rawcode,
            },
            Event::ExtCmd(c) => Ev::ExtCmd(*c),
            Event::ExtCmdError { id, argc, args_got } => Ev::ExtCmdError {
                id: *id,
                argc: *argc,
                args_got: *args_got,
            },
        }
    }
}

/// The models of a sequence of events.
pub open spec fn views_of(s: Seq<Event>) -> Seq<Ev> {
    s.map_values(|e: Event| e@)
}

pub broadcast proof fn lemma_views_of_push(s: Seq<Event>, e: Event)
    ensures
        #[trigger] views_of(s.push(e)) == views_of(s).push(e@),
{
    assert(views_of(s.push(e)) =~= views_of(s).push(e@));
}

/// Where the grammar stands between two bytes.
#[derive(Clone, Copy, Debug)]
pub enum Status {
    Init,
    Style,
    Delay,
    ExtCmd,
    ExtCmdParams { id: u8, argc: u8, argidx: u8 },
}

/// The whole decoding state: grammar status, active lookup table, the
/// in-progress dialog run and the collected command parameters.
pub struct PState {
    pub status: Status,
    pub table: LookupTable,
    pub buf: Seq<char>,
    pub argbuf: Seq<u8>,
}

pub open spec fn p_init() -> PState {
    PState {
        status: Status::Init,
        table: LookupTable::Kana,
        buf: Seq::empty(),
        argbuf: Seq::empty(),
    }
}

pub open spec fn with_status(st: PState, status: Status) -> PState {
    PState { status, table: st.table, buf: st.buf, argbuf: st.argbuf }
}

pub open spec fn with_flushed(st: PState, status: Status) -> PState {
    PState { status, table: st.table, buf: Seq::empty(), argbuf: st.argbuf }
}

pub open spec fn with_table(st: PState, table: LookupTable) -> PState {
    PState { status: st.status, table, buf: st.buf, argbuf: st.argbuf }
}

pub open spec fn with_buf(st: PState, buf: Seq<char>) -> PState {
    PState { status: st.status, table: st.table, buf, argbuf: st.argbuf }
}

/// The event a pending dialog run flushes to: nothing when it is empty, one
/// `Dialog` event otherwise.
pub open spec fn flush_evs(buf: Seq<char>) -> Seq<Ev> {
    if buf.len() == 0 {
        seq![]
    } else {
        seq![Ev::Dialog(buf)]
    }
}

/// The inline marker a dialog run grows by when the active table has no
/// mapping for a byte.
pub open spec fn unmapped_chars(table: LookupTable, b: u8) -> Seq<char> {
    match table {
        LookupTable::Kana => "{kana:"@ + hex_pair(b) + "}"@,
        LookupTable::Kanji => "{kanji:"@ + hex_pair(b) + "}"@,
        LookupTable::Latin => "{latin:"@ + hex_pair(b) + "}"@,
        LookupTable::Button => Seq::empty(),
    }
}

/// One step of the grammar: the state after reading `b` and the events that
/// byte emits, or the offending byte itself when it names no known style.
pub open spec fn p_step(st: PState, b: u8) -> Result<(PState, Seq<Ev>), u8> {
    match st.status {
        Status::Init => {
            if b == 0xD9 {
                Ok((with_buf(st, Seq::empty()), flush_evs(st.buf) + seq![Ev::Sparkly]))
            } else if b == 0xFC {
                Ok((with_flushed(st, Status::Style), flush_evs(st.buf)))
            } else if b == 0xF7 {
                Ok((with_buf(st, Seq::empty()), flush_evs(st.buf) + seq![Ev::Space]))
            } else if b == 0xF0 {
                Ok((with_buf(st, Seq::empty()), flush_evs(st.buf) + seq![Ev::Linebreak]))
            } else if b == 0xF1 {
                Ok((with_buf(st, Seq::empty()), flush_evs(st.buf) + seq![Ev::Bell]))
            } else if b == 0xF2 {
                Ok((with_flushed(st, Status::Delay), flush_evs(st.buf)))
            } else if b == 0xF3 {
                Ok((with_table(st, LookupTable::Kana), seq![]))
            } else if b == 0xF4 {
                Ok((with_table(st, LookupTable::Latin), seq![]))
            } else if b == 0xF5 {
                Ok((with_table(st, LookupTable::Kanji), seq![]))
            } else if b == 0xF6 {
                Ok((with_table(st, LookupTable::Button), seq![]))
            } else if b == 0xFB {
                Ok((with_buf(st, Seq::empty()), flush_evs(st.buf) + seq![Ev::NextBubble]))
            } else if b == 0xFD {
                Ok((with_buf(st, Seq::empty()), flush_evs(st.buf) + seq![Ev::End]))
            } else if b == 0xFF {
                Ok((with_flushed(st, Status::ExtCmd), flush_evs(st.buf)))
            } else {
                match st.table {
                    LookupTable::Button => Ok(
                        (st, seq![Ev::ButtonRef { button: charsets::button_spec(b), rawcode: b }]),
                    ),
                    LookupTable::Kana => match charsets::kana_spec(b) {
                        Some(ch) => Ok((with_buf(st, st.buf.push(ch)), seq![])),
                        None => Ok(
                            (with_buf(st, st.buf + unmapped_chars(LookupTable::Kana, b)), seq![]),
                        ),
                    },
                    LookupTable::Kanji => match charsets::kanji_spec(b) {
                        Some(ch) => Ok((with_buf(st, st.buf.push(ch)), seq![])),
                        None => Ok(
                            (with_buf(st, st.buf + unmapped_chars(LookupTable::Kanji, b)), seq![]),
                        ),
                    },
                    LookupTable::Latin => match charsets::latin_spec(b) {
                        Some(ch) => Ok((with_buf(st, st.buf.push(ch)), seq![])),
                        None => Ok(
                            (with_buf(st, st.buf + unmapped_chars(LookupTable::Latin, b)), seq![]),
                        ),
                    },
                }
            }
        },
        Status::Style => match style_spec(b) {
            Some(s) => Ok((with_status(st, Status::Init), seq![Ev::StyleChange(s)])),
            None => Err(b),
        },
        Status::Delay => Ok((with_status(st, Status::Init), seq![Ev::Delay(b)])),
        Status::ExtCmd => match extcmd::n_params_spec(b) {
            Some(argc) => if argc == 0 {
                match extcmd::build_spec(b, Seq::empty()) {
                    Some(cmd) => Ok((with_status(st, Status::Init), seq![Ev::ExtCmd(cmd)])),
                    None => Ok(
                        (
                            with_status(st, Status::Init),
                            seq![Ev::ExtCmdError { id: b, argc: 0, args_got: 0 }],
                        ),
                    ),
                }
            } else {
                Ok(
                    (
                        PState {
                            status: Status::ExtCmdParams { id: b, argc, argidx: 0 },
                            table: st.table,
                            buf: st.buf,
                            argbuf: Seq::empty(),
                        },
                        seq![],
                    ),
                )
            },
            None => Ok(
                (with_status(st, Status::Init), seq![Ev::ExtCmd(ExtCmd::Unknown(UnkCmd(b)))]),
            ),
        },
        Status::ExtCmdParams { id, argc, argidx } => {
            let args = st.argbuf.push(b);
            let grown = PState { status: st.status, table: st.table, buf: st.buf, argbuf: args };
            if argidx + 1 == argc {
                match extcmd::build_spec(id, args) {
                    Some(cmd) => Ok((with_status(grown, Status::Init), seq![Ev::ExtCmd(cmd)])),
                    None => Ok(
                        (
                            with_status(grown, Status::Init),
                            seq![
                                Ev::ExtCmdError { id, argc, args_got: args.len() as u8 },
                            ],
                        ),
                    ),
                }
            } else {
                Ok(
                    (
                        with_status(
                            grown,
                            Status::ExtCmdParams { id, argc, argidx: (argidx + 1) as u8 },
                        ),
                        seq![],
                    ),
                )
            }
        },
    }
}

/// The grammar run to the end of a byte stream: the events of every step and
/// the final flush of the dialog run, or the style byte that aborted it.
pub open spec fn p_run(st: PState, s: Seq<u8>) -> Result<Seq<Ev>, u8>
    decreases s.len(),
{
    if s.len() == 0 {
        Ok(flush_evs(st.buf))
    } else {
        match p_step(st, s[0]) {
            Err(b) => Err(b),
            Ok((st2, evs)) => match p_run(st2, s.skip(1)) {
                Err(b) => Err(b),
                Ok(rest) => Ok(evs + rest),
            },
        }
    }
}

/// What decoding a raw buffer means: the grammar run over its chunk-reversed
/// byte stream, starting in the initial state.
pub open spec fn translate_spec(input: Seq<u8>) -> Result<Seq<Ev>, u8> {
    p_run(p_init(), chunk_rev(input))
}

/// The message `translate` reports for an unrecognized style byte.
pub open spec fn style_err(b: u8) -> Seq<char> {
    "unrecognized style byte 0x"@ + hex_pair(b)
}

/// While parameters of an extended command are being collected, the count of
/// bytes already taken stays below the declared count and matches the
/// accumulator.
pub open spec fn arg_wf(status: Status, argbuf: Seq<u8>) -> bool {
    status matches Status::ExtCmdParams { id, argc, argidx } ==> argidx < argc && argc <= 7
        && argbuf.len() == argidx
}

/// Moves a non-empty dialog run out of `buf` into a `Dialog` event.
fn flush_dialog(events: &mut Vec<Event>, buf: &mut String)
    ensures
        final(buf)@ == Seq::<char>::empty(),
        views_of(final(events)@) == views_of(old(events)@) + flush_evs(old(buf)@),
{
    broadcast use lemma_views_of_push;

    if !buf.as_str().is_empty() {
        let mut taken = String::new();
        core::mem::swap(buf, &mut taken);
        events.push(Event::Dialog(taken));
        proof {
            assert(views_of(events@) =~= views_of(old(events)@) + flush_evs(old(buf)@));
        }
    } else {
        proof {
            assert(views_of(events@) =~= views_of(old(events)@) + flush_evs(old(buf)@));
        }
    }
}

/// Feeds one byte to the grammar, mirroring `p_step` on the live state.
/// Returns false exactly when the byte is an unrecognized style byte.
fn translate_step(
    b: u8,
    status: &mut Status,
    lookup_table: &mut LookupTable,
    buf: &mut String,
    argbuf: &mut Vec<u8>,
    events: &mut Vec<Event>,
) -> (ok: bool)
    requires
        arg_wf(*old(status), old(argbuf)@),
    ensures
        arg_wf(*final(status), final(argbuf)@),
        ({
            let st0 = PState {
                status: *old(status),
                table: *old(lookup_table),
                buf: old(buf)@,
                argbuf: old(argbuf)@,
            };
            let st1 = PState {
                status: *final(status),
                table: *final(lookup_table),
                buf: final(buf)@,
                argbuf: final(argbuf)@,
            };
            match p_step(st0, b) {
                Ok((st2, evs)) => ok && st1 == st2 && views_of(final(events)@) == views_of(
                    old(events)@,
                ) + evs,
                Err(_) => !ok,
            }
        }),
{
    broadcast use lemma_views_of_push;

    let ghost st0 = PState {
        status: *status,
        table: *lookup_table,
        buf: buf@,
        argbuf: argbuf@,
    };
    match *status {
        Status::Init => {
            match b {
                0xD9 => {
                    flush_dialog(events, buf);
                    events.push(Event::Sparkly);
                    proof {
                        assert(views_of(events@) =~= views_of(old(events)@) + (flush_evs(st0.buf)
                            + seq![Ev::Sparkly]));
                    }
                },
                0xFC => {
                    flush_dialog(events, buf);
                    *status = Status::Style;
                },
                0xF7 => {
                    flush_dialog(events, buf);
                    events.push(Event::Space);
                    proof {
                        assert(views_of(events@) =~= views_of(old(events)@) + (flush_evs(st0.buf)
                            + seq![Ev::Space]));
                    }
                },
                0xF0 => {
                    flush_dialog(events, buf);
                    events.push(Event::Linebreak);
                    proof {
                        assert(views_of(events@) =~= views_of(old(events)@) + (flush_evs(st0.buf)
                            + seq![Ev::Linebreak]));
                    }
                },
                0xF1 => {
                    flush_dialog(events, buf);
                    events.push(Event::Bell);
                    proof {
                        assert(views_of(events@) =~= views_of(old(events)@) + (flush_evs(st0.buf)
                            + seq![Ev::Bell]));
                    }
                },
                0xF2 => {
                    flush_dialog(events, buf);
                    *status = Status::Delay;
                },
                0xF3 => {
                    *lookup_table = LookupTable::Kana;
                    proof {
                        assert(views_of(events@) =~= views_of(old(events)@) + Seq::<Ev>::empty());
                    }
                },
                0xF4 => {
                    *lookup_table = LookupTable::Latin;
                    proof {
                        assert(views_of(events@) =~= views_of(old(events)@) + Seq::<Ev>::empty());
                    }
                },
                0xF5 => {
                    *lookup_table = LookupTable::Kanji;
                    proof {
                        assert(views_of(events@) =~= views_of(old(events)@) + Seq::<Ev>::empty());
                    }
                },
                0xF6 => {
                    *lookup_table = LookupTable::Button;
                    proof {
                        assert(views_of(events@) =~= views_of(old(events)@) + Seq::<Ev>::empty());
                    }
                },
                0xFB => {
                    flush_dialog(events, buf);
                    events.push(Event::NextBubble);
                    proof {
                        assert(views_of(events@) =~= views_of(old(events)@) + (flush_evs(st0.buf)
                            + seq![Ev::NextBubble]));
                    }
                },
                0xFD => {
                    flush_dialog(events, buf);
                    events.push(Event::End);
                    proof {
                        assert(views_of(events@) =~= views_of(old(events)@) + (flush_evs(st0.buf)
                            + seq![Ev::End]));
                    }
                },
                0xFF => {
                    flush_dialog(events, buf);
                    *status = Status::ExtCmd;
                },
                _ => {
                    match *lookup_table {
                        LookupTable::Button => {
                            events.push(Event::ButtonRef { button: charsets::button(b), rawcode: b });
                        },
                        LookupTable::Kana => {
                            match charsets::kana(b) {
                                Some(ch) => push_char(buf, ch),
                                None => {
                                    buf.append("{kana:");
                                    push_hex(buf, b);
                                    buf.append("}");
                                    proof {
                                        assert(buf@ =~= st0.buf + unmapped_chars(
                                            LookupTable::Kana,
                                            b,
                                        ));
                                    }
                                },
                            }
                            proof {
                                assert(views_of(events@) =~= views_of(old(events)@)
                                    + Seq::<Ev>::empty());
                            }
                        },
                        LookupTable::Kanji => {
                            match charsets::kanji(b) {
                                Some(ch) => push_char(buf, ch),
                                None => {
                                    buf.append("{kanji:");
                                    push_hex(buf, b);
                                    buf.append("}");
                                    proof {
                                        assert(buf@ =~= st0.buf + unmapped_chars(
                                            LookupTable::Kanji,
                                            b,
                                        ));
                                    }
                                },
                            }
                            proof {
                                assert(views_of(events@) =~= views_of(old(events)@)
                                    + Seq::<Ev>::empty());
                            }
                        },
                        LookupTable::Latin => {
                            match charsets::latin(b) {
                                Some(ch) => push_char(buf, ch),
                                None => {
                                    buf.append("{latin:");
                                    push_hex(buf, b);
                                    buf.append("}");
                                    proof {
                                        assert(buf@ =~= st0.buf + unmapped_chars(
                                            LookupTable::Latin,
                                            b,
                                        ));
                                    }
                                },
                            }
                            proof {
                                assert(views_of(events@) =~= views_of(old(events)@)
                                    + Seq::<Ev>::empty());
                            }
                        },
                    }
                },
            }
            true
        },
        Status::Style => {
            match Style::from_byte(b) {
                Some(s) => {
                    events.push(Event::StyleChange(s));
                    *status = Status::Init;
                    true
                },
                None => false,
            }
        },
        Status::Delay => {
            events.push(Event::Delay(b));
            *status = Status::Init;
            true
        },
        Status::ExtCmd => {
            match extcmd::n_params(b) {
                Some(argc) => {
                    if argc == 0 {
                        let noargs: Vec<u8> = Vec::new();
                        match ExtCmd::from_id_and_args(b, noargs.as_slice()) {
                            Some(cmd) => events.push(Event::ExtCmd(cmd)),
                            None => events.push(Event::ExtCmdError { id: b, argc: 0, args_got: 0 }),
                        }
                        *status = Status::Init;
                    } else {
                        *status = Status::ExtCmdParams { id: b, argc, argidx: 0 };
                        argbuf.clear();
                        proof {
                            assert(views_of(events@) =~= views_of(old(events)@)
                                + Seq::<Ev>::empty());
                        }
                    }
                },
                None => {
                    events.push(Event::ExtCmd(ExtCmd::Unknown(UnkCmd(b))));
                    *status = Status::Init;
                },
            }
            true
        },
        Status::ExtCmdParams { id, argc, argidx } => {
            argbuf.push(b);
            if argidx + 1 == argc {
                match ExtCmd::from_id_and_args(id, argbuf.as_slice()) {
                    Some(cmd) => events.push(Event::ExtCmd(cmd)),
                    None => events.push(
                        Event::ExtCmdError { id, argc, args_got: argbuf.len() as u8 },
                    ),
                }
                *status = Status::Init;
            } else {
                *status = Status::ExtCmdParams { id, argc, argidx: argidx + 1 };
                proof {
                    assert(views_of(events@) =~= views_of(old(events)@) + Seq::<Ev>::empty());
                }
            }
            true
        },
    }
}

/// Composition of events already emitted with what a run from the current
/// state will still produce.
pub open spec fn p_compose(pre: Seq<Ev>, st: PState, s: Seq<u8>) -> Result<Seq<Ev>, u8> {
    match p_run(st, s) {
        Ok(t) => Ok(pre + t),
        Err(b) => Err(b),
    }
}

/// Decodes a raw dialog buffer into its full-text event sequence.
///
/// The one hard failure is an unrecognized style byte, reported as an error
/// naming that byte; everything else decodes, with unknown bytes surfaced as
/// explicit events.
pub fn translate(raw: &[u8]) -> (r: Result<Vec<Event>, String>)
    ensures
        r is Ok <==> translate_spec(raw@) is Ok,
        r is Ok ==> translate_spec(raw@) == Ok::<Seq<Ev>, u8>(views_of(r->Ok_0@)),
        r is Err ==> r->Err_0@ == style_err(translate_spec(raw@)->Err_0),
{
    let mut events: Vec<Event> = Vec::new();
    let mut buf = String::new();
    let mut status = Status::Init;
    let mut lookup_table = LookupTable::Kana;
    let mut argbuf: Vec<u8> = Vec::new();
    let mut cur = Cursor::new(raw);

    proof {
        assert(views_of(events@) =~= Seq::<Ev>::empty());
        let st_start = PState {
            status: Status::Init,
            table: LookupTable::Kana,
            buf: buf@,
            argbuf: argbuf@,
        };
        assert(st_start == p_init());
        match p_run(p_init(), chunk_rev(raw@)) {
            Ok(t) => {
                assert(Seq::<Ev>::empty() + t =~= t);
            },
            Err(_) => {},
        }
    }

    while !cur.done()
        invariant
            cur.wf(),
            cur.source() == raw@,
            arg_wf(status, argbuf@),
            translate_spec(raw@) == p_compose(
                views_of(events@),
                PState { status, table: lookup_table, buf: buf@, argbuf: argbuf@ },
                cur.rem(),
            ),
        decreases cur.rem().len(),
    {
        let ghost st0 = PState { status, table: lookup_table, buf: buf@, argbuf: argbuf@ };
        let ghost rem0 = cur.rem();
        let ghost evs0 = events@;
        let b = cur.next().unwrap();
        let ok = translate_step(b, &mut status, &mut lookup_table, &mut buf, &mut argbuf,
            &mut events);
        if !ok {
            proof {
                assert(p_run(st0, rem0) == Err::<Seq<Ev>, u8>(b));
            }
            let mut msg = String::new();
            msg.append("unrecognized style byte 0x");
            push_hex(&mut msg, b);
            proof {
                assert(msg@ =~= style_err(b));
            }
            return Err(msg);
        }
        proof {
            assert(rem0.skip(1) =~= cur.rem());
            let stepped = p_step(st0, b);
            let st2 = stepped->Ok_0.0;
            let evs = stepped->Ok_0.1;
            match p_run(st2, cur.rem()) {
                Ok(t) => {
                    assert(views_of(evs0) + (evs + t) =~= (views_of(evs0) + evs) + t);
                },
                Err(_) => {},
            }
        }
    }
    proof {
        let st_end = PState { status, table: lookup_table, buf: buf@, argbuf: argbuf@ };
        assert(p_run(st_end, cur.rem()) == Ok::<Seq<Ev>, u8>(flush_evs(buf@)));
    }
    flush_dialog(&mut events, &mut buf);
    Ok(events)
}

/// An unrecognized style byte is the one hard failure: met in the style
/// state, it aborts the whole run with exactly that byte.
pub proof fn lemma_unknown_style_aborts(st: PState, s: Seq<u8>)
    requires
        st.status is Style,
        s.len() > 0,
        style_spec(s[0]) is None,
    ensures
        p_run(st, s) == Err::<Seq<Ev>, u8>(s[0]),
{
}

/// An unregistered extended-command id is no failure: it decodes to the
/// explicit `Unknown` command value and the grammar goes on.
pub proof fn lemma_unregistered_ext_cmd_is_unknown(st: PState, b: u8)
    requires
        st.status is ExtCmd,
        extcmd::n_params_spec(b) is None,
    ensures
        p_step(st, b) == Ok::<(PState, Seq<Ev>), u8>(
            (with_status(st, Status::Init), seq![Ev::ExtCmd(ExtCmd::Unknown(UnkCmd(b)))]),
        ),
{
}

/// While parameters of an extended command are collected, every byte is
/// taken raw — control values included — until the declared count stands;
/// then exactly one event is emitted, the built command or the explicit
/// error value, and the grammar returns to its initial status with the
/// dialog run and the table untouched.
proof fn lemma_params_phase(st: PState, s: Seq<u8>)
    requires
        st.status matches Status::ExtCmdParams { id, argc, argidx } && argidx < argc
            && st.argbuf.len() == argidx && s.len() >= argc - argidx,
    ensures
        ({
            let id = st.status->id;
            let argc = st.status->argc;
            let need = argc - st.status->argidx;
            let args = st.argbuf + s.take(need);
            let emitted = match extcmd::build_spec(id, args) {
                Some(cmd) => Ev::ExtCmd(cmd),
                None => Ev::ExtCmdError { id, argc, args_got: args.len() as u8 },
            };
            p_run(st, s) == match p_run(
                PState { status: Status::Init, table: st.table, buf: st.buf, argbuf: args },
                s.skip(need),
            ) {
                Ok(rest) => Ok::<Seq<Ev>, u8>(seq![emitted] + rest),
                Err(b) => Err(b),
            }
        }),
    decreases s.len(),
{
    let id = st.status->id;
    let argc = st.status->argc;
    let argidx = st.status->argidx;
    let need = argc - argidx;
    let stepped = p_step(st, s[0]);
    let st2 = stepped->Ok_0.0;
    if argidx + 1 == argc {
        assert(st.argbuf + s.take(1) =~= st.argbuf.push(s[0]));
    } else {
        lemma_params_phase(st2, s.skip(1));
        assert(st.argbuf.push(s[0]) + s.skip(1).take(need - 1) =~= st.argbuf + s.take(need));
        assert(s.skip(1).skip(need - 1) =~= s.skip(need));
        let args = st.argbuf + s.take(need);
        let emitted = match extcmd::build_spec(id, args) {
            Some(cmd) => Ev::ExtCmd(cmd),
            None => Ev::ExtCmdError { id, argc, args_got: args.len() as u8 },
        };
        match p_run(
            PState { status: Status::Init, table: st.table, buf: st.buf, argbuf: args },
            s.skip(need),
        ) {
            Ok(rest) => {
                assert(Seq::<Ev>::empty() + (seq![emitted] + rest) =~= seq![emitted] + rest);
            },
            Err(_) => {},
        }
    }
}

/// A registered extended-command id takes exactly its declared number of
/// parameter bytes, raw, and then emits exactly one event — the built
/// command, or the explicit error value were the build to fail — before the
/// grammar resumes in its initial status.
pub proof fn lemma_registered_ext_cmd_takes_declared_params(st: PState, s: Seq<u8>)
    requires
        st.status is ExtCmd,
        s.len() >= 1,
        extcmd::n_params_spec(s[0]) is Some,
        s.len() > extcmd::n_params_spec(s[0])->Some_0,
    ensures
        ({
            let id = s[0];
            let argc = extcmd::n_params_spec(id)->Some_0;
            let n = argc as int;
            let params = s.subrange(1, 1 + n);
            let emitted = match extcmd::build_spec(id, params) {
                Some(cmd) => Ev::ExtCmd(cmd),
                None => Ev::ExtCmdError { id, argc, args_got: params.len() as u8 },
            };
            let resume = PState {
                status: Status::Init,
                table: st.table,
                buf: st.buf,
                argbuf: if n == 0 {
                    st.argbuf
                } else {
                    params
                },
            };
            p_run(st, s) == match p_run(resume, s.skip(1 + n)) {
                Ok(rest) => Ok::<Seq<Ev>, u8>(seq![emitted] + rest),
                Err(b) => Err(b),
            }
        }),
{
    let id = s[0];
    let argc = extcmd::n_params_spec(id)->Some_0;
    let n = argc as int;
    let params = s.subrange(1, 1 + n);
    let stepped = p_step(st, s[0]);
    let st2 = stepped->Ok_0.0;
    if n == 0 {
        assert(params =~= Seq::<u8>::empty());
    } else {
        lemma_params_phase(st2, s.skip(1));
        assert(Seq::<u8>::empty() + s.skip(1).take(n) =~= params);
        assert(s.skip(1).skip(n) =~= s.skip(1 + n));
        let emitted = match extcmd::build_spec(id, params) {
            Some(cmd) => Ev::ExtCmd(cmd),
            None => Ev::ExtCmdError { id, argc, args_got: params.len() as u8 },
        };
        let resume = PState { status: Status::Init, table: st.table, buf: st.buf, argbuf: params };
        match p_run(resume, s.skip(1 + n)) {
            Ok(rest) => {
                assert(Seq::<Ev>::empty() + (seq![emitted] + rest) =~= seq![emitted] + rest);
            },
            Err(_) => {},
        }
    }
}

/// Input that ends while parameter bytes of an extended command are still
/// owed emits no event for that command and raises no error: the run ends
/// with only the pending dialog flush.
pub proof fn lemma_truncated_ext_cmd_stops_silently(st: PState, s: Seq<u8>)
    requires
        st.status matches Status::ExtCmdParams { id, argc, argidx } && s.len() + argidx < argc,
    ensures
        p_run(st, s) == Ok::<Seq<Ev>, u8>(flush_evs(st.buf)),
    decreases s.len(),
{
    if s.len() == 0 {
    } else {
        let stepped = p_step(st, s[0]);
        let st2 = stepped->Ok_0.0;
        lemma_truncated_ext_cmd_stops_silently(st2, s.skip(1));
        assert(Seq::<Ev>::empty() + flush_evs(st.buf) =~= flush_evs(st.buf));
    }
}

} // verus!
