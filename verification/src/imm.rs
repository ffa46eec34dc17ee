//! Immediate-buffer decoder: the on-screen text grammar.
//!
//! The live on-screen buffer uses its own, simpler grammar over the same
//! chunk-reversed cursor and charset tables as the full-text grammar, with
//! different control-byte meanings and its own nested extended-command and
//! text-effect dispatch.  Decoding stops at the stop byte or at the end of
//! the input; input that runs out in the middle of an escape sequence ends
//! the decode with the events collected so far.
//!
//! The grammar is specified by `imm_decode` (with `ext_event_spec` and
//! `text_effect_spec` for the nested dispatches); `decode_events` is the
//! executable decoder proved against it.

use vstd::prelude::*;

use crate::charsets;
use crate::charsets::{Button, LookupTable};
use crate::cursor::{chunk_rev, Cursor};

verus! {

/// A decoded on-screen event.
#[derive(Clone, Copy, Debug, PartialEq, Eq)]
pub enum Event {
    BubbleStyle(u8),
    Char(char),
    Btn(Button),
    UnkKana(u8),
    UnkKanji(u8),
    UnkLatin(u8),
    UnkBtn(u8),
    Newline,
    Space,
    NextBubble,
    UnkExtCmd(u8),
    ExtCmd1D(u8),
    ExtSetColor(u8),
    ExtStoreColor,
    ExtLoadColor,
    ExtCmd0B(u8),
    ExtCmd06(u8, u8),
    Tab,
    UnkTextEffect(u8),
    TextEffectStar(u8),
    TextEffectShaky1,
    TextEffectWavy1,
    TextEffectDarkStar,
    TextEffectNoise(u8),
    TextEffectShaky2(u8),
    TextEffectRainbow1,
    TextEffectWavy2,
    TextEffectRainbow2,
    TextEffectQuickPulse,
    TextEffectWavePulse,
    TextEffectShadow,
    TextEffectBowserLaugh,
    ExtCmd0C(u8),
    UnkExtExtCmd(u8),
    ExtExtVOffset(u8),
    ExtTextHoffset(u8),
    ExtCmdUnk14(u8),
    ExtCmdUnk15(u8),
}

/// The event an ordinary byte yields under the active table: the mapped
/// glyph or button, or the per-table unknown marker.
pub open spec fn char_event(table: LookupTable, b: u8) -> Event {
    match table {
        LookupTable::Kana => match charsets::kana_spec(b) {
            Some(ch) => Event::Char(ch),
            None => Event::UnkKana(b),
        },
        LookupTable::Kanji => match charsets::kanji_spec(b) {
            Some(ch) => Event::Char(ch),
            None => Event::UnkKanji(b),
        },
        LookupTable::Latin => match charsets::latin_spec(b) {
            Some(ch) => Event::Char(ch),
            None => Event::UnkLatin(b),
        },
        LookupTable::Button => match charsets::button_spec(b) {
            Some(bt) => Event::Btn(bt),
            None => Event::UnkBtn(b),
        },
    }
}

/// The text-effect dispatch: the event named by the bytes after a text-effect
/// marker and how many of them it consumes, or `None` when the input ends
/// before the effect is complete.
pub open spec fn text_effect_spec(s: Seq<u8>) -> Option<(Event, int)> {
    if s.len() == 0 {
        None
    } else {
        let c = s[0];
        if c == 0x00 {
            Some((Event::TextEffectShaky1, 1int))
        } else if c == 0x01 {
            Some((Event::TextEffectWavy1, 1int))
        } else if c == 0x02 {
            Some((Event::TextEffectDarkStar, 1int))
        } else if c == 0x03 {
            if s.len() < 2 {
                None
            } else {
                Some((Event::TextEffectNoise(s[1]), 2int))
            }
        } else if c == 0x05 {
            if s.len() < 2 {
                None
            } else {
                Some((Event::TextEffectShaky2(s[1]), 2int))
            }
        } else if c == 0x06 {
            Some((Event::TextEffectRainbow1, 1int))
        } else if c == 0x07 {
            if s.len() < 2 {
                None
            } else {
                Some((Event::TextEffectStar(s[1]), 2int))
            }
        } else if c == 0x08 {
            Some((Event::TextEffectWavy2, 1int))
        } else if c == 0x09 {
            Some((Event::TextEffectRainbow2, 1int))
        } else if c == 0x0A {
            Some((Event::TextEffectBowserLaugh, 1int))
        } else if c == 0x0C {
            Some((Event::TextEffectQuickPulse, 1int))
        } else if c == 0x0D {
            Some((Event::TextEffectWavePulse, 1int))
        } else if c == 0x0E {
            Some((Event::TextEffectShadow, 1int))
        } else {
            Some((Event::UnkTextEffect(c), 1int))
        }
    }
}

/// The extended-command dispatch: the event named by the bytes after the
/// escape marker and how many of them it consumes, or `None` when the input
/// ends before the command is complete.
pub open spec fn ext_event_spec(s: Seq<u8>) -> Option<(Event, int)> {
    if s.len() == 0 {
        None
    } else {
        let c = s[0];
        if c == 0x04 {
            if s.len() < 2 {
                None
            } else {
                Some((Event::ExtSetColor(s[1]), 2int))
            }
        } else if c == 0x0B {
            if s.len() < 2 {
                None
            } else {
                Some((Event::ExtCmd0B(s[1]), 2int))
            }
        } else if c == 0x0C {
            if s.len() < 2 {
                None
            } else {
                Some((Event::ExtCmd0C(s[1]), 2int))
            }
        } else if c == 0x06 {
            if s.len() < 3 {
                None
            } else {
                Some((Event::ExtCmd06(s[1], s[2]), 3int))
            }
        } else if c == 0x14 {
            if s.len() < 2 {
                None
            } else {
                Some((Event::ExtCmdUnk14(s[1]), 2int))
            }
        } else if c == 0x15 {
            if s.len() < 2 {
                None
            } else {
                Some((Event::ExtCmdUnk15(s[1]), 2int))
            }
        } else if c == 0x1C {
            match text_effect_spec(s.skip(1)) {
                None => None,
                Some((ev, k)) => Some((ev, k + 1)),
            }
        } else if c == 0x1D {
            if s.len() < 2 {
                None
            } else {
                Some((Event::ExtCmd1D(s[1]), 2int))
            }
        } else if c == 0x1A {
            Some((Event::ExtStoreColor, 1int))
        } else if c == 0x1B {
            Some((Event::ExtLoadColor, 1int))
        } else if c == 0x1E {
            if s.len() < 2 {
                None
            } else {
                Some((Event::ExtTextHoffset(s[1]), 2int))
            }
        } else if c == 0xFF {
            if s.len() < 2 {
                None
            } else if s[1] == 0x0B {
                if s.len() < 3 {
                    None
                } else {
                    Some((Event::ExtExtVOffset(s[2]), 3int))
                }
            } else {
                Some((Event::UnkExtExtCmd(s[1]), 2int))
            }
        } else {
            Some((Event::UnkExtCmd(c), 1int))
        }
    }
}

/// One dispatch of the on-screen grammar: the events the first control or
/// character byte emits (none or one), the table afterwards and how many
/// bytes the dispatch consumes.  `None` is the stop: the input is exhausted
/// where a byte is needed, or the first byte is the stop byte.
pub open spec fn imm_step(table: LookupTable, s: Seq<u8>) -> Option<(Seq<Event>, LookupTable, int)> {
    if s.len() == 0 {
        None
    } else {
        let b = s[0];
        if b == 0xF8 {
            if s.len() < 2 {
                None
            } else {
                Some((seq![Event::BubbleStyle(s[1])], table, 2int))
            }
        } else if b == 0xF0 {
            Some((seq![Event::Newline], table, 1int))
        } else if b == 0xF1 {
            Some((seq![], LookupTable::Kana, 1int))
        } else if b == 0xF2 {
            Some((seq![], LookupTable::Latin, 1int))
        } else if b == 0xF3 {
            Some((seq![], LookupTable::Kanji, 1int))
        } else if b == 0xF4 {
            Some((seq![], LookupTable::Button, 1int))
        } else if b == 0xF5 {
            Some((seq![Event::Space], table, 1int))
        } else if b == 0xF6 {
            Some((seq![Event::Tab], table, 1int))
        } else if b == 0xFA {
            Some((seq![Event::NextBubble], table, 1int))
        } else if b == 0xFB {
            None
        } else if b == 0xFF {
            match ext_event_spec(s.skip(1)) {
                None => None,
                Some((ev, k)) => Some((seq![ev], table, 1 + k)),
            }
        } else {
            Some((seq![char_event(table, b)], table, 1int))
        }
    }
}

/// The on-screen events decoded from a byte stream under the active table:
/// one dispatch after another until the grammar stops.
pub open spec fn imm_decode(table: LookupTable, s: Seq<u8>) -> Seq<Event>
    decreases s.len(),
{
    match imm_step(table, s) {
        None => Seq::empty(),
        Some((evs, table2, k)) => evs + imm_decode(table2, s.skip(k)),
    }
}

/// A decoding session over the on-screen grammar: the events collected so
/// far, the active table and the cursor position.
pub struct Decoder<'a> {
    events: Vec<Event>,
    lookup_table: LookupTable,
    cursor: Cursor<'a>,
}

impl<'a> Decoder<'a> {
    pub closed spec fn events(self) -> Seq<Event> {
        self.events@
    }

    pub closed spec fn table(self) -> LookupTable {
        self.lookup_table
    }

    pub closed spec fn rem(self) -> Seq<u8> {
        self.cursor.rem()
    }

    pub closed spec fn src(self) -> Seq<u8> {
        self.cursor.source()
    }

    pub closed spec fn wf(self) -> bool {
        self.cursor.wf()
    }

    pub fn new(cursor: Cursor<'a>) -> (d: Decoder<'a>)
        requires
            cursor.wf(),
        ensures
            d.wf(),
            d.events() == Seq::<Event>::empty(),
            d.table() == LookupTable::Kana,
            d.rem() == cursor.rem(),
            d.src() == cursor.source(),
    {
        Decoder { events: Vec::new(), lookup_table: LookupTable::Kana, cursor }
    }

    /// Decodes exactly one dispatch of the grammar, as `imm_step` gives it:
    /// the first byte's events (none or one) are appended, the table and the
    /// consumed bytes are the dispatch's own.  `None` comes precisely when
    /// decoding must stop: at the stop byte, at the end of the input, or on
    /// a truncated escape sequence; nothing is appended then.
    pub fn next(&mut self) -> (r: Option<()>)
        requires
            old(self).wf(),
        ensures
            final(self).wf(),
            final(self).src() == old(self).src(),
            ({
                match imm_step(old(self).table(), old(self).rem()) {
                    Some((evs, table2, k)) => r is Some && final(self).events() == old(self)
                        .events() + evs && final(self).table() == table2 && final(self).rem()
                        == old(self).rem().skip(k),
                    None => r is None && final(self).events() == old(self).events(),
                }
            }),
            r is Some ==> final(self).rem().len() < old(self).rem().len(),
            final(self).rem().len() <= old(self).rem().len(),
    {
        let ghost t0 = self.lookup_table;
        let ghost r0 = self.cursor.rem();
        let ghost e0 = self.events@;
        let b = match self.cursor.next() {
            Some(b) => b,
            None => {
                return None;
            },
        };
        proof {
            assert(self.cursor.rem() =~= r0.skip(1));
        }
        match b {
            0xF8 => {
                let st = match self.cursor.next() {
                    Some(st) => st,
                    None => {
                        return None;
                    },
                };
                proof {
                    assert(r0.skip(1)[0] == r0[1]);
                    assert(self.cursor.rem() =~= r0.skip(2));
                }
                self.events.push(Event::BubbleStyle(st));
                proof {
                    assert(e0.push(Event::BubbleStyle(r0[1])) =~= e0 + seq![
                        Event::BubbleStyle(r0[1]),
                    ]);
                }
            },
            0xF0 => {
                self.events.push(Event::Newline);
                proof {
                    assert(e0.push(Event::Newline) =~= e0 + seq![Event::Newline]);
                }
            },
            0xF1 => {
                self.lookup_table = LookupTable::Kana;
                proof {
                    assert(e0 =~= e0 + Seq::<Event>::empty());
                }
            },
            0xF2 => {
                self.lookup_table = LookupTable::Latin;
                proof {
                    assert(e0 =~= e0 + Seq::<Event>::empty());
                }
            },
            0xF3 => {
                self.lookup_table = LookupTable::Kanji;
                proof {
                    assert(e0 =~= e0 + Seq::<Event>::empty());
                }
            },
            0xF4 => {
                self.lookup_table = LookupTable::Button;
                proof {
                    assert(e0 =~= e0 + Seq::<Event>::empty());
                }
            },
            0xF5 => {
                self.events.push(Event::Space);
                proof {
                    assert(e0.push(Event::Space) =~= e0 + seq![Event::Space]);
                }
            },
            0xF6 => {
                self.events.push(Event::Tab);
                proof {
                    assert(e0.push(Event::Tab) =~= e0 + seq![Event::Tab]);
                }
            },
            0xFA => {
                self.events.push(Event::NextBubble);
                proof {
                    assert(e0.push(Event::NextBubble) =~= e0 + seq![Event::NextBubble]);
                }
            },
            0xFB => {
                return None;
            },
            0xFF => {
                let ev = match self.next_extcmd() {
                    Some(ev) => ev,
                    None => {
                        return None;
                    },
                };
                proof {
                    let k = ext_event_spec(r0.skip(1))->Some_0.1;
                    assert(r0.skip(1).skip(k) =~= r0.skip(1 + k));
                }
                self.events.push(ev);
                proof {
                    assert(e0.push(ev) =~= e0 + seq![ev]);
                }
            },
            etc => {
                self.add_char(etc);
                proof {
                    assert(e0.push(char_event(t0, b)) =~= e0 + seq![char_event(t0, b)]);
                }
            },
        }
        Some(())
    }

    /// Pushes the event an ordinary byte yields under the active table.
    pub fn add_char(&mut self, byte: u8)
        requires
            old(self).wf(),
        ensures
            final(self).wf(),
            final(self).src() == old(self).src(),
            final(self).table() == old(self).table(),
            final(self).rem() == old(self).rem(),
            final(self).events() == old(self).events().push(char_event(old(self).table(), byte)),
    {
        let ev = match self.lookup_table {
            LookupTable::Kana => match charsets::kana(byte) {
                Some(ch) => Event::Char(ch),
                None => Event::UnkKana(byte),
            },
            LookupTable::Kanji => match charsets::kanji(byte) {
                Some(ch) => Event::Char(ch),
                None => Event::UnkKanji(byte),
            },
            LookupTable::Latin => match charsets::latin(byte) {
                Some(ch) => Event::Char(ch),
                None => Event::UnkLatin(byte),
            },
            LookupTable::Button => match charsets::button(byte) {
                Some(bt) => Event::Btn(bt),
                None => Event::UnkBtn(byte),
            },
        };
        self.events.push(ev);
    }

    /// Decodes the bytes after the escape marker into one extended-command
    /// event, or `None` when the input ends first.
    pub fn next_extcmd(&mut self) -> (r: Option<Event>)
        requires
            old(self).wf(),
        ensures
            final(self).wf(),
            final(self).src() == old(self).src(),
            final(self).table() == old(self).table(),
            final(self).events() == old(self).events(),
            ({
                match ext_event_spec(old(self).rem()) {
                    Some((ev, k)) => r == Some(ev) && final(self).rem() == old(self).rem().skip(k),
                    None => r is None,
                }
            }),
            final(self).rem().len() <= old(self).rem().len(),
    {
        let ghost r0 = self.cursor.rem();
        let b = match self.cursor.next() {
            Some(b) => b,
            None => {
                return None;
            },
        };
        proof {
            assert(self.cursor.rem() =~= r0.skip(1));
            assert(r0.skip(1).len() > 0 ==> r0.skip(1)[0] == r0[1]);
            assert(r0.skip(1).len() > 1 ==> r0.skip(1)[1] == r0[2]);
        }
        let ev = match b {
            0x04 => Event::ExtSetColor(
                match self.cursor.next() {
                    Some(p) => p,
                    None => {
                        return None;
                    },
                },
            ),
            0x0B => Event::ExtCmd0B(
                match self.cursor.next() {
                    Some(p) => p,
                    None => {
                        return None;
                    },
                },
            ),
            0x0C => Event::ExtCmd0C(
                match self.cursor.next() {
                    Some(p) => p,
                    None => {
                        return None;
                    },
                },
            ),
            0x06 => {
                let p1 = match self.cursor.next() {
                    Some(p) => p,
                    None => {
                        return None;
                    },
                };
                let p2 = match self.cursor.next() {
                    Some(p) => p,
                    None => {
                        return None;
                    },
                };
                proof {
                    assert(self.cursor.rem() =~= r0.skip(3));
                }
                Event::ExtCmd06(p1, p2)
            },
            0x14 => Event::ExtCmdUnk14(
                match self.cursor.next() {
                    Some(p) => p,
                    None => {
                        return None;
                    },
                },
            ),
            0x15 => Event::ExtCmdUnk15(
                match self.cursor.next() {
                    Some(p) => p,
                    None => {
                        return None;
                    },
                },
            ),
            0x1C => {
                let ev = match self.next_text_effect() {
                    Some(ev) => ev,
                    None => {
                        return None;
                    },
                };
                proof {
                    let k = text_effect_spec(r0.skip(1))->Some_0.1;
                    assert(r0.skip(1).skip(k) =~= r0.skip(1 + k));
                }
                ev
            },
            0x1D => Event::ExtCmd1D(
                match self.cursor.next() {
                    Some(p) => p,
                    None => {
                        return None;
                    },
                },
            ),
            0x1A => Event::ExtStoreColor,
            0x1B => Event::ExtLoadColor,
            0x1E => Event::ExtTextHoffset(
                match self.cursor.next() {
                    Some(p) => p,
                    None => {
                        return None;
                    },
                },
            ),
            0xFF => {
                let c2 = match self.cursor.next() {
                    Some(p) => p,
                    None => {
                        return None;
                    },
                };
                proof {
                    assert(self.cursor.rem() =~= r0.skip(2));
                }
                if c2 == 0x0B {
                    let v = match self.cursor.next() {
                        Some(p) => p,
                        None => {
                            return None;
                        },
                    };
                    proof {
                        assert(r0.skip(2)[0] == r0[2]);
                        assert(self.cursor.rem() =~= r0.skip(3));
                    }
                    Event::ExtExtVOffset(v)
                } else {
                    Event::UnkExtExtCmd(c2)
                }
            },
            etc => Event::UnkExtCmd(etc),
        };
        proof {
            assert(self.cursor.rem() =~= r0.skip(ext_event_spec(r0)->Some_0.1));
        }
        Some(ev)
    }

    /// Decodes the byte or bytes after a text-effect marker into one
    /// text-effect event, or `None` when the input ends first.
    pub fn next_text_effect(&mut self) -> (r: Option<Event>)
        requires
            old(self).wf(),
        ensures
            final(self).wf(),
            final(self).src() == old(self).src(),
            final(self).table() == old(self).table(),
            final(self).events() == old(self).events(),
            ({
                match text_effect_spec(old(self).rem()) {
                    Some((ev, k)) => r == Some(ev) && final(self).rem() == old(self).rem().skip(k),
                    None => r is None,
                }
            }),
            final(self).rem().len() <= old(self).rem().len(),
    {
        let ghost r0 = self.cursor.rem();
        let b = match self.cursor.next() {
            Some(b) => b,
            None => {
                return None;
            },
        };
        proof {
            assert(self.cursor.rem() =~= r0.skip(1));
            assert(r0.skip(1).len() > 0 ==> r0.skip(1)[0] == r0[1]);
        }
        let ev = match b {
            0x00 => Event::TextEffectShaky1,
            0x01 => Event::TextEffectWavy1,
            0x02 => Event::TextEffectDarkStar,
            0x03 => Event::TextEffectNoise(
                match self.cursor.next() {
                    Some(p) => p,
                    None => {
                        return None;
                    },
                },
            ),
            0x05 => Event::TextEffectShaky2(
                match self.cursor.next() {
                    Some(p) => p,
                    None => {
                        return None;
                    },
                },
            ),
            0x06 => Event::TextEffectRainbow1,
            0x07 => Event::TextEffectStar(
                match self.cursor.next() {
                    Some(p) => p,
                    None => {
                        return None;
                    },
                },
            ),
            0x08 => Event::TextEffectWavy2,
            0x09 => Event::TextEffectRainbow2,
            0x0A => Event::TextEffectBowserLaugh,
            0x0C => Event::TextEffectQuickPulse,
            0x0D => Event::TextEffectWavePulse,
            0x0E => Event::TextEffectShadow,
            etc => Event::UnkTextEffect(etc),
        };
        proof {
            assert(self.cursor.rem() =~= r0.skip(text_effect_spec(r0)->Some_0.1));
        }
        Some(ev)
    }
}

/// Decodes a raw on-screen buffer into its event sequence.
pub fn decode_events(raw: &[u8]) -> (r: Vec<Event>)
    ensures
        r@ == imm_decode(LookupTable::Kana, chunk_rev(raw@)),
{
    let cursor = Cursor::new(raw);
    let mut decoder = Decoder::new(cursor);
    proof {
        assert(Seq::<Event>::empty() + imm_decode(LookupTable::Kana, chunk_rev(raw@))
            =~= imm_decode(LookupTable::Kana, chunk_rev(raw@)));
    }
    let mut going = true;
    while going
        invariant
            decoder.wf(),
            imm_decode(LookupTable::Kana, chunk_rev(raw@)) == decoder.events() + (if going {
                imm_decode(decoder.table(), decoder.rem())
            } else {
                Seq::<Event>::empty()
            }),
        decreases decoder.rem().len(), if going {
            1int
        } else {
            0int
        },
    {
        let ghost t0 = decoder.table();
        let ghost r0 = decoder.rem();
        let ghost e0 = decoder.events();
        going = decoder.next().is_some();
        proof {
            match imm_step(t0, r0) {
                Some((evs, table2, k)) => {
                    assert(e0 + (evs + imm_decode(table2, r0.skip(k))) =~= (e0 + evs) + imm_decode(
                        table2,
                        r0.skip(k),
                    ));
                },
                None => {},
            }
        }
    }
    decoder.events
}

} // verus!
