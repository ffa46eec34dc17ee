//! String renderer for the full-text event sequence.
//!
//! `to_string` renders every event up to the first `End`; the
//! `to_string_nth_bubble` variant renders only the events of one bubble,
//! counting bubbles by `NextBubble` markers.  The rendering of a single event
//! is specified by `event_chars`, of a whole stream by `render` and
//! `render_nth`.

use core::ops::ControlFlow;

use vstd::prelude::*;

use crate::charsets::Button;
use crate::extcmd::ExtCmd;
use crate::primary::{style_err, translate, translate_spec, views_of, Ev, Event};
use crate::text::{dec_u8, hex_pair, push_char, push_dec, push_hex};

verus! {

/// The bracketed glyph string of a button.
pub open spec fn button_chars(b: Button) -> Seq<char> {
    match b {
        Button::A => "[A]"@,
        Button::B => "[B]"@,
        Button::Start => "[START]"@,
        Button::CDown => "[C\u{2B07}]"@,
        Button::CLeft => "[C\u{25C0}]"@,
        Button::Z => "[Z]"@,
    }
}

/// What an extended command renders as: the registered commands are silent,
/// an unknown command renders as an inline placeholder naming its id.
pub open spec fn ext_cmd_chars(c: ExtCmd) -> Seq<char> {
    match c {
        ExtCmd::Unknown(u) => " ( Unknown(0x"@ + hex_pair(u.0) + ") ) "@,
        _ => Seq::empty(),
    }
}

/// The text one event contributes to the rendering.
pub open spec fn event_chars(e: Ev) -> Seq<char> {
    match e {
        Ev::StyleChange(_) => Seq::empty(),
        Ev::Space => seq!['\u{3000}'],
        Ev::Dialog(t) => t,
        Ev::End => Seq::empty(),
        Ev::Linebreak => seq!['\n'],
        Ev::Delay(_) => Seq::empty(),
        Ev::Bell => Seq::empty(),
        Ev::NextBubble => "\u{2B50}\n"@,
        Ev::Sparkly => Seq::empty(),
        Ev::ButtonRef { button, rawcode } => match button {
            Some(bt) => button_chars(bt),
            None => "{buttonref:"@ + hex_pair(rawcode) + "}"@,
        },
        Ev::ExtCmd(c) => ext_cmd_chars(c),
        Ev::ExtCmdError { id, argc, args_got } => "[extcmd_error] id: 0x"@ + hex_pair(id)
            + ", argc: "@ + dec_u8(argc) + ", got: "@ + dec_u8(args_got),
    }
}

/// The rendering of an event stream: every event's text in order, stopping
/// at the first `End`.
pub open spec fn render(evs: Seq<Ev>) -> Seq<char>
    decreases evs.len(),
{
    if evs.len() == 0 {
        Seq::empty()
    } else if evs[0] is End {
        Seq::empty()
    } else {
        event_chars(evs[0]) + render(evs.skip(1))
    }
}

/// The rendering of the bubble with index `target` alone, with `cur` the
/// index of the bubble the stream currently stands in.  Inside the target
/// bubble a `NextBubble` or an `End` ends the rendering; outside it only
/// `NextBubble` markers count.
pub open spec fn render_nth(evs: Seq<Ev>, target: int, cur: int) -> Seq<char>
    decreases evs.len(),
{
    if evs.len() == 0 {
        Seq::empty()
    } else if cur == target {
        if evs[0] is NextBubble {
            Seq::empty()
        } else if evs[0] is End {
            Seq::empty()
        } else {
            event_chars(evs[0]) + render_nth(evs.skip(1), target, cur)
        }
    } else {
        if evs[0] is NextBubble {
            render_nth(evs.skip(1), target, cur + 1)
        } else {
            render_nth(evs.skip(1), target, cur)
        }
    }
}

pub(crate) fn button_str(b: &Button) -> (r: &'static str)
    ensures
        r@ == button_chars(*b),
{
    match b {
        Button::A => "[A]",
        Button::B => "[B]",
        Button::Start => "[START]",
        Button::CDown => "[C\u{2B07}]",
        Button::CLeft => "[C\u{25C0}]",
        Button::Z => "[Z]",
    }
}

/// Appends one event's rendering to `s`; `Break` reports that the event was
/// the `End` marker and rendering must stop.
pub fn write_event_string(event: &Event, s: &mut String) -> (flow: ControlFlow<()>)
    ensures
        flow is Break <==> event@ is End,
        final(s)@ == old(s)@ + event_chars(event@),
{
    match event {
        Event::StyleChange(_) => {
            proof {
                assert(old(s)@ + event_chars(event@) =~= old(s)@);
            }
        },
        Event::Space => {
            push_char(s, '\u{3000}');
            proof {
                assert(s@ =~= old(s)@ + event_chars(event@));
            }
        },
        Event::Dialog(t) => {
            s.append(t.as_str());
        },
        Event::End => {
            proof {
                assert(old(s)@ + event_chars(event@) =~= old(s)@);
            }
            return ControlFlow::Break(());
        },
        Event::Linebreak => {
            push_char(s, '\n');
            proof {
                assert(s@ =~= old(s)@ + event_chars(event@));
            }
        },
        Event::Delay(_) => {
            proof {
                assert(old(s)@ + event_chars(event@) =~= old(s)@);
            }
        },
        Event::Bell => {
            proof {
                assert(old(s)@ + event_chars(event@) =~= old(s)@);
            }
        },
        Event::ButtonRef { button, rawcode } => {
            match button {
                Some(bt) => {
                    s.append(button_str(bt));
                },
                None => {
                    s.append("{buttonref:");
                    push_hex(s, *rawcode);
                    s.append("}");
                    proof {
                        assert(s@ =~= old(s)@ + event_chars(event@));
                    }
                },
            }
        },
        Event::NextBubble => {
            s.append("\u{2B50}\n");
        },
        Event::Sparkly => {
            proof {
                assert(old(s)@ + event_chars(event@) =~= old(s)@);
            }
        },
        Event::ExtCmd(cmd) => {
            match cmd {
                ExtCmd::Unknown(u) => {
                    s.append(" ( Unknown(0x");
                    push_hex(s, u.0);
                    s.append(") ) ");
                    proof {
                        assert(s@ =~= old(s)@ + event_chars(event@));
                    }
                },
                _ => {
                    proof {
                        assert(old(s)@ + event_chars(event@) =~= old(s)@);
                    }
                },
            }
        },
        Event::ExtCmdError { id, argc, args_got } => {
            s.append("[extcmd_error] id: 0x");
            push_hex(s, *id);
            s.append(", argc: ");
            push_dec(s, *argc);
            s.append(", got: ");
            push_dec(s, *args_got);
            proof {
                assert(s@ =~= old(s)@ + event_chars(event@));
            }
        },
    }
    ControlFlow::Continue(())
}

/// Decodes a raw dialog buffer and renders its whole text, up to the first
/// end marker.  Fails exactly when the buffer holds an unrecognized style
/// byte, with a message naming it.
pub fn to_string(raw: &[u8]) -> (r: Result<String, String>)
    ensures
        r is Ok <==> translate_spec(raw@) is Ok,
        r is Ok ==> r->Ok_0@ == render(translate_spec(raw@)->Ok_0),
        r is Err ==> r->Err_0@ == style_err(translate_spec(raw@)->Err_0),
{
    let events = match translate(raw) {
        Ok(events) => events,
        Err(e) => {
            return Err(e);
        },
    };
    let ghost evs = views_of(events@);
    let mut s = String::new();
    let mut i: usize = 0;
    proof {
        assert(evs.skip(0) =~= evs);
        assert(Seq::<char>::empty() + render(evs) =~= render(evs));
    }
    while i < events.len()
        invariant_except_break
            i <= events.len(),
            evs == views_of(events@),
            evs.len() == events.len(),
            render(evs) == s@ + render(evs.skip(i as int)),
        ensures
            s@ == render(evs),
        decreases events.len() - i,
    {
        let ghost i0 = i as int;
        let flow = write_event_string(&events[i], &mut s);
        proof {
            assert(events[i0]@ == evs[i0]);
            assert(evs.skip(i0)[0] == evs[i0]);
        }
        if let ControlFlow::Break(_) = flow {
            break ;
        }
        i = i + 1;
        proof {
            assert(evs.skip(i0).skip(1) =~= evs.skip(i0 + 1));
        }
    }
    Ok(s)
}

/// Decodes a raw dialog buffer and renders only the bubble with the given
/// zero-based index; bubbles are delimited by `NextBubble` markers.
pub fn to_string_nth_bubble(raw: &[u8], bubble_idx: u8) -> (r: Result<String, String>)
    ensures
        r is Ok <==> translate_spec(raw@) is Ok,
        r is Ok ==> r->Ok_0@ == render_nth(translate_spec(raw@)->Ok_0, bubble_idx as int, 0),
        r is Err ==> r->Err_0@ == style_err(translate_spec(raw@)->Err_0),
{
    let events = match translate(raw) {
        Ok(events) => events,
        Err(e) => {
            return Err(e);
        },
    };
    let ghost evs = views_of(events@);
    let mut s = String::new();
    let mut current_idx: u8 = 0;
    let mut i: usize = 0;
    proof {
        assert(evs.skip(0) =~= evs);
        assert(Seq::<char>::empty() + render_nth(evs, bubble_idx as int, 0) =~= render_nth(
            evs,
            bubble_idx as int,
            0,
        ));
    }
    while i < events.len()
        invariant_except_break
            i <= events.len(),
            current_idx <= bubble_idx,
            evs == views_of(events@),
            evs.len() == events.len(),
            translate_spec(raw@) == Ok::<Seq<Ev>, u8>(evs),
            render_nth(evs, bubble_idx as int, 0) == s@ + render_nth(
                evs.skip(i as int),
                bubble_idx as int,
                current_idx as int,
            ),
        ensures
            s@ == render_nth(evs, bubble_idx as int, 0),
        decreases events.len() - i,
    {
        let ghost i0 = i as int;
        proof {
            assert(events[i0]@ == evs[i0]);
            assert(evs.skip(i0)[0] == evs[i0]);
            assert(evs.skip(i0).skip(1) =~= evs.skip(i0 + 1));
        }
        if bubble_idx == current_idx {
            if let Event::NextBubble = &events[i] {
                return Ok(s);
            }
            let flow = write_event_string(&events[i], &mut s);
            if let ControlFlow::Break(_) = flow {
                break ;
            }
        } else {
            if let Event::NextBubble = &events[i] {
                current_idx = current_idx + 1;
            }
        }
        i = i + 1;
    }
    Ok(s)
}

/// On a stream without bubble breaks the whole text belongs to bubble zero:
/// rendering bubble zero gives the full rendering, and rendering any later
/// bubble gives the empty string.
pub proof fn lemma_render_nth_without_breaks(evs: Seq<Ev>, k: int)
    requires
        forall|i: int| 0 <= i < evs.len() ==> !(#[trigger] evs[i] is NextBubble),
    ensures
        render_nth(evs, 0, 0) == render(evs),
        k != 0 ==> render_nth(evs, k, 0) == Seq::<char>::empty(),
{
    lemma_render_nth_without_breaks_aux(evs, 0, 0);
    lemma_render_nth_without_breaks_aux(evs, k, 0);
}

proof fn lemma_render_nth_without_breaks_aux(evs: Seq<Ev>, target: int, cur: int)
    requires
        forall|i: int| 0 <= i < evs.len() ==> !(#[trigger] evs[i] is NextBubble),
    ensures
        cur == target ==> render_nth(evs, target, cur) == render(evs),
        cur != target ==> render_nth(evs, target, cur) == Seq::<char>::empty(),
    decreases evs.len(),
{
    if evs.len() == 0 {
    } else {
        assert forall|i: int| 0 <= i < evs.skip(1).len() implies !(#[trigger] evs.skip(1)[i]
            is NextBubble) by {
            assert(evs.skip(1)[i] == evs[i + 1]);
        }
        lemma_render_nth_without_breaks_aux(evs.skip(1), target, cur);
    }
}

} // verus!
