//! OSC messages and packets as the display reads them, and the rules that turn
//! them into display events.
//!
//! Addresses live under `/sndwrks/hud/`:
//! `message/single <text> [color]`, `message/lines <text>... [color]`,
//! `message/flash <text> <number> [color]`, `clear`, `color <text>`,
//! `background <text>`, `fontsize <number>`.

use vstd::prelude::*;
use crate::color::{is_color, is_color_text, text_eq};
use crate::event::{HudEvent, HudEventView, Number, events_view, opt_event_view, texts_view};
use crate::float_cast::{f32_bits_as_u32, f32_bits_to_u32};

verus! {

/// One OSC argument, as far as the display reads it. An `f32` or `f64` is held
/// by its IEEE 754 bit pattern; every type the display never reads (blob, long,
/// time tag, char, color, MIDI, boolean, array, nil, infinitum) is `Other`.
#[derive(Clone, Debug)]
pub enum Arg {
    Int(i32),
    Float(u32),
    String(String),
    Double(u64),
    Other,
}

/// An OSC message: an address and its arguments.
#[derive(Clone, Debug)]
pub struct Message {
    pub addr: String,
    pub args: Vec<Arg>,
}

/// An OSC packet: a message, or a bundle of packets in the order they were sent.
#[derive(Debug)]
pub enum Packet {
    Message(Message),
    Bundle(Vec<Packet>),
}

/// The texts among the arguments, in order.
pub open spec fn strings_of(args: Seq<Arg>) -> Seq<Seq<char>>
    decreases args.len(),
{
    if args.len() == 0 {
        Seq::empty()
    } else {
        let rest = strings_of(args.drop_last());
        match args.last() {
            Arg::String(s) => rest.push(s@),
            _ => rest,
        }
    }
}

/// The number an argument carries, if it is an int, a float or a double.
pub open spec fn number_of(arg: Arg) -> Option<Number> {
    match arg {
        Arg::Float(b) => Some(Number::Float(b)),
        Arg::Double(b) => Some(Number::Double(b)),
        Arg::Int(i) => Some(Number::Int(i)),
        _ => None,
    }
}

/// `i as u32` for an `i32`: the same bits, so a negative value wraps by 2^32.
pub open spec fn i32_as_u32(i: i32) -> u32 {
    if i >= 0 {
        i as u32
    } else {
        (i + 0x1_0000_0000) as u32
    }
}

/// The font size an argument gives: an int cast to `u32`, or a float cast to
/// `u32`; nothing for any other argument.
pub open spec fn font_size_of(arg: Arg) -> Option<u32> {
    match arg {
        Arg::Int(i) => Some(i32_as_u32(i)),
        Arg::Float(b) => Some(f32_bits_as_u32(b)),
        _ => None,
    }
}

/// The optional trailing color of `single` and `lines`: the last text, if there
/// are at least two texts and the last is a color.
pub open spec fn trailing_color(strings: Seq<Seq<char>>) -> Option<Seq<char>> {
    if strings.len() >= 2 && is_color_text(strings.last()) {
        Some(strings.last())
    } else {
        None
    }
}

/// The color of a `flash`: its third argument, if it is a text that is a color.
pub open spec fn flash_color(args: Seq<Arg>) -> Option<Seq<char>> {
    if args.len() >= 3 {
        match args[2] {
            Arg::String(s) => if is_color_text(s@) {
                Some(s@)
            } else {
                None
            },
            _ => None,
        }
    } else {
        None
    }
}

/// The event a message with address `addr` and arguments `args` asks for, if any.
pub open spec fn message_event(addr: Seq<char>, args: Seq<Arg>) -> Option<HudEventView> {
    let strings = strings_of(args);
    if addr == "/sndwrks/hud/message/single"@ {
        if strings.len() == 0 {
            None
        } else {
            Some(HudEventView::Single { message: strings[0], color: trailing_color(strings) })
        }
    } else if addr == "/sndwrks/hud/message/lines"@ {
        if strings.len() == 0 {
            None
        } else if trailing_color(strings) is Some {
            Some(
                HudEventView::Lines {
                    messages: strings.drop_last(),
                    color: trailing_color(strings),
                },
            )
        } else {
            Some(HudEventView::Lines { messages: strings, color: None })
        }
    } else if addr == "/sndwrks/hud/message/flash"@ {
        if args.len() < 2 {
            None
        } else {
            match (args[0], number_of(args[1])) {
                (Arg::String(m), Some(d)) => Some(
                    HudEventView::Flash { message: m@, duration_s: d, color: flash_color(args) },
                ),
                _ => None,
            }
        }
    } else if addr == "/sndwrks/hud/clear"@ {
        Some(HudEventView::Clear)
    } else if addr == "/sndwrks/hud/color"@ {
        if strings.len() == 0 {
            None
        } else {
            Some(HudEventView::SetColor { color: strings[0] })
        }
    } else if addr == "/sndwrks/hud/background"@ {
        if strings.len() == 0 {
            None
        } else {
            Some(HudEventView::SetBackground { color: strings[0] })
        }
    } else if addr == "/sndwrks/hud/fontsize"@ {
        if args.len() == 0 {
            None
        } else {
            match font_size_of(args[0]) {
                Some(s) => Some(HudEventView::SetFontSize { size: s }),
                None => None,
            }
        }
    } else {
        None
    }
}

/// The texts among `args`, in order.
pub fn extract_strings(args: &[Arg]) -> (r: Vec<String>)
    ensures
        texts_view(r@) == strings_of(args@),
{
    let mut out: Vec<String> = Vec::new();
    let mut i: usize = 0;
    while i < args.len()
        invariant
            i <= args@.len(),
            texts_view(out@) == strings_of(args@.subrange(0, i as int)),
        decreases args.len() - i,
    {
        proof {
            assert(args@.subrange(0, i + 1).drop_last() =~= args@.subrange(0, i as int));
        }
        match &args[i] {
            Arg::String(s) => {
                out.push(s.clone());
                assert(texts_view(out@) =~= strings_of(args@.subrange(0, i as int)).push(s@));
            },
            _ => {},
        }
        i = i + 1;
    }
    assert(args@.subrange(0, args@.len() as int) =~= args@);
    out
}

/// The number an argument carries: a float, a double or an int; `None` for any
/// other argument.
pub fn extract_float(arg: &Arg) -> (r: Option<Number>)
    ensures
        r == number_of(*arg),
{
    match arg {
        Arg::Float(b) => Some(Number::Float(*b)),
        Arg::Double(b) => Some(Number::Double(*b)),
        Arg::Int(i) => Some(Number::Int(*i)),
        _ => None,
    }
}

/// The font size an argument gives (`i as u32` for an int, `f as u32` for a
/// float), or `None`.
pub fn extract_font_size(arg: &Arg) -> (r: Option<u32>)
    ensures
        r == font_size_of(*arg),
{
    match arg {
        Arg::Int(i) => {
            let i = *i;
            proof {
                assert(i < 0 ==> (i as u32) == i + 0x1_0000_0000) by (bit_vector);
            }
            Some(i as u32)
        },
        Arg::Float(b) => Some(f32_bits_to_u32(*b)),
        _ => None,
    }
}

/// The trailing color of a list of texts, as [`trailing_color`] describes.
fn trailing_color_of(strings: &Vec<String>) -> (r: Option<String>)
    ensures
        match r {
            Some(c) => trailing_color(texts_view(strings@)) == Some(c@),
            None => trailing_color(texts_view(strings@)) is None,
        },
{
    let n = strings.len();
    if n >= 2 && is_color(strings[n - 1].as_str()) {
        Some(strings[n - 1].clone())
    } else {
        None
    }
}

/// The display event that an OSC message asks for, or `None` where the address
/// is unknown or the arguments do not fit it.
pub fn parse_osc_message(msg: &Message) -> (r: Option<HudEvent>)
    ensures
        opt_event_view(r) == message_event(msg.addr@, msg.args@),
{
    let addr = msg.addr.as_str();
    if text_eq(addr, "/sndwrks/hud/message/single") {
        let strings = extract_strings(msg.args.as_slice());
        if strings.len() == 0 {
            return None;
        }
        let color = trailing_color_of(&strings);
        let message = strings[0].clone();
        return Some(HudEvent::Single { message, color });
    }
    if text_eq(addr, "/sndwrks/hud/message/lines") {
        let mut strings = extract_strings(msg.args.as_slice());
        if strings.len() == 0 {
            return None;
        }
        let color = trailing_color_of(&strings);
        if color.is_some() {
            let ghost before = strings@;
            strings.pop();
            assert(texts_view(strings@) =~= texts_view(before).drop_last());
        }
        return Some(HudEvent::Lines { messages: strings, color });
    }
    if text_eq(addr, "/sndwrks/hud/message/flash") {
        if msg.args.len() < 2 {
            return None;
        }
        let message = match &msg.args[0] {
            Arg::String(s) => s.clone(),
            _ => return None,
        };
        let duration_s = match extract_float(&msg.args[1]) {
            Some(d) => d,
            None => return None,
        };
        let color = if msg.args.len() >= 3 {
            match &msg.args[2] {
                Arg::String(s) => if is_color(s.as_str()) {
                    Some(s.clone())
                } else {
                    None
                },
                _ => None,
            }
        } else {
            None
        };
        return Some(HudEvent::Flash { message, duration_s, color });
    }
    if text_eq(addr, "/sndwrks/hud/clear") {
        return Some(HudEvent::Clear);
    }
    if text_eq(addr, "/sndwrks/hud/color") {
        let strings = extract_strings(msg.args.as_slice());
        if strings.len() == 0 {
            return None;
        }
        return Some(HudEvent::SetColor { color: strings[0].clone() });
    }
    if text_eq(addr, "/sndwrks/hud/background") {
        let strings = extract_strings(msg.args.as_slice());
        if strings.len() == 0 {
            return None;
        }
        return Some(HudEvent::SetBackground { color: strings[0].clone() });
    }
    if text_eq(addr, "/sndwrks/hud/fontsize") {
        if msg.args.len() == 0 {
            return None;
        }
        return match extract_font_size(&msg.args[0]) {
            Some(size) => Some(HudEvent::SetFontSize { size }),
            None => None,
        };
    }
    None
}

/// The events a packet asks for: a message's event, if it has one; for a bundle,
/// the events of its packets in order.
pub open spec fn packet_events(p: Packet) -> Seq<HudEventView>
    decreases p,
{
    match p {
        Packet::Message(m) => match message_event(m.addr@, m.args@) {
            Some(e) => seq![e],
            None => Seq::empty(),
        },
        Packet::Bundle(ps) => bundle_events(ps@),
    }
}

/// The events of a sequence of packets, in order.
pub open spec fn bundle_events(ps: Seq<Packet>) -> Seq<HudEventView>
    decreases ps,
{
    if ps.len() == 0 {
        Seq::empty()
    } else {
        bundle_events(ps.drop_last()) + packet_events(ps.last())
    }
}

fn push_packet_events(packet: &Packet, out: &mut Vec<HudEvent>)
    ensures
        events_view(final(out)@) == events_view(old(out)@) + packet_events(*packet),
    decreases packet,
{
    match packet {
        Packet::Message(m) => {
            let ghost before = out@;
            match parse_osc_message(m) {
                Some(e) => {
                    out.push(e);
                    assert(events_view(out@) =~= events_view(before) + packet_events(*packet));
                },
                None => {
                    assert(events_view(out@) =~= events_view(before) + packet_events(*packet));
                },
            }
        },
        Packet::Bundle(ps) => {
            let ghost start = out@;
            let mut i: usize = 0;
            while i < ps.len()
                invariant
                    *packet == Packet::Bundle(*ps),
                    i <= ps@.len(),
                    events_view(out@) == events_view(start) + bundle_events(ps@.subrange(0, i as int)),
                decreases ps.len() - i,
            {
                let ghost mid = out@;
                proof {
                    assert(decreases_to!(*packet => ps@[i as int])) by {
                        assert(decreases_to!(*packet => packet->Bundle_0));
                        assert(decreases_to!(*ps => ps@));
                        assert(decreases_to!(ps@ => ps@[i as int]));
                    }
                }
                push_packet_events(&ps[i], out);
                proof {
                    let pre = ps@.subrange(0, i as int);
                    let next = ps@.subrange(0, i + 1);
                    assert(next.drop_last() =~= pre);
                    assert(next.last() == ps@[i as int]);
                    assert(events_view(out@) =~= events_view(start) + bundle_events(next));
                }
                i = i + 1;
            }
            assert(ps@.subrange(0, ps@.len() as int) =~= ps@);
        },
    }
}

/// The events a packet asks for, in order: a message's event, if it has one; a
/// bundle's packets one after another.
pub fn handle_packet(packet: &Packet) -> (r: Vec<HudEvent>)
    ensures
        events_view(r@) == packet_events(*packet),
{
    let mut out: Vec<HudEvent> = Vec::new();
    push_packet_events(packet, &mut out);
    assert(events_view(out@) =~= packet_events(*packet));
    out
}

/// The display's own addresses.
pub open spec fn is_hud_address(addr: Seq<char>) -> bool {
    ||| addr == "/sndwrks/hud/message/single"@
    ||| addr == "/sndwrks/hud/message/lines"@
    ||| addr == "/sndwrks/hud/message/flash"@
    ||| addr == "/sndwrks/hud/clear"@
    ||| addr == "/sndwrks/hud/color"@
    ||| addr == "/sndwrks/hud/background"@
    ||| addr == "/sndwrks/hud/fontsize"@
}

proof fn lemma_address_lengths()
    ensures
        "/sndwrks/hud/message/single"@.len() == 27,
        "/sndwrks/hud/message/lines"@.len() == 26,
        "/sndwrks/hud/message/flash"@.len() == 26,
        "/sndwrks/hud/clear"@.len() == 18,
        "/sndwrks/hud/color"@.len() == 18,
        "/sndwrks/hud/background"@.len() == 23,
        "/sndwrks/hud/fontsize"@.len() == 21,
        "/sndwrks/hud/message/lines"@ != "/sndwrks/hud/message/flash"@,
        "/sndwrks/hud/clear"@ != "/sndwrks/hud/color"@,
{
    reveal_strlit("/sndwrks/hud/message/single");
    reveal_strlit("/sndwrks/hud/message/lines");
    reveal_strlit("/sndwrks/hud/message/flash");
    reveal_strlit("/sndwrks/hud/clear");
    reveal_strlit("/sndwrks/hud/color");
    reveal_strlit("/sndwrks/hud/background");
    reveal_strlit("/sndwrks/hud/fontsize");
    assert("/sndwrks/hud/message/lines"@[21] != "/sndwrks/hud/message/flash"@[21]);
    assert("/sndwrks/hud/clear"@[14] != "/sndwrks/hud/color"@[14]);
}

/// A message to any other address asks for nothing, whatever its arguments.
pub proof fn law_unknown_addresses_are_ignored(addr: Seq<char>, args: Seq<Arg>)
    requires
        !is_hud_address(addr),
    ensures
        message_event(addr, args) is None,
{
}

/// `clear` clears the display whatever arguments come with it.
pub proof fn law_clear_ignores_arguments(args: Seq<Arg>)
    ensures
        message_event("/sndwrks/hud/clear"@, args) == Some(HudEventView::Clear),
{
    lemma_address_lengths();
}

/// `lines` loses no text: its lines followed by its color (where one is taken)
/// are the message's texts in order; the last text is taken as the color only
/// when there are at least two texts and it is a color; with no text there is
/// no event.
pub proof fn law_lines_keep_every_text(args: Seq<Arg>)
    ensures
        match message_event("/sndwrks/hud/message/lines"@, args) {
            Some(HudEventView::Lines { messages, color: Some(c) }) => {
                &&& messages.push(c) == strings_of(args)
                &&& messages.len() >= 1
                &&& is_color_text(c)
            },
            Some(HudEventView::Lines { messages, color: None }) => {
                &&& messages == strings_of(args)
                &&& messages.len() >= 1
                &&& !(messages.len() >= 2 && is_color_text(messages.last()))
            },
            None => strings_of(args).len() == 0,
            _ => false,
        },
{
    lemma_address_lengths();
    let strings = strings_of(args);
    if strings.len() >= 2 && is_color_text(strings.last()) {
        assert(strings.drop_last().push(strings.last()) =~= strings);
    }
}

/// No arguments hold no texts.
pub proof fn law_no_arguments_no_texts()
    ensures
        strings_of(Seq::<Arg>::empty()) == Seq::<Seq<char>>::empty(),
{
}

/// A text argument adds its text after the texts before it: every text is kept,
/// in order.
pub proof fn law_text_argument_is_kept(args: Seq<Arg>, s: String)
    ensures
        strings_of(args.push(Arg::String(s))) == strings_of(args).push(s@),
{
    assert(args.push(Arg::String(s)).drop_last() =~= args);
}

/// Any other argument adds no text.
pub proof fn law_other_argument_adds_no_text(args: Seq<Arg>, a: Arg)
    requires
        !(a is String),
    ensures
        strings_of(args.push(a)) == strings_of(args),
{
    assert(args.push(a).drop_last() =~= args);
}

/// There are as many texts as text arguments, at most one per argument.
pub proof fn law_texts_at_most_arguments(args: Seq<Arg>)
    ensures
        strings_of(args).len() <= args.len(),
    decreases args.len(),
{
    if args.len() > 0 {
        law_texts_at_most_arguments(args.drop_last());
    }
}

/// The numbers an argument gives: an int, a float or a double as it is, and
/// nothing for any other argument.
pub proof fn law_numbers_are_ints_floats_doubles(a: Arg)
    ensures
        match a {
            Arg::Int(i) => number_of(a) == Some(Number::Int(i)),
            Arg::Float(b) => number_of(a) == Some(Number::Float(b)),
            Arg::Double(b) => number_of(a) == Some(Number::Double(b)),
            _ => number_of(a) is None,
        },
{
}

/// `single` shows the first text; its color is the last text exactly when there
/// are at least two texts and the last is a color; with no text there is no event.
pub proof fn law_single_shows_first_text(args: Seq<Arg>)
    ensures
        ({
            let st = strings_of(args);
            message_event("/sndwrks/hud/message/single"@, args) == if st.len() == 0 {
                None
            } else {
                Some(
                    HudEventView::Single {
                        message: st[0],
                        color: if st.len() >= 2 && is_color_text(st[st.len() - 1]) {
                            Some(st[st.len() - 1])
                        } else {
                            None
                        },
                    },
                )
            }
        }),
{
}

/// `flash` needs a text then a number: it shows the text for that duration,
/// and its color is the third argument exactly when that is a text that is a
/// color; anything else gives no event.
pub proof fn law_flash_reads_text_number_color(args: Seq<Arg>)
    ensures
        ({
            let color = if args.len() >= 3 && args[2] is String && is_color_text(
                args[2]->String_0@,
            ) {
                Some(args[2]->String_0@)
            } else {
                None
            };
            message_event("/sndwrks/hud/message/flash"@, args) == if args.len() >= 2 {
                match (args[0], args[1]) {
                    (Arg::String(m), Arg::Int(i)) => Some(
                        HudEventView::Flash { message: m@, duration_s: Number::Int(i), color },
                    ),
                    (Arg::String(m), Arg::Float(b)) => Some(
                        HudEventView::Flash { message: m@, duration_s: Number::Float(b), color },
                    ),
                    (Arg::String(m), Arg::Double(b)) => Some(
                        HudEventView::Flash { message: m@, duration_s: Number::Double(b), color },
                    ),
                    _ => None,
                }
            } else {
                None
            }
        }),
{
    lemma_address_lengths();
}

/// `color` passes on the first text, whatever it is; with no text there is no
/// event.
pub proof fn law_color_takes_first_text(args: Seq<Arg>)
    ensures
        message_event("/sndwrks/hud/color"@, args) == if strings_of(args).len() == 0 {
            None
        } else {
            Some(HudEventView::SetColor { color: strings_of(args)[0] })
        },
{
    lemma_address_lengths();
}

/// `background` passes on the first text, whatever it is (no color check); with
/// no text there is no event.
pub proof fn law_background_takes_first_text(args: Seq<Arg>)
    ensures
        message_event("/sndwrks/hud/background"@, args) == if strings_of(args).len() == 0 {
            None
        } else {
            Some(HudEventView::SetBackground { color: strings_of(args)[0] })
        },
{
    lemma_address_lengths();
}

/// `fontsize` reads its first argument: an int as `i as u32` (a negative value
/// wraps by 2^32), a float as `f as u32`; anything else gives no event.
pub proof fn law_fontsize_reads_first_argument(args: Seq<Arg>)
    ensures
        message_event("/sndwrks/hud/fontsize"@, args) == if args.len() == 0 {
            None
        } else {
            match args[0] {
                Arg::Int(i) => Some(
                    HudEventView::SetFontSize {
                        size: if i >= 0 {
                            i as u32
                        } else {
                            (i + 0x1_0000_0000) as u32
                        },
                    },
                ),
                Arg::Float(b) => Some(HudEventView::SetFontSize { size: f32_bits_as_u32(b) }),
                _ => None,
            }
        },
{
    lemma_address_lengths();
}

/// The events of packets one after another are the events of the first packets
/// followed by those of the rest: a bundle keeps the order of what it holds.
pub proof fn law_bundle_events_concatenate(a: Seq<Packet>, b: Seq<Packet>)
    ensures
        bundle_events(a + b) == bundle_events(a) + bundle_events(b),
    decreases b.len(),
{
    if b.len() == 0 {
        assert(a + b =~= a);
        assert(bundle_events(b) =~= Seq::<HudEventView>::empty());
        assert(bundle_events(a) + bundle_events(b) =~= bundle_events(a));
    } else {
        law_bundle_events_concatenate(a, b.drop_last());
        assert((a + b).drop_last() =~= a + b.drop_last());
        assert((a + b).last() == b.last());
        assert(bundle_events(a) + bundle_events(b) =~= bundle_events(a) + bundle_events(b.drop_last()) + packet_events(b.last()));
    }
}

/// A bundle asks for what its packets ask for, in order: for two packets, the
/// events of the first and then those of the second.
pub proof fn law_bundle_of_two(p: Packet, q: Packet)
    ensures
        bundle_events(seq![p, q]) == packet_events(p) + packet_events(q),
{
    law_bundle_events_concatenate(seq![p], seq![q]);
    assert(seq![p] + seq![q] =~= seq![p, q]);
    assert(seq![p].drop_last() =~= Seq::<Packet>::empty());
    assert(seq![q].drop_last() =~= Seq::<Packet>::empty());
    assert(bundle_events(Seq::<Packet>::empty()) =~= Seq::<HudEventView>::empty());
    assert(seq![p].last() == p);
    assert(seq![q].last() == q);
    assert(bundle_events(seq![p]) =~= packet_events(p));
    assert(bundle_events(seq![q]) =~= packet_events(q));
}

} // verus!
