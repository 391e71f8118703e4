//! The display events that OSC messages turn into.

use vstd::prelude::*;
use crate::f32_bits::{f32_bits_eq, number_to_f32_bits, same_f32};

verus! {

/// A numeric OSC argument, kept as it arrived: an `f32` or an `f64` by its IEEE
/// 754 bit pattern, or an `i32`. The display reads it as an `f32`, and two
/// numbers are `==` when the `f32`s they stand for are.
#[derive(Clone, Copy, Debug)]
pub enum Number {
    Float(u32),
    Double(u64),
    Int(i32),
}

/// What the display is told to do.
#[derive(Clone, Debug)]
pub enum HudEvent {
    /// Show one message, in `color` where one is given.
    Single { message: String, color: Option<String> },
    /// Show several messages as stacked lines.
    Lines { messages: Vec<String>, color: Option<String> },
    /// Show a message and flash the background for `duration_s` seconds.
    Flash { message: String, duration_s: Number, color: Option<String> },
    /// Clear the display.
    Clear,
    /// Change the default text color.
    SetColor { color: String },
    /// Change the background color.
    SetBackground { color: String },
    /// Set a fixed font size.
    SetFontSize { size: u32 },
}

/// The mathematical form of a [`HudEvent`]: texts as character sequences.
pub enum HudEventView {
    Single { message: Seq<char>, color: Option<Seq<char>> },
    Lines { messages: Seq<Seq<char>>, color: Option<Seq<char>> },
    Flash { message: Seq<char>, duration_s: Number, color: Option<Seq<char>> },
    Clear,
    SetColor { color: Seq<char> },
    SetBackground { color: Seq<char> },
    SetFontSize { size: u32 },
}

/// The characters of each text of a sequence.
pub open spec fn texts_view(v: Seq<String>) -> Seq<Seq<char>> {
    v.map_values(|s: String| s@)
}

/// The characters of an optional text.
pub open spec fn opt_text_view(o: Option<String>) -> Option<Seq<char>> {
    match o {
        Some(s) => Some(s@),
        None => None,
    }
}

impl View for HudEvent {
    type V = HudEventView;

    open spec fn view(&self) -> HudEventView {
        match self {
            HudEvent::Single { message, color } => HudEventView::Single {
                message: message@,
                color: opt_text_view(*color),
            },
            HudEvent::Lines { messages, color } => HudEventView::Lines {
                messages: texts_view(messages@),
                color: opt_text_view(*color),
            },
            HudEvent::Flash { message, duration_s, color } => HudEventView::Flash {
                message: message@,
                duration_s: *duration_s,
                color: opt_text_view(*color),
            },
            HudEvent::Clear => HudEventView::Clear,
            HudEvent::SetColor { color } => HudEventView::SetColor { color: color@ },
            HudEvent::SetBackground { color } => HudEventView::SetBackground { color: color@ },
            HudEvent::SetFontSize { size } => HudEventView::SetFontSize { size: *size },
        }
    }
}

/// The view of an optional event.
pub open spec fn opt_event_view(o: Option<HudEvent>) -> Option<HudEventView> {
    match o {
        Some(e) => Some(e@),
        None => None,
    }
}

/// Two events are `==`: the same kind with equal fields, a flash's durations
/// compared as the `f32`s they stand for.
pub open spec fn same_event(a: HudEventView, b: HudEventView) -> bool {
    match (a, b) {
        (
            HudEventView::Flash { message: m1, duration_s: d1, color: c1 },
            HudEventView::Flash { message: m2, duration_s: d2, color: c2 },
        ) => m1 == m2 && same_f32(d1, d2) && c1 == c2,
        _ => a == b,
    }
}

/// The views of a sequence of events.
pub open spec fn events_view(v: Seq<HudEvent>) -> Seq<HudEventView> {
    v.map_values(|e: HudEvent| e@)
}

fn opt_text_eq(a: &Option<String>, b: &Option<String>) -> (r: bool)
    ensures
        r == (opt_text_view(*a) == opt_text_view(*b)),
{
    match (a, b) {
        (Some(x), Some(y)) => *x == *y,
        (None, None) => true,
        _ => false,
    }
}

fn texts_eq(a: &Vec<String>, b: &Vec<String>) -> (r: bool)
    ensures
        r == (texts_view(a@) == texts_view(b@)),
{
    if a.len() != b.len() {
        assert(texts_view(a@).len() != texts_view(b@).len());
        return false;
    }
    let mut i: usize = 0;
    while i < a.len()
        invariant
            a.len() == b.len(),
            i <= a.len(),
            forall|j: int| 0 <= j < i ==> a@[j]@ == b@[j]@,
        decreases a.len() - i,
    {
        if a[i] != b[i] {
            assert(texts_view(a@)[i as int] != texts_view(b@)[i as int]);
            return false;
        }
        i = i + 1;
    }
    assert(texts_view(a@) =~= texts_view(b@));
    true
}

impl PartialEq for HudEvent {
    fn eq(&self, other: &HudEvent) -> (r: bool) {
        match (self, other) {
            (
                HudEvent::Single { message: m1, color: c1 },
                HudEvent::Single { message: m2, color: c2 },
            ) => *m1 == *m2 && opt_text_eq(c1, c2),
            (
                HudEvent::Lines { messages: m1, color: c1 },
                HudEvent::Lines { messages: m2, color: c2 },
            ) => texts_eq(m1, m2) && opt_text_eq(c1, c2),
            (
                HudEvent::Flash { message: m1, duration_s: d1, color: c1 },
                HudEvent::Flash { message: m2, duration_s: d2, color: c2 },
            ) => *m1 == *m2 && *d1 == *d2 && opt_text_eq(c1, c2),
            (HudEvent::Clear, HudEvent::Clear) => true,
            (HudEvent::SetColor { color: c1 }, HudEvent::SetColor { color: c2 }) => *c1 == *c2,
            (HudEvent::SetBackground { color: c1 }, HudEvent::SetBackground { color: c2 }) => *c1
                == *c2,
            (HudEvent::SetFontSize { size: s1 }, HudEvent::SetFontSize { size: s2 }) => *s1 == *s2,
            _ => false,
        }
    }
}

impl vstd::std_specs::cmp::PartialEqSpecImpl for HudEvent {
    open spec fn obeys_eq_spec() -> bool {
        true
    }

    open spec fn eq_spec(&self, other: &HudEvent) -> bool {
        same_event(self@, other@)
    }
}

impl PartialEq for Number {
    fn eq(&self, other: &Number) -> (r: bool) {
        f32_bits_eq(number_to_f32_bits(*self), number_to_f32_bits(*other))
    }
}

impl vstd::std_specs::cmp::PartialEqSpecImpl for Number {
    open spec fn obeys_eq_spec() -> bool {
        true
    }

    open spec fn eq_spec(&self, other: &Number) -> bool {
        same_f32(*self, *other)
    }
}

} // verus!
