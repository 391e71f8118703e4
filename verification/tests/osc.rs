use sndwrks_hud::event::{HudEvent, Number};
use sndwrks_hud::osc::{
    extract_float, extract_font_size, extract_strings, handle_packet, parse_osc_message, Arg,
    Message, Packet,
};

fn msg(addr: &str, args: Vec<Arg>) -> Message {
    Message { addr: addr.to_string(), args }
}

fn s(text: &str) -> Arg {
    Arg::String(text.to_string())
}

fn f(x: f32) -> Arg {
    Arg::Float(x.to_bits())
}

// ── extract_strings ──

#[test]
fn extract_strings_mixed_types() {
    let args = vec![s("hello"), Arg::Int(42), s("world"), f(1.0)];
    assert_eq!(extract_strings(&args), vec!["hello", "world"]);
}

#[test]
fn extract_strings_empty() {
    assert!(extract_strings(&[]).is_empty());
}

// ── extract_float ──

#[test]
fn extract_float_from_float() {
    assert_eq!(extract_float(&f(1.5)), Some(Number::Float(1.5f32.to_bits())));
}

#[test]
fn extract_float_from_double() {
    assert_eq!(extract_float(&Arg::Double(2.5f64.to_bits())), Some(Number::Double(2.5f64.to_bits())));
}

#[test]
fn extract_float_from_int() {
    assert_eq!(extract_float(&Arg::Int(3)), Some(Number::Int(3)));
}

#[test]
fn extract_float_from_string() {
    assert_eq!(extract_float(&s("x")), None);
}

// ── /sndwrks/hud/message/single ──

#[test]
fn single_one_string() {
    let m = msg("/sndwrks/hud/message/single", vec![s("Hello")]);
    assert_eq!(
        parse_osc_message(&m),
        Some(HudEvent::Single { message: "Hello".into(), color: None })
    );
}

#[test]
fn single_with_color() {
    let m = msg("/sndwrks/hud/message/single", vec![s("STANDBY"), s("red")]);
    assert_eq!(
        parse_osc_message(&m),
        Some(HudEvent::Single { message: "STANDBY".into(), color: Some("red".into()) })
    );
}

#[test]
fn single_second_arg_not_color() {
    let m = msg("/sndwrks/hud/message/single", vec![s("Hello"), s("notacolor")]);
    assert_eq!(
        parse_osc_message(&m),
        Some(HudEvent::Single { message: "Hello".into(), color: None })
    );
}

#[test]
fn single_no_strings() {
    let m = msg("/sndwrks/hud/message/single", vec![Arg::Int(42)]);
    assert_eq!(parse_osc_message(&m), None);
}

#[test]
fn single_color_is_the_last_text() {
    let m = msg("/sndwrks/hud/message/single", vec![s("A"), Arg::Int(1), s("B"), s("#0f0")]);
    assert_eq!(
        parse_osc_message(&m),
        Some(HudEvent::Single { message: "A".into(), color: Some("#0f0".into()) })
    );
}

#[test]
fn single_lone_color_name_is_the_message() {
    let m = msg("/sndwrks/hud/message/single", vec![s("red")]);
    assert_eq!(
        parse_osc_message(&m),
        Some(HudEvent::Single { message: "red".into(), color: None })
    );
}

// ── /sndwrks/hud/message/lines ──

#[test]
fn lines_multiple_strings() {
    let m = msg("/sndwrks/hud/message/lines", vec![s("Line 1"), s("Line 2"), s("Line 3")]);
    assert_eq!(
        parse_osc_message(&m),
        Some(HudEvent::Lines {
            messages: vec!["Line 1".into(), "Line 2".into(), "Line 3".into()],
            color: None,
        })
    );
}

#[test]
fn lines_with_color() {
    let m = msg("/sndwrks/hud/message/lines", vec![s("ACT II"), s("Scene 3"), s("yellow")]);
    assert_eq!(
        parse_osc_message(&m),
        Some(HudEvent::Lines {
            messages: vec!["ACT II".into(), "Scene 3".into()],
            color: Some("yellow".into()),
        })
    );
}

#[test]
fn lines_single_string() {
    let m = msg("/sndwrks/hud/message/lines", vec![s("Solo")]);
    assert_eq!(
        parse_osc_message(&m),
        Some(HudEvent::Lines { messages: vec!["Solo".into()], color: None })
    );
}

#[test]
fn lines_empty() {
    let m = msg("/sndwrks/hud/message/lines", vec![]);
    assert_eq!(parse_osc_message(&m), None);
}

// ── /sndwrks/hud/message/flash ──

#[test]
fn flash_string_and_float() {
    let m = msg("/sndwrks/hud/message/flash", vec![s("GO"), f(2.0)]);
    assert_eq!(
        parse_osc_message(&m),
        Some(HudEvent::Flash {
            message: "GO".into(),
            duration_s: Number::Float(2.0f32.to_bits()),
            color: None
        })
    );
}

#[test]
fn flash_with_color() {
    let m = msg("/sndwrks/hud/message/flash", vec![s("GO"), f(1.5), s("red")]);
    assert_eq!(
        parse_osc_message(&m),
        Some(HudEvent::Flash {
            message: "GO".into(),
            duration_s: Number::Float(1.5f32.to_bits()),
            color: Some("red".into()),
        })
    );
}

#[test]
fn flash_with_non_color_third_arg() {
    let m = msg("/sndwrks/hud/message/flash", vec![s("GO"), f(1.0), s("notacolor")]);
    assert_eq!(
        parse_osc_message(&m),
        Some(HudEvent::Flash {
            message: "GO".into(),
            duration_s: Number::Float(1.0f32.to_bits()),
            color: None
        })
    );
}

#[test]
fn flash_int_duration() {
    let m = msg("/sndwrks/hud/message/flash", vec![s("GO"), Arg::Int(3)]);
    assert_eq!(
        parse_osc_message(&m),
        Some(HudEvent::Flash { message: "GO".into(), duration_s: Number::Int(3), color: None })
    );
}

#[test]
fn flash_double_duration() {
    let m = msg("/sndwrks/hud/message/flash", vec![s("GO"), Arg::Double(0.25f64.to_bits()), Arg::Int(7)]);
    assert_eq!(
        parse_osc_message(&m),
        Some(HudEvent::Flash {
            message: "GO".into(),
            duration_s: Number::Double(0.25f64.to_bits()),
            color: None
        })
    );
}

#[test]
fn flash_too_few_args() {
    let m = msg("/sndwrks/hud/message/flash", vec![s("GO")]);
    assert_eq!(parse_osc_message(&m), None);
}

#[test]
fn flash_first_arg_not_string() {
    let m = msg("/sndwrks/hud/message/flash", vec![Arg::Int(1), f(1.0)]);
    assert_eq!(parse_osc_message(&m), None);
}

#[test]
fn flash_second_arg_not_number() {
    let m = msg("/sndwrks/hud/message/flash", vec![s("GO"), s("2.0")]);
    assert_eq!(parse_osc_message(&m), None);
}

// ── /sndwrks/hud/clear ──

#[test]
fn clear() {
    let m = msg("/sndwrks/hud/clear", vec![]);
    assert_eq!(parse_osc_message(&m), Some(HudEvent::Clear));
}

#[test]
fn clear_with_args() {
    let m = msg("/sndwrks/hud/clear", vec![Arg::Int(1)]);
    assert_eq!(parse_osc_message(&m), Some(HudEvent::Clear));
}

// ── /sndwrks/hud/color ──

#[test]
fn set_color() {
    let m = msg("/sndwrks/hud/color", vec![s("#ff0000")]);
    assert_eq!(parse_osc_message(&m), Some(HudEvent::SetColor { color: "#ff0000".into() }));
}

#[test]
fn set_color_no_args() {
    let m = msg("/sndwrks/hud/color", vec![]);
    assert_eq!(parse_osc_message(&m), None);
}

#[test]
fn set_color_takes_first_text_unchecked() {
    let m = msg("/sndwrks/hud/color", vec![Arg::Int(5), s("not a color"), s("red")]);
    assert_eq!(parse_osc_message(&m), Some(HudEvent::SetColor { color: "not a color".into() }));
}

// ── /sndwrks/hud/background ──

#[test]
fn set_background() {
    let m = msg("/sndwrks/hud/background", vec![s("blue")]);
    assert_eq!(parse_osc_message(&m), Some(HudEvent::SetBackground { color: "blue".into() }));
}

#[test]
fn set_background_no_args() {
    let m = msg("/sndwrks/hud/background", vec![]);
    assert_eq!(parse_osc_message(&m), None);
}

// ── /sndwrks/hud/fontsize ──

#[test]
fn set_fontsize_int() {
    let m = msg("/sndwrks/hud/fontsize", vec![Arg::Int(48)]);
    assert_eq!(parse_osc_message(&m), Some(HudEvent::SetFontSize { size: 48 }));
}

#[test]
fn set_fontsize_float() {
    let m = msg("/sndwrks/hud/fontsize", vec![f(72.0)]);
    assert_eq!(parse_osc_message(&m), Some(HudEvent::SetFontSize { size: 72 }));
}

#[test]
fn set_fontsize_no_args() {
    let m = msg("/sndwrks/hud/fontsize", vec![]);
    assert_eq!(parse_osc_message(&m), None);
}

#[test]
fn set_fontsize_string_arg() {
    let m = msg("/sndwrks/hud/fontsize", vec![s("big")]);
    assert_eq!(parse_osc_message(&m), None);
}

#[test]
fn set_fontsize_double_arg() {
    let m = msg("/sndwrks/hud/fontsize", vec![Arg::Double(12.0f64.to_bits())]);
    assert_eq!(parse_osc_message(&m), None);
}

#[test]
fn fontsize_casts_like_as_u32() {
    assert_eq!(extract_font_size(&Arg::Int(-1)), Some(u32::MAX));
    assert_eq!(extract_font_size(&Arg::Int(-48)), Some((-48i32) as u32));
    assert_eq!(extract_font_size(&f(-3.5)), Some(0));
    assert_eq!(extract_font_size(&f(12.9)), Some(12));
    assert_eq!(extract_font_size(&f(1e12)), Some(u32::MAX));
    assert_eq!(extract_font_size(&f(f32::NAN)), Some(0));
    assert_eq!(extract_font_size(&s("1")), None);
}

// ── unknown address ──

#[test]
fn unknown_address() {
    let m = msg("/unknown/address", vec![s("hi")]);
    assert_eq!(parse_osc_message(&m), None);
}

#[test]
fn address_must_match_exactly() {
    assert_eq!(parse_osc_message(&msg("/sndwrks/hud/clear/", vec![])), None);
    assert_eq!(parse_osc_message(&msg("/SNDWRKS/hud/clear", vec![])), None);
}

// ── packets and bundles ──

#[test]
fn bundle_events_in_order() {
    let inner = Packet::Bundle(vec![
        Packet::Message(msg("/sndwrks/hud/color", vec![s("red")])),
        Packet::Message(msg("/unknown", vec![])),
    ]);
    let p = Packet::Bundle(vec![
        Packet::Message(msg("/sndwrks/hud/clear", vec![])),
        inner,
        Packet::Message(msg("/sndwrks/hud/fontsize", vec![Arg::Int(10)])),
    ]);
    assert_eq!(
        handle_packet(&p),
        vec![
            HudEvent::Clear,
            HudEvent::SetColor { color: "red".into() },
            HudEvent::SetFontSize { size: 10 },
        ]
    );
}

#[test]
fn message_packet_without_event() {
    assert!(handle_packet(&Packet::Message(msg("/sndwrks/hud/lines", vec![s("x")]))).is_empty());
    assert!(handle_packet(&Packet::Bundle(vec![])).is_empty());
}
