use sndwrks_hud::config::{AppConfig, Settings};
use std::path::PathBuf;

#[test]
fn default_settings_values() {
    let s = Settings::default();
    assert_eq!(s.udp_port, 52100);
    assert_eq!(s.tcp_port, 52101);
    assert_eq!(s.hud_width, 800);
    assert_eq!(s.hud_height, 300);
    assert_eq!(s.default_text_color, "white");
    assert!(!s.always_on_top);
    assert!(s.auto_fit_font);
    assert_eq!(s.fixed_font_size, 72);
    assert_eq!(s.hud_x, None);
    assert_eq!(s.hud_y, None);
}

fn custom() -> Settings {
    Settings {
        udp_port: 9999,
        tcp_port: 8888,
        hud_width: 1024,
        hud_height: 768,
        default_text_color: "red".to_string(),
        always_on_top: true,
        auto_fit_font: false,
        fixed_font_size: 48,
        hud_x: Some(100),
        hud_y: Some(200),
    }
}

#[test]
fn app_config_new_dir_creates_defaults() {
    let config = AppConfig::from_loaded(PathBuf::from("test-config/settings.json"), None);
    assert_eq!(config.settings, Settings::default());
    assert_eq!(config.config_path, PathBuf::from("test-config/settings.json"));
}

#[test]
fn loaded_settings_are_kept() {
    let config = AppConfig::from_loaded(PathBuf::from("settings.json"), Some(custom()));
    assert_eq!(config.settings, custom());
}

#[test]
fn save_from_form_keeps_window_geometry() {
    let mut current = custom();
    let mut incoming = Settings::default();
    incoming.udp_port = 12345;
    incoming.default_text_color = "green".to_string();
    incoming.always_on_top = true;
    incoming.hud_x = Some(-5);
    incoming.hud_width = 10;
    let on_top = current.replace_keeping_geometry(incoming);
    assert!(on_top);
    assert_eq!(current.udp_port, 12345);
    assert_eq!(current.tcp_port, 52101);
    assert_eq!(current.default_text_color, "green");
    assert!(current.auto_fit_font);
    assert_eq!(current.fixed_font_size, 72);
    assert_eq!(current.hud_x, Some(100));
    assert_eq!(current.hud_y, Some(200));
    assert_eq!(current.hud_width, 1024);
    assert_eq!(current.hud_height, 768);
}

#[test]
fn second_save_wins() {
    let mut once = custom();
    let mut twice = custom();
    let mut first = Settings::default();
    first.udp_port = 1;
    let mut second = Settings::default();
    second.udp_port = 2;
    second.fixed_font_size = 20;
    twice.replace_keeping_geometry(first);
    twice.replace_keeping_geometry(second.clone());
    once.replace_keeping_geometry(second);
    assert_eq!(once, twice);
}

#[test]
fn moves_and_resizes_are_recorded() {
    let mut s = Settings::default();
    assert_eq!(s.saved_position(), None);
    s.record_position(-20, 40);
    assert_eq!(s.saved_position(), Some((-20, 40)));
    s.record_size(640, 480);
    assert_eq!((s.hud_width, s.hud_height), (640, 480));
    let mut t = Settings::default();
    t.record_size(640, 480);
    t.record_position(-20, 40);
    assert_eq!(s, t);
}

#[test]
fn half_saved_position_is_no_position() {
    let mut s = Settings::default();
    s.hud_x = Some(3);
    assert_eq!(s.saved_position(), None);
}

#[test]
fn listener_ports_are_udp_then_tcp() {
    assert_eq!(Settings::default().listener_ports(), (52100, 52101));
    assert_eq!(custom().listener_ports(), (9999, 8888));
}

#[test]
fn settings_equality_compares_every_field() {
    let mut a = custom();
    assert_eq!(a, custom());
    a.default_text_color = "Red".to_string();
    assert_ne!(a, custom());
    let mut b = custom();
    b.hud_y = None;
    assert_ne!(b, custom());
}
