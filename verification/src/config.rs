//! The display's persisted settings and how they change: defaults, an update
//! from the settings form (which never touches the window's geometry), and the
//! window's own moves and resizes.

use vstd::prelude::*;

verus! {

/// `std::path::PathBuf`, carried opaquely as the place the settings are stored.
#[verifier::external_type_specification]
#[verifier::external_body]
pub struct ExPathBuf(std::path::PathBuf);

/// The display's settings.
#[derive(Clone, Debug)]
pub struct Settings {
    pub udp_port: u16,
    pub tcp_port: u16,
    pub hud_width: u32,
    pub hud_height: u32,
    pub default_text_color: String,
    pub always_on_top: bool,
    pub auto_fit_font: bool,
    pub fixed_font_size: u32,
    pub hud_x: Option<i32>,
    pub hud_y: Option<i32>,
}

/// The default settings: ports 52100 (UDP) and 52101 (TCP), an 800 by 300 window
/// at no saved position, white text, not always on top, font fitted to the
/// window, a fixed font size of 72.
pub open spec fn is_default_settings(s: Settings) -> bool {
    &&& s.udp_port == 52100
    &&& s.tcp_port == 52101
    &&& s.hud_width == 800
    &&& s.hud_height == 300
    &&& s.default_text_color@ == "white"@
    &&& !s.always_on_top
    &&& s.auto_fit_font
    &&& s.fixed_font_size == 72
    &&& s.hud_x is None
    &&& s.hud_y is None
}

/// Two settings are the same: every field equal, the color by its characters.
pub open spec fn same_settings(a: Settings, b: Settings) -> bool {
    &&& a.udp_port == b.udp_port
    &&& a.tcp_port == b.tcp_port
    &&& a.hud_width == b.hud_width
    &&& a.hud_height == b.hud_height
    &&& a.default_text_color@ == b.default_text_color@
    &&& a.always_on_top == b.always_on_top
    &&& a.auto_fit_font == b.auto_fit_font
    &&& a.fixed_font_size == b.fixed_font_size
    &&& a.hud_x == b.hud_x
    &&& a.hud_y == b.hud_y
}

/// The settings `incoming` with the window geometry (position and size) of
/// `current`: what a save from the settings form leaves in place.
pub open spec fn keep_geometry(current: Settings, incoming: Settings) -> Settings {
    Settings {
        hud_x: current.hud_x,
        hud_y: current.hud_y,
        hud_width: current.hud_width,
        hud_height: current.hud_height,
        ..incoming
    }
}

/// The saved window position, where both coordinates are saved.
pub open spec fn position_of(s: Settings) -> Option<(i32, i32)> {
    match (s.hud_x, s.hud_y) {
        (Some(x), Some(y)) => Some((x, y)),
        _ => None,
    }
}

/// The settings after the window moved to `(x, y)`.
pub open spec fn moved(s: Settings, x: i32, y: i32) -> Settings {
    Settings { hud_x: Some(x), hud_y: Some(y), ..s }
}

/// The settings after the window was resized to `width` by `height`.
pub open spec fn resized(s: Settings, width: u32, height: u32) -> Settings {
    Settings { hud_width: width, hud_height: height, ..s }
}

impl Default for Settings {
    fn default() -> (r: Settings)
        ensures
            is_default_settings(r),
    {
        Settings {
            udp_port: 52100,
            tcp_port: 52101,
            hud_width: 800,
            hud_height: 300,
            default_text_color: "white".to_string(),
            always_on_top: false,
            auto_fit_font: true,
            fixed_font_size: 72,
            hud_x: None,
            hud_y: None,
        }
    }
}

impl PartialEq for Settings {
    fn eq(&self, other: &Settings) -> (r: bool) {
        self.udp_port == other.udp_port && self.tcp_port == other.tcp_port && self.hud_width
            == other.hud_width && self.hud_height == other.hud_height && self.default_text_color
            == other.default_text_color && self.always_on_top == other.always_on_top
            && self.auto_fit_font == other.auto_fit_font && self.fixed_font_size
            == other.fixed_font_size && self.hud_x == other.hud_x && self.hud_y == other.hud_y
    }
}

impl vstd::std_specs::cmp::PartialEqSpecImpl for Settings {
    open spec fn obeys_eq_spec() -> bool {
        true
    }

    open spec fn eq_spec(&self, other: &Settings) -> bool {
        same_settings(*self, *other)
    }
}

impl Settings {
    /// Takes the settings of a save from the settings form, keeping the window's
    /// current position and size (the form does not own them); returns the new
    /// always-on-top choice, which the caller applies to the window.
    pub fn replace_keeping_geometry(&mut self, incoming: Settings) -> (always_on_top: bool)
        ensures
            *final(self) == keep_geometry(*old(self), incoming),
            always_on_top == incoming.always_on_top,
    {
        let saved_x = self.hud_x;
        let saved_y = self.hud_y;
        let saved_width = self.hud_width;
        let saved_height = self.hud_height;
        *self = incoming;
        self.hud_x = saved_x;
        self.hud_y = saved_y;
        self.hud_width = saved_width;
        self.hud_height = saved_height;
        self.always_on_top
    }

    /// Records where the window was moved to.
    pub fn record_position(&mut self, x: i32, y: i32)
        ensures
            *final(self) == moved(*old(self), x, y),
    {
        self.hud_x = Some(x);
        self.hud_y = Some(y);
    }

    /// Records the window's new size.
    pub fn record_size(&mut self, width: u32, height: u32)
        ensures
            *final(self) == resized(*old(self), width, height),
    {
        self.hud_width = width;
        self.hud_height = height;
    }

    /// The saved window position, where both coordinates are saved.
    pub fn saved_position(&self) -> (r: Option<(i32, i32)>)
        ensures
            r == position_of(*self),
    {
        match (self.hud_x, self.hud_y) {
            (Some(x), Some(y)) => Some((x, y)),
            _ => None,
        }
    }

    /// The ports the OSC listeners should use: (UDP, TCP).
    pub fn listener_ports(&self) -> (r: (u16, u16))
        ensures
            r == (self.udp_port, self.tcp_port),
    {
        (self.udp_port, self.tcp_port)
    }
}

/// The settings, with the place they are stored.
pub struct AppConfig {
    pub settings: Settings,
    pub config_path: std::path::PathBuf,
}

impl AppConfig {
    /// A configuration stored at `config_path`, holding the settings loaded from
    /// there, or the defaults where none could be loaded (no file, an unreadable
    /// file, or one that does not parse).
    pub fn from_loaded(config_path: std::path::PathBuf, loaded: Option<Settings>) -> (r: AppConfig)
        ensures
            r.config_path == config_path,
            match loaded {
                Some(s) => r.settings == s,
                None => is_default_settings(r.settings),
            },
    {
        let settings = match loaded {
            Some(s) => s,
            None => Settings::default(),
        };
        AppConfig { settings, config_path }
    }
}

/// Saving from the settings form twice is saving the second form once: the
/// window geometry stays that of the settings before either save.
pub proof fn law_second_save_wins(current: Settings, first: Settings, second: Settings)
    ensures
        keep_geometry(keep_geometry(current, first), second) == keep_geometry(current, second),
{
}

/// A save from the settings form neither moves nor resizes the window, and
/// takes every other setting from the form.
pub proof fn law_save_keeps_window(current: Settings, incoming: Settings)
    ensures
        position_of(keep_geometry(current, incoming)) == position_of(current),
        keep_geometry(current, incoming).hud_width == current.hud_width,
        keep_geometry(current, incoming).hud_height == current.hud_height,
        keep_geometry(current, incoming).udp_port == incoming.udp_port,
        keep_geometry(current, incoming).tcp_port == incoming.tcp_port,
        keep_geometry(current, incoming).default_text_color == incoming.default_text_color,
        keep_geometry(current, incoming).always_on_top == incoming.always_on_top,
        keep_geometry(current, incoming).auto_fit_font == incoming.auto_fit_font,
        keep_geometry(current, incoming).fixed_font_size == incoming.fixed_font_size,
{
}

/// After a move the saved position is where the window went.
pub proof fn law_moved_position_is_saved(s: Settings, x: i32, y: i32)
    ensures
        position_of(moved(s, x, y)) == Some((x, y)),
{
}

/// Moves and resizes are recorded independently: their order does not matter.
pub proof fn law_move_and_resize_commute(s: Settings, x: i32, y: i32, width: u32, height: u32)
    ensures
        moved(resized(s, width, height), x, y) == resized(moved(s, x, y), width, height),
{
}

} // verus!
