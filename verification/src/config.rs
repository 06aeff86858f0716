//! The configuration of the overlay: its defaults, and the colours that are
//! written in it as hexadecimal text.

use crate::canvas::Color;
use vstd::prelude::*;
use vstd::string::*;

verus! {

/// The value of one hexadecimal digit, given as an ASCII byte of either case.
pub open spec fn hex_digit(byte: u8) -> Option<int> {
    if 0x30 <= byte <= 0x39 {
        Some(byte - 0x30)
    } else if 0x61 <= byte <= 0x66 {
        Some(byte - 0x61 + 10)
    } else if 0x41 <= byte <= 0x46 {
        Some(byte - 0x41 + 10)
    } else {
        None
    }
}

/// The channel written as the two digits at `at` and `at + 1`.
pub open spec fn hex_channel(bytes: Seq<u8>, at: int) -> Option<u8> {
    match (hex_digit(bytes[at]), hex_digit(bytes[at + 1])) {
        (Some(high), Some(low)) => Some((16 * high + low) as u8),
        _ => None,
    }
}

/// The colour that a text stands for, or why it stands for none.
///
/// A colour is `#`, then two hexadecimal digits each for red, green and blue,
/// and optionally two more for alpha; without them the colour is opaque.
pub open spec fn hex_color(bytes: Seq<u8>) -> Result<Color, Seq<char>> {
    if bytes.len() == 0 || bytes[0] != 0x23 {
        Err("Invalid hex"@)
    } else if bytes.len() != 7 && bytes.len() != 9 {
        Err("Invalid color"@)
    } else {
        let alpha = if bytes.len() == 9 {
            hex_channel(bytes, 7)
        } else {
            Some(255u8)
        };
        match (hex_channel(bytes, 1), hex_channel(bytes, 3), hex_channel(bytes, 5), alpha) {
            (Some(r), Some(g), Some(b), Some(a)) => Ok(Color { r, g, b, a }),
            _ => Err("invalid digit found in string"@),
        }
    }
}

/// The colour that a text stands for, read as the bytes of its UTF-8 form.
pub open spec fn text_color(text: Seq<char>) -> Result<Color, Seq<char>> {
    hex_color(vstd::utf8::encode_utf8(text))
}

fn digit_value(byte: u8) -> (d: Option<u8>)
    ensures
        match d {
            Some(v) => hex_digit(byte) == Some(v as int) && v < 16,
            None => hex_digit(byte) is None,
        },
{
    if 0x30 <= byte && byte <= 0x39 {
        Some(byte - 0x30)
    } else if 0x61 <= byte && byte <= 0x66 {
        Some(byte - 0x61 + 10)
    } else if 0x41 <= byte && byte <= 0x46 {
        Some(byte - 0x41 + 10)
    } else {
        None
    }
}

fn channel_at(bytes: &[u8], at: usize) -> (c: Option<u8>)
    requires
        at + 1 < bytes@.len(),
    ensures
        c == hex_channel(bytes@, at as int),
{
    match (digit_value(bytes[at]), digit_value(bytes[at + 1])) {
        (Some(high), Some(low)) => Some(16 * high + low),
        _ => None,
    }
}

/// Reads a colour written as `#RRGGBB` or `#RRGGBBAA`.
pub fn parse_hex(s: &str) -> (r: Result<Color, String>)
    ensures
        match r {
            Ok(c) => text_color(s@) == Ok::<Color, Seq<char>>(c),
            Err(e) => text_color(s@) == Err::<Color, Seq<char>>(e@),
        },
{
    let bytes = s.as_bytes();
    if bytes.len() == 0 || bytes[0] != 0x23 {
        return Err("Invalid hex".to_string());
    }
    let n = bytes.len() - 1;
    if n != 6 && n != 8 {
        return Err("Invalid color".to_string());
    }
    let alpha = if n == 8 {
        channel_at(bytes, 7)
    } else {
        Some(255u8)
    };
    match (channel_at(bytes, 1), channel_at(bytes, 3), channel_at(bytes, 5), alpha) {
        (Some(r), Some(g), Some(b), Some(a)) => Ok(Color::rgba(r, g, b, a)),
        _ => Err("invalid digit found in string".to_string()),
    }
}

/// Side of a key's tile, in pixels.
pub fn def_key_size() -> (size: u32)
    ensures
        size == 100,
{
    100
}

/// Thickness of a tile's border, in pixels.
pub fn def_key_border_width() -> (width: u32)
    ensures
        width == 8,
{
    8
}

/// Names of the keys that are watched, left to right.
pub fn def_key_codes() -> (codes: Vec<String>)
    ensures
        codes.deep_view() == seq!["Z"@, "X"@],
{
    let mut codes: Vec<String> = Vec::new();
    codes.push("Z".to_string());
    codes.push("X".to_string());
    codes
}

/// Height of the window, in pixels.
pub fn def_height() -> (height: u32)
    ensures
        height == 800,
{
    800
}

/// File that the glyphs are taken from.
pub fn def_font_path() -> (path: String)
    ensures
        path@ == "Montserrat-Bold.ttf"@,
{
    "Montserrat-Bold.ttf".to_string()
}

/// Colour of the borders and glyphs: white.
pub fn def_border_color() -> (c: Color)
    ensures
        c == (Color { r: 255, g: 255, b: 255, a: 255 }),
{
    Color::rgb(255, 255, 255)
}

/// The border colour as it is written in a configuration.
pub fn def_border_color_hex() -> (text: String)
    ensures
        text@ == "#ffffff"@,
{
    "#ffffff".to_string()
}

/// Colour of pressed tiles and of bars: a middle grey.
pub fn def_tile_color() -> (c: Color)
    ensures
        c == (Color { r: 100, g: 100, b: 100, a: 255 }),
{
    Color::rgb(100, 100, 100)
}

/// The tile colour as it is written in a configuration.
pub fn def_tile_color_hex() -> (text: String)
    ensures
        text@ == "#646464"@,
{
    "#646464".to_string()
}

/// The window that the overlay is shown in.
#[derive(Debug)]
pub struct WindowConf {
    /// Height in pixels.
    pub height: u32,
    /// File that the glyphs are taken from.
    pub font_path: String,
}

/// The tiles: their size, border, keys and colours.
#[derive(Debug)]
pub struct KeyConf {
    /// Side of a tile, in pixels.
    pub size: u32,
    /// Thickness of a tile's border, in pixels.
    pub border_width: u32,
    /// Names of the watched keys, left to right.
    pub codes: Vec<String>,
    /// Colour of borders and glyphs. `Config::new` reads it from
    /// `border_color_hex`.
    pub border_color: Color,
    /// Colour of pressed tiles and of bars. `Config::new` reads it from
    /// `tile_color_hex`.
    pub tile_color: Color,
    /// The border colour as written: `#RRGGBB` or `#RRGGBBAA`.
    pub border_color_hex: String,
    /// The tile colour as written: `#RRGGBB` or `#RRGGBBAA`.
    pub tile_color_hex: String,
}

/// The whole configuration. How fast the bars scroll is not part of it: the
/// functions that move bars take the distance of a frame in whole pixels.
#[derive(Debug)]
pub struct Config {
    pub window: WindowConf,
    pub key: KeyConf,
}

/// What a `WindowConf` holds.
pub struct WindowConfView {
    pub height: nat,
    pub font_path: Seq<char>,
}

/// What a `KeyConf` holds.
pub struct KeyConfView {
    pub size: nat,
    pub border_width: nat,
    pub codes: Seq<Seq<char>>,
    pub border_color: Color,
    pub tile_color: Color,
    pub border_color_hex: Seq<char>,
    pub tile_color_hex: Seq<char>,
}

/// What a `Config` holds.
pub struct ConfigView {
    pub window: WindowConfView,
    pub key: KeyConfView,
}

impl View for WindowConf {
    type V = WindowConfView;

    open spec fn view(&self) -> WindowConfView {
        WindowConfView { height: self.height as nat, font_path: self.font_path@ }
    }
}

impl View for KeyConf {
    type V = KeyConfView;

    open spec fn view(&self) -> KeyConfView {
        KeyConfView {
            size: self.size as nat,
            border_width: self.border_width as nat,
            codes: self.codes.deep_view(),
            border_color: self.border_color,
            tile_color: self.tile_color,
            border_color_hex: self.border_color_hex@,
            tile_color_hex: self.tile_color_hex@,
        }
    }
}

impl View for Config {
    type V = ConfigView;

    open spec fn view(&self) -> ConfigView {
        ConfigView { window: self.window@, key: self.key@ }
    }
}

impl WindowConfView {
    /// The window of a configuration that says nothing about it.
    pub open spec fn default() -> WindowConfView {
        WindowConfView { height: 800, font_path: "Montserrat-Bold.ttf"@ }
    }
}

impl KeyConfView {
    /// The tiles of a configuration that says nothing about them.
    pub open spec fn default() -> KeyConfView {
        KeyConfView {
            size: 100,
            border_width: 8,
            codes: seq!["Z"@, "X"@],
            border_color: Color { r: 255, g: 255, b: 255, a: 255 },
            tile_color: Color { r: 100, g: 100, b: 100, a: 255 },
            border_color_hex: "#ffffff"@,
            tile_color_hex: "#646464"@,
        }
    }

    /// The same tiles with both colours read from their texts. A text that
    /// is no colour gives white for the border and grey for the tiles.
    pub open spec fn with_colors(self) -> KeyConfView {
        KeyConfView {
            border_color: match text_color(self.border_color_hex) {
                Ok(c) => c,
                Err(_) => Color { r: 255, g: 255, b: 255, a: 255 },
            },
            tile_color: match text_color(self.tile_color_hex) {
                Ok(c) => c,
                Err(_) => Color { r: 100, g: 100, b: 100, a: 255 },
            },
            ..self
        }
    }
}

impl ConfigView {
    /// The configuration that is used where none is given.
    pub open spec fn default() -> ConfigView {
        ConfigView { window: WindowConfView::default(), key: KeyConfView::default() }
    }

    /// The same configuration with both colours read from their texts.
    pub open spec fn with_colors(self) -> ConfigView {
        ConfigView { window: self.window, key: self.key.with_colors() }
    }
}

/// The default colour texts stand for the default colours, so reading the
/// colours of the default configuration changes nothing.
pub proof fn lemma_default_colors_agree()
    ensures
        text_color("#ffffff"@) == Ok::<Color, Seq<char>>(Color { r: 255, g: 255, b: 255, a: 255 }),
        text_color("#646464"@) == Ok::<Color, Seq<char>>(Color { r: 100, g: 100, b: 100, a: 255 }),
        ConfigView::default().with_colors() == ConfigView::default(),
{
    reveal_strlit("#ffffff");
    reveal_strlit("#646464");
    vstd::utf8::is_ascii_chars_encode_utf8("#ffffff"@);
    vstd::utf8::is_ascii_chars_encode_utf8("#646464"@);
}

impl Default for WindowConf {
    fn default() -> (conf: WindowConf)
        ensures
            conf@ == WindowConfView::default(),
    {
        WindowConf { height: def_height(), font_path: def_font_path() }
    }
}

impl Default for KeyConf {
    fn default() -> (conf: KeyConf)
        ensures
            conf@ == KeyConfView::default(),
    {
        KeyConf {
            border_color: def_border_color(),
            border_color_hex: "#ffffff".to_string(),
            tile_color: def_tile_color(),
            tile_color_hex: "#646464".to_string(),
            size: def_key_size(),
            border_width: def_key_border_width(),
            codes: def_key_codes(),
        }
    }
}

impl Default for Config {
    fn default() -> (conf: Config)
        ensures
            conf@ == ConfigView::default(),
    {
        Config { window: WindowConf::default(), key: KeyConf::default() }
    }
}

impl Clone for WindowConf {
    fn clone(&self) -> (copy: WindowConf)
        ensures
            copy@ == self@,
    {
        WindowConf { height: self.height, font_path: self.font_path.clone() }
    }
}

impl Clone for KeyConf {
    fn clone(&self) -> (copy: KeyConf)
        ensures
            copy@ == self@,
    {
        KeyConf {
            size: self.size,
            border_width: self.border_width,
            codes: self.codes.clone(),
            border_color: self.border_color,
            tile_color: self.tile_color,
            border_color_hex: self.border_color_hex.clone(),
            tile_color_hex: self.tile_color_hex.clone(),
        }
    }
}

impl Clone for Config {
    fn clone(&self) -> (copy: Config)
        ensures
            copy@ == self@,
    {
        Config { window: self.window.clone(), key: self.key.clone() }
    }
}

/// What came of looking for a configuration file.
#[derive(Debug)]
pub enum Source {
    /// There is no such file.
    Missing,
    /// The file is there and could not be read as a configuration; the text
    /// says why.
    Malformed(String),
    /// The configuration that the file holds, its colours still unread.
    Parsed(Config),
}

/// What `Config::new` makes of a colour text: the colour, or `fallback`.
fn color_or(text: &str, fallback: Color) -> (c: Color)
    ensures
        c == match text_color(text@) {
            Ok(color) => color,
            Err(_) => fallback,
        },
{
    match parse_hex(text) {
        Ok(color) => color,
        Err(_) => fallback,
    }
}

impl Config {
    /// The result of `Config::new` on `source`: an error for a malformed
    /// file, else the configuration read or the default one, its colours
    /// read from their texts.
    pub open spec fn loaded(source: Source) -> Result<ConfigView, Seq<char>> {
        match source {
            Source::Missing => Ok(ConfigView::default().with_colors()),
            Source::Malformed(reason) => Err("Unable to parse config: "@ + reason@),
            Source::Parsed(config) => Ok(config@.with_colors()),
        }
    }

    /// The configuration to run with. A missing file gives the defaults, a
    /// malformed one is an error. Each colour is read from its text; a text
    /// that is no colour is not an error, that colour is then the default.
    pub fn new(source: Source) -> (r: Result<Config, String>)
        ensures
            match r {
                Ok(config) => Config::loaded(source) == Ok::<ConfigView, Seq<char>>(config@),
                Err(message) => Config::loaded(source) == Err::<ConfigView, Seq<char>>(message@),
            },
    {
        let mut config = match source {
            Source::Missing => Config::default(),
            Source::Malformed(reason) => {
                let message = "Unable to parse config: ".to_string().concat(reason.as_str());
                return Err(message);
            },
            Source::Parsed(config) => config,
        };
        config.key.border_color = color_or(
            config.key.border_color_hex.as_str(),
            def_border_color(),
        );
        config.key.tile_color = color_or(config.key.tile_color_hex.as_str(), def_tile_color());
        Ok(config)
    }
}

} // verus!
