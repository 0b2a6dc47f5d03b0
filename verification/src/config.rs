use crate::color::{pack_argb, Color};
use vstd::prelude::*;
use vstd::std_specs::convert::FromSpec;

verus! {

/// A colour as it is written in the configuration file.
#[derive(Clone, Copy, Debug, Eq, PartialEq, Structural)]
pub struct ConfigColor {
    data: u32,
}

impl ConfigColor {
    /// The packed `0xAARRGGBB` value.
    pub closed spec fn value(self) -> u32 {
        self.data
    }
}

impl From<ConfigColor> for Color {
    fn from(value: ConfigColor) -> (c: Self) {
        Color { data: value.data }
    }
}

impl vstd::std_specs::convert::FromSpecImpl<ConfigColor> for Color {
    open spec fn obeys_from_spec() -> bool {
        true
    }

    open spec fn from_spec(v: ConfigColor) -> Color {
        Color { data: v.value() }
    }
}

impl From<Color> for ConfigColor {
    fn from(value: Color) -> (c: Self) {
        ConfigColor { data: value.data }
    }
}

impl vstd::std_specs::convert::FromSpecImpl<Color> for ConfigColor {
    open spec fn obeys_from_spec() -> bool {
        true
    }

    closed spec fn from_spec(v: Color) -> ConfigColor {
        ConfigColor { data: v.data }
    }
}

/// Converting a colour to a configuration colour and back keeps its value.
pub proof fn lemma_config_color_round_trip(c: Color)
    ensures
        ConfigColor::from_spec(c).value() == c.data,
        Color::from_spec(ConfigColor::from_spec(c)) == c,
{
}

/// The configuration of the display server: the images of the cursors and of
/// the window decorations, and the colours of the user interface.
#[derive(Clone)]
pub struct Config {
    pub cursor: String,
    pub bottom_left_corner: String,
    pub bottom_right_corner: String,
    pub bottom_side: String,
    pub left_side: String,
    pub right_side: String,
    pub window_max: String,
    pub window_max_unfocused: String,
    pub window_close: String,
    pub window_close_unfocused: String,
    pub background_color: ConfigColor,
    pub bar_color: ConfigColor,
    pub bar_highlight_color: ConfigColor,
    pub text_color: ConfigColor,
    pub text_highlight_color: ConfigColor,
}

/// Opaque black.
pub fn background_color_default() -> (c: ConfigColor)
    ensures
        c.value() == pack_argb(255, 0, 0, 0),
{
    ConfigColor::from(Color::rgb(0, 0, 0))
}

pub fn bar_color_default() -> (c: ConfigColor)
    ensures
        c.value() == pack_argb(224, 47, 52, 63),
{
    ConfigColor::from(Color::rgba(47, 52, 63, 224))
}

pub fn bar_highlight_color_default() -> (c: ConfigColor)
    ensures
        c.value() == pack_argb(224, 80, 86, 102),
{
    ConfigColor::from(Color::rgba(80, 86, 102, 224))
}

pub fn text_color_default() -> (c: ConfigColor)
    ensures
        c.value() == pack_argb(255, 204, 210, 224),
{
    ConfigColor::from(Color::rgb(204, 210, 224))
}

pub fn text_highlight_color_default() -> (c: ConfigColor)
    ensures
        c.value() == pack_argb(255, 204, 210, 224),
{
    ConfigColor::from(Color::rgb(204, 210, 224))
}

impl Config {
    /// The configuration used when none is given or it cannot be read: no
    /// images, and the default colours.
    pub open spec fn is_default(&self) -> bool {
        &&& self.cursor@ == Seq::<char>::empty()
        &&& self.bottom_left_corner@ == Seq::<char>::empty()
        &&& self.bottom_right_corner@ == Seq::<char>::empty()
        &&& self.bottom_side@ == Seq::<char>::empty()
        &&& self.left_side@ == Seq::<char>::empty()
        &&& self.right_side@ == Seq::<char>::empty()
        &&& self.window_max@ == Seq::<char>::empty()
        &&& self.window_max_unfocused@ == Seq::<char>::empty()
        &&& self.window_close@ == Seq::<char>::empty()
        &&& self.window_close_unfocused@ == Seq::<char>::empty()
        &&& self.background_color.value() == pack_argb(255, 0, 0, 0)
        &&& self.bar_color.value() == pack_argb(224, 47, 52, 63)
        &&& self.bar_highlight_color.value() == pack_argb(224, 80, 86, 102)
        &&& self.text_color.value() == pack_argb(255, 204, 210, 224)
        &&& self.text_highlight_color.value() == pack_argb(255, 204, 210, 224)
    }

    /// The configuration parsed from the file if that succeeded, else the
    /// default configuration.
    pub fn from_parsed(parsed: Option<Config>) -> (c: Config)
        ensures
            match parsed {
                Some(p) => c == p,
                None => c.is_default(),
            },
    {
        match parsed {
            Some(config) => config,
            None => Config::default(),
        }
    }
}

impl Default for Config {
    fn default() -> (c: Self)
        ensures
            c.is_default(),
    {
        Config {
            cursor: String::new(),
            bottom_left_corner: String::new(),
            bottom_right_corner: String::new(),
            bottom_side: String::new(),
            left_side: String::new(),
            right_side: String::new(),
            window_max: String::new(),
            window_max_unfocused: String::new(),
            window_close: String::new(),
            window_close_unfocused: String::new(),
            background_color: background_color_default(),
            bar_color: bar_color_default(),
            bar_highlight_color: bar_highlight_color_default(),
            text_color: text_color_default(),
            text_highlight_color: text_highlight_color_default(),
        }
    }
}

} // verus!
