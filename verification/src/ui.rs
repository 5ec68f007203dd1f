//! What the terminal needs from the animation: the colours to set up, and
//! for each cell whether and how it is drawn.

use crate::cell::{Cell, BRIGHTEST, INVISIBLE};
use css_color_parser::ColorParseError;
use vstd::prelude::*;

verus! {

/// `css_color_parser::ColorParseError`, the parser's only error. It carries
/// nothing.
#[verifier::external_type_specification]
#[verifier::external_body]
pub struct ExColorParseError(ColorParseError);

/// The red, green and blue that `css_color_parser` reads out of a CSS colour
/// string, `None` where it takes the string for no colour.
pub uninterp spec fn css_rgb(text: Seq<char>) -> Option<(u8, u8, u8)>;

/// `<css_color_parser::Color as FromStr>::from_str`, by way of `str::parse`.
/// The parser reads names, `#rgb`, `#rrggbb`, `rgb()`, `rgba()`, `hsl()` and
/// `hsla()`; its result depends on the string alone and is here given the
/// name `css_rgb`. The alpha that it also reads is dropped.
#[verifier::external_body]
fn parse_css(text: &str) -> (parsed: Result<(u8, u8, u8), ColorParseError>)
    ensures
        parsed is Ok <==> css_rgb(text@) is Some,
        parsed matches Ok(rgb) ==> css_rgb(text@) == Some(rgb),
{
    match text.parse::<css_color_parser::Color>() {
        Ok(color) => Ok((color.r, color.g, color.b)),
        Err(error) => Err(error),
    }
}

/// The code point drawn for a cell that is lit but at brightness zero.
pub const WHITESPACE: u32 = 0x20;

/// The most that a colour component can be on the terminal.
pub const COLOR_MAX: i16 = 1000;

/// The steps of the colour ramp between background and foreground.
pub const RAMP: i16 = 7;

/// The colour pair for each brightness from 0 to `BRIGHTEST`.
pub const INTENSITY: [i16; 16] = [1, 1, 2, 2, 2, 2, 3, 3, 3, 4, 4, 4, 5, 5, 4, 7];

/// Why a colour was not set.
#[derive(Clone, Copy, Debug, PartialEq, Eq, Structural)]
pub enum ColorError {
    /// The string is no CSS colour.
    Unparsable,
}

/// A colour by its red, green and blue.
#[derive(Clone, Copy, Debug, PartialEq, Eq, Structural)]
pub struct Color {
    pub r: i16,
    pub g: i16,
    pub b: i16,
}

impl From<[u8; 3]> for Color {
    fn from(value: [u8; 3]) -> (color: Color) {
        Color { r: value[0] as i16, g: value[1] as i16, b: value[2] as i16 }
    }
}

impl vstd::std_specs::convert::FromSpecImpl<[u8; 3]> for Color {
    open spec fn obeys_from_spec() -> bool {
        true
    }

    open spec fn from_spec(value: [u8; 3]) -> Color {
        Color { r: value[0] as i16, g: value[1] as i16, b: value[2] as i16 }
    }
}

impl Color {
    /// The colour with the given components.
    pub open spec fn of(red: u8, green: u8, blue: u8) -> Color {
        Color { r: red as i16, g: green as i16, b: blue as i16 }
    }

    /// Each component is between 0 and what a byte can hold.
    pub open spec fn wf(self) -> bool {
        &&& 0 <= self.r <= u8::MAX
        &&& 0 <= self.g <= u8::MAX
        &&& 0 <= self.b <= u8::MAX
    }

    /// Whether the colour is well formed, for callers that filled the fields
    /// themselves.
    pub fn is_valid(&self) -> (valid: bool)
        ensures
            valid == self.wf(),
    {
        0 <= self.r && self.r <= 255 && 0 <= self.g && self.g <= 255 && 0 <= self.b && self.b
            <= 255
    }

    /// Step `level` of the ramp from `back` to this colour: of `RAMP` parts,
    /// `level` are this colour and the others are `back`.
    pub open spec fn blended(self, back: Color, level: int) -> Color {
        Color {
            r: (level * self.r + (RAMP - level) * back.r) as i16,
            g: (level * self.g + (RAMP - level) * back.g) as i16,
            b: (level * self.b + (RAMP - level) * back.b) as i16,
        }
    }

    /// `blended`, computed.
    pub fn blend(&self, back: &Color, level: i16) -> (mixed: Color)
        requires
            self.wf(),
            back.wf(),
            0 <= level <= RAMP,
        ensures
            mixed == self.blended(*back, level as int),
            0 <= mixed.r <= RAMP * u8::MAX,
            0 <= mixed.g <= RAMP * u8::MAX,
            0 <= mixed.b <= RAMP * u8::MAX,
    {
        let rest: i16 = RAMP - level;
        assert(0 <= level * self.r <= 7 * 255 && 0 <= rest * back.r <= 7 * 255 && level * self.r + rest
            * back.r <= 7 * 255) by (nonlinear_arith)
            requires
                0 <= level <= 7,
                rest == 7 - level,
                0 <= self.r <= 255,
                0 <= back.r <= 255,
        ;
        assert(0 <= level * self.g <= 7 * 255 && 0 <= rest * back.g <= 7 * 255 && level * self.g + rest
            * back.g <= 7 * 255) by (nonlinear_arith)
            requires
                0 <= level <= 7,
                rest == 7 - level,
                0 <= self.g <= 255,
                0 <= back.g <= 255,
        ;
        assert(0 <= level * self.b <= 7 * 255 && 0 <= rest * back.b <= 7 * 255 && level * self.b + rest
            * back.b <= 7 * 255) by (nonlinear_arith)
            requires
                0 <= level <= 7,
                rest == 7 - level,
                0 <= self.b <= 255,
                0 <= back.b <= 255,
        ;
        Color {
            r: level * self.r + rest * back.r,
            g: level * self.g + rest * back.g,
            b: level * self.b + rest * back.b,
        }
    }
}

/// What the parser's answer means for a colour setting: its red, green and
/// blue as a colour, or the error that the string is no colour.
pub open spec fn color_from(parsed: Option<(u8, u8, u8)>) -> Result<Color, ColorError> {
    match parsed {
        Some(rgb) => Ok(Color::of(rgb.0, rgb.1, rgb.2)),
        None => Err(ColorError::Unparsable),
    }
}

/// The colours of the animation.
#[derive(Clone, Copy, Debug, PartialEq, Eq, Structural)]
pub struct Config {
    /// The colour of the brightest glyphs.
    pub color: Color,
    /// The colour that glyphs fade to.
    pub background: Color,
}

impl Config {
    /// Green on black.
    pub fn new() -> (config: Config)
        ensures
            config.color == Color::of(0, 255, 0),
            config.background == Color::of(0, 0, 0),
            config.color.wf(),
            config.background.wf(),
    {
        Config { color: Color::from([0, 255, 0]), background: Color::from([0, 0, 0]) }
    }

    /// The colour that the parser's answer stands for.
    pub fn color_of(parsed: Result<(u8, u8, u8), ColorParseError>) -> (color: Result<
        Color,
        ColorError,
    >)
        ensures
            color == match parsed {
                Ok(rgb) => color_from(Some(rgb)),
                Err(_) => color_from(None),
            },
            color matches Ok(read) ==> read.wf(),
    {
        match parsed {
            Ok(rgb) => Ok(Color::from([rgb.0, rgb.1, rgb.2])),
            Err(_) => Err(ColorError::Unparsable),
        }
    }

    /// The colour that a CSS colour string names.
    pub fn parse_color(string: &str) -> (color: Result<Color, ColorError>)
        ensures
            color == color_from(css_rgb(string@)),
            color matches Ok(read) ==> read.wf(),
    {
        Self::color_of(parse_css(string))
    }

    /// Sets the foreground to the colour that `string` names. A string that
    /// names none is an error and changes nothing.
    pub fn set_foreground(&mut self, string: &str) -> (done: Result<(), ColorError>)
        ensures
            match color_from(css_rgb(string@)) {
                Ok(color) => done == Ok::<(), ColorError>(()) && *final(self) == (Config {
                    color,
                    ..*old(self)
                }),
                Err(error) => done == Err::<(), ColorError>(error) && *final(self) == *old(self),
            },
    {
        match Self::parse_color(string) {
            Ok(color) => {
                self.color = color;
                Ok(())
            },
            Err(error) => Err(error),
        }
    }

    /// Sets the background to the colour that `string` names. A string that
    /// names none is an error and changes nothing.
    pub fn set_background(&mut self, string: &str) -> (done: Result<(), ColorError>)
        ensures
            match color_from(css_rgb(string@)) {
                Ok(color) => done == Ok::<(), ColorError>(()) && *final(self) == (Config {
                    background: color,
                    ..*old(self)
                }),
                Err(error) => done == Err::<(), ColorError>(error) && *final(self) == *old(self),
            },
    {
        match Self::parse_color(string) {
            Ok(color) => {
                self.background = color;
                Ok(())
            },
            Err(error) => Err(error),
        }
    }
}

/// How a cell is drawn: not at all if it is not lit; else in the colour pair
/// of its brightness, as a blank at brightness zero and as its glyph above.
pub open spec fn shown_as(cell: Cell) -> Option<(u32, i16)> {
    if INVISIBLE < cell.brightness <= BRIGHTEST {
        Some(
            (
                if cell.brightness == 0 {
                    WHITESPACE
                } else {
                    cell.glyph
                },
                INTENSITY[cell.brightness as int],
            ),
        )
    } else {
        None
    }
}

/// `shown_as`, computed: the code point to draw and its colour pair.
pub fn appearance(cell: &Cell) -> (shown: Option<(u32, i16)>)
    ensures
        shown == shown_as(*cell),
{
    if INVISIBLE < cell.brightness && cell.brightness <= BRIGHTEST {
        let level: usize = cell.brightness as usize;
        let code: u32 = if level == 0 {
            WHITESPACE
        } else {
            cell.glyph
        };
        Some((code, INTENSITY[level]))
    } else {
        None
    }
}

} // verus!
