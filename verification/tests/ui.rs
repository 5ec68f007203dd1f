use digital_rain::cell::Cell;
use digital_rain::ui::{appearance, Color, ColorError, Config, INTENSITY, WHITESPACE};

fn cell(brightness: i8) -> Cell {
    Cell { brightness, glyph: 0x41, flip_timer: 0, dim_timer: 0 }
}

#[test]
fn config_starts_green_on_black() {
    let config = Config::new();
    assert_eq!(config.color, Color { r: 0, g: 255, b: 0 });
    assert_eq!(config.background, Color { r: 0, g: 0, b: 0 });
}

#[test]
fn color_from_bytes_widens_each_component() {
    assert_eq!(Color::from([1, 128, 255]), Color { r: 1, g: 128, b: 255 });
}

#[test]
fn set_foreground_reads_hex() {
    let mut config = Config::new();
    assert_eq!(config.set_foreground("#98c396"), Ok(()));
    assert_eq!(config.color, Color { r: 0x98, g: 0xc3, b: 0x96 });
    assert_eq!(config.background, Color { r: 0, g: 0, b: 0 });
}

#[test]
fn set_background_reads_hex() {
    let mut config = Config::new();
    assert_eq!(config.set_background("#2f3b35"), Ok(()));
    assert_eq!(config.background, Color { r: 0x2f, g: 0x3b, b: 0x35 });
    assert_eq!(config.color, Color { r: 0, g: 255, b: 0 });
}

#[test]
fn set_foreground_reads_names_and_functions() {
    let mut config = Config::new();
    assert_eq!(config.set_foreground("red"), Ok(()));
    assert_eq!(config.color, Color { r: 255, g: 0, b: 0 });
    assert_eq!(config.set_foreground("rgb(1, 2, 3)"), Ok(()));
    assert_eq!(config.color, Color { r: 1, g: 2, b: 3 });
    assert_eq!(config.set_foreground("#fa0"), Ok(()));
    assert_eq!(config.color, Color { r: 0xff, g: 0xaa, b: 0x00 });
}

#[test]
fn unparsable_color_is_an_error_and_changes_nothing() {
    let mut config = Config::new();
    let before = config;
    assert_eq!(config.set_foreground("not a colour"), Err(ColorError::Unparsable));
    assert_eq!(config, before);
    assert_eq!(config.set_background(""), Err(ColorError::Unparsable));
    assert_eq!(config, before);
    assert_eq!(config.set_background("#12345"), Err(ColorError::Unparsable));
    assert_eq!(config, before);
}

#[test]
fn parse_color_agrees_with_the_parser() {
    for text in ["#98c396", "blue", "rgb(10,20,30)", "hsl(120, 100%, 50%)", "nope", "#zzz"] {
        let direct = text.parse::<css_color_parser::Color>();
        let ours = Config::parse_color(text);
        match direct {
            Ok(color) => assert_eq!(
                ours,
                Ok(Color { r: i16::from(color.r), g: i16::from(color.g), b: i16::from(color.b) })
            ),
            Err(_) => assert_eq!(ours, Err(ColorError::Unparsable)),
        }
    }
}

#[test]
fn color_of_maps_both_answers() {
    assert_eq!(Config::color_of(Ok((1, 2, 3))), Ok(Color { r: 1, g: 2, b: 3 }));
    let error = "nope".parse::<css_color_parser::Color>().unwrap_err();
    assert_eq!(Config::color_of(Err(error)), Err(ColorError::Unparsable));
}

#[test]
fn blend_weighs_foreground_by_level() {
    let fore = Color { r: 10, g: 20, b: 30 };
    let back = Color { r: 1, g: 2, b: 3 };
    assert_eq!(fore.blend(&back, 3), Color { r: 34, g: 68, b: 102 });
    assert_eq!(fore.blend(&back, 0), Color { r: 7, g: 14, b: 21 });
    assert_eq!(fore.blend(&back, 7), Color { r: 70, g: 140, b: 210 });
    let white = Color { r: 255, g: 255, b: 255 };
    assert_eq!(white.blend(&white, 4), Color { r: 1785, g: 1785, b: 1785 });
}

#[test]
fn color_validity_is_the_byte_range() {
    assert!(Color { r: 0, g: 255, b: 7 }.is_valid());
    assert!(!Color { r: -1, g: 0, b: 0 }.is_valid());
    assert!(!Color { r: 0, g: 256, b: 0 }.is_valid());
}

#[test]
fn unlit_cell_is_not_drawn() {
    assert_eq!(appearance(&cell(-1)), None);
    assert_eq!(appearance(&cell(-7)), None);
    assert_eq!(appearance(&cell(16)), None);
}

#[test]
fn brightness_zero_is_drawn_blank() {
    assert_eq!(WHITESPACE, 0x20);
    assert_eq!(appearance(&cell(0)), Some((0x20, 1)));
}

#[test]
fn lit_cell_is_drawn_in_the_pair_of_its_brightness() {
    let pairs: [i16; 16] = [1, 1, 2, 2, 2, 2, 3, 3, 3, 4, 4, 4, 5, 5, 4, 7];
    assert_eq!(INTENSITY, pairs);
    for level in 1..=15 {
        assert_eq!(appearance(&cell(level)), Some((0x41, pairs[level as usize])));
    }
}
