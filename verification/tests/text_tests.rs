use bmp_editor::color::Rgba;
use bmp_editor::text::{parse_color_text, parse_coord_text, parse_u16_text, parse_u8_text};

#[test]
fn parse_u8_accepts_numerals_up_to_255() {
    assert_eq!(parse_u8_text("0"), Some(0));
    assert_eq!(parse_u8_text("3"), Some(3));
    assert_eq!(parse_u8_text("255"), Some(255));
    assert_eq!(parse_u8_text("007"), Some(7));
}

#[test]
fn parse_u8_rejects_everything_else() {
    assert_eq!(parse_u8_text("256"), None);
    assert_eq!(parse_u8_text(""), None);
    assert_eq!(parse_u8_text("12a"), None);
    assert_eq!(parse_u8_text("-1"), None);
    assert_eq!(parse_u8_text(" 3"), None);
}

#[test]
fn parse_u16_accepts_numerals_up_to_65535() {
    assert_eq!(parse_u16_text("65535"), Some(65535));
    assert_eq!(parse_u16_text("650"), Some(650));
    assert_eq!(parse_u16_text("65536"), None);
    assert_eq!(parse_u16_text("99999999999"), None);
}

#[test]
fn parse_coord_accepts_the_pair_form() {
    assert_eq!(parse_coord_text("(3, 4)"), Some((3, 4)));
    assert_eq!(parse_coord_text("(0, 0)"), Some((0, 0)));
    assert_eq!(parse_coord_text("(65535, 1)"), Some((65535, 1)));
}

#[test]
fn parse_coord_rejects_malformed_pairs() {
    assert_eq!(parse_coord_text("(3,4)"), None);
    assert_eq!(parse_coord_text("3, 4"), None);
    assert_eq!(parse_coord_text("(3, 4"), None);
    assert_eq!(parse_coord_text("(3, )"), None);
    assert_eq!(parse_coord_text("(, 4)"), None);
    assert_eq!(parse_coord_text("(70000, 2)"), None);
    assert_eq!(parse_coord_text("(1, 2, 3)"), None);
    assert_eq!(parse_coord_text(""), None);
}

#[test]
fn parse_color_accepts_the_four_channel_form() {
    assert_eq!(
        parse_color_text("(255, 255, 255, 255)"),
        Some(Rgba { r: 255, g: 255, b: 255, a: 255 })
    );
    assert_eq!(parse_color_text("(0, 1, 2, 3)"), Some(Rgba { r: 0, g: 1, b: 2, a: 3 }));
}

#[test]
fn parse_color_rejects_malformed_colors() {
    assert_eq!(parse_color_text("(256, 0, 0, 0)"), None);
    assert_eq!(parse_color_text("(1, 2, 3)"), None);
    assert_eq!(parse_color_text("(1, 2, 3, 4, 5)"), None);
    assert_eq!(parse_color_text("(1,2,3,4)"), None);
    assert_eq!(parse_color_text("1, 2, 3, 4"), None);
    assert_eq!(parse_color_text("()"), None);
    assert_eq!(parse_color_text("rgba(1, 2, 3, 4)"), None);
}
