use saiga::saiga_vte::ansi::handler::Rgb;
use saiga::saiga_vte::ansi::processor::{
    attrs_from_sgr_parameters, handle_colon_rgb, parse_legacy_color, parse_number,
    parse_rgb_color, split_bytes, subparam_sgr_to_color, xparse_color,
};
use saiga::saiga_vte::ansi::handler::{Attribute, Color, NamedColor};
use saiga::saiga_vte::utf8::expected_bytes_count;

#[test]
fn parse_valid_rgb_colors() {
    assert_eq!(xparse_color(b"rgb:f/e/d"), Some(Rgb { r: 0xff, g: 0xee, b: 0xdd }));
    assert_eq!(xparse_color(b"rgb:11/aa/ff"), Some(Rgb { r: 0x11, g: 0xaa, b: 0xff }));
    assert_eq!(xparse_color(b"rgb:f/ed1/cb23"), Some(Rgb { r: 0xff, g: 0xec, b: 0xca }));
    assert_eq!(xparse_color(b"rgb:ffff/0/0"), Some(Rgb { r: 0xff, g: 0x0, b: 0x0 }));
}

#[test]
fn parse_valid_legacy_rgb_colors() {
    assert_eq!(xparse_color(b"#1af"), Some(Rgb { r: 0x10, g: 0xa0, b: 0xf0 }));
    assert_eq!(xparse_color(b"#11aaff"), Some(Rgb { r: 0x11, g: 0xaa, b: 0xff }));
    assert_eq!(xparse_color(b"#110aa0ff0"), Some(Rgb { r: 0x11, g: 0xaa, b: 0xff }));
    assert_eq!(xparse_color(b"#1100aa00ff00"), Some(Rgb { r: 0x11, g: 0xaa, b: 0xff }));
}

#[test]
fn parse_invalid_rgb_colors() {
    assert_eq!(xparse_color(b"rgb:0//"), None);
    assert_eq!(xparse_color(b"rgb://///"), None);
}

#[test]
fn parse_invalid_legacy_rgb_colors() {
    assert_eq!(xparse_color(b"#"), None);
    assert_eq!(xparse_color(b"#f"), None);
}

#[test]
fn parse_invalid_number() {
    assert_eq!(parse_number(b"1abc"), None);
}

#[test]
fn parse_valid_number() {
    assert_eq!(parse_number(b"123"), Some(123));
}

#[test]
fn parse_number_too_large() {
    assert_eq!(parse_number(b"321"), None);
}

#[test]
fn parse_number_edges() {
    assert_eq!(parse_number(b""), None);
    assert_eq!(parse_number(b"255"), Some(255));
    assert_eq!(parse_number(b"256"), None);
    assert_eq!(parse_number(b"0007"), Some(7));
}

#[test]
fn bytes_count() {
    for case in [
        (0x0, Some(1)),
        (0x7F, Some(1)),
        (0xC2, Some(2)),
        (0xDF, Some(2)),
        (0xE0, Some(3)),
        (0xEF, Some(3)),
        (0xF0, Some(4)),
        (0xF4, Some(4)),
        (u8::MAX, None),
    ] {
        assert_eq!(case.1, expected_bytes_count(case.0))
    }
}

#[test]
fn rgb_color_with_plus_sign_and_bad_utf8() {
    // from_str_radix accepts a leading '+', which counts in the scale.
    assert_eq!(parse_rgb_color(b"+f/0/0"), Some(Rgb { r: 15, g: 0, b: 0 }));
    assert_eq!(parse_rgb_color(b"f/0/\xff"), None);
    assert_eq!(parse_rgb_color(b"fffff/0/0"), None);
    assert_eq!(parse_rgb_color(b"f/0"), None);
}

#[test]
fn legacy_color_single_digit_channels_widen() {
    assert_eq!(parse_legacy_color(b"abc"), Some(Rgb { r: 0xa0, g: 0xb0, b: 0xc0 }));
    // The last channel takes what is left over.
    assert_eq!(parse_legacy_color(b"1234"), Some(Rgb { r: 0x10, g: 0x20, b: 0x34 }));
    assert_eq!(parse_legacy_color(b"xyz"), None);
}

#[test]
fn split_keeps_empty_parts() {
    assert_eq!(split_bytes(b"a//b", b'/'), vec![b"a".to_vec(), vec![], b"b".to_vec()]);
    assert_eq!(split_bytes(b"", b'/'), vec![Vec::<u8>::new()]);
}

#[test]
fn subparameter_colors() {
    assert_eq!(subparam_sgr_to_color(&[2, 1, 2, 3]), (Some(Color::Spec(Rgb { r: 1, g: 2, b: 3 })), 4));
    assert_eq!(subparam_sgr_to_color(&[5, 200]), (Some(Color::Indexed(200)), 2));
    assert_eq!(subparam_sgr_to_color(&[5, 300]), (None, 2));
    assert_eq!(subparam_sgr_to_color(&[2, 1]), (None, 2));
    assert_eq!(subparam_sgr_to_color(&[7]), (None, 1));
    assert_eq!(subparam_sgr_to_color(&[]), (None, 0));
}

#[test]
fn colon_rgb_skips_color_space() {
    assert_eq!(handle_colon_rgb(&[2, 0, 10, 20, 30]), Some(Color::Spec(Rgb { r: 10, g: 20, b: 30 })));
    assert_eq!(handle_colon_rgb(&[2, 10, 20, 30]), Some(Color::Spec(Rgb { r: 10, g: 20, b: 30 })));
    assert_eq!(handle_colon_rgb(&[5, 9]), Some(Color::Indexed(9)));
}

#[test]
fn sgr_attributes() {
    let params = vec![vec![1], vec![38], vec![2], vec![1], vec![2], vec![3], vec![4, 3], vec![91], vec![48, 5, 7], vec![99]];
    assert_eq!(
        attrs_from_sgr_parameters(&params),
        vec![
            Attribute::Bold,
            Attribute::Foreground(Color::Spec(Rgb { r: 1, g: 2, b: 3 })),
            Attribute::Undercurl,
            Attribute::Foreground(Color::Named(NamedColor::BrightRed)),
            Attribute::Background(Color::Indexed(7)),
        ]
    );
    // A lone 58 whose color is cut short still consumes what it read.
    let params = vec![vec![58], vec![5], vec![1000], vec![0]];
    assert_eq!(attrs_from_sgr_parameters(&params), vec![Attribute::Reset]);
}
