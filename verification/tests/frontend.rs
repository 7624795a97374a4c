use saiga::iced_saiga::backend::{mouse_mode, MouseButton, MouseMode};
use saiga::iced_saiga::subscription::Subscription;
use saiga::saiga_frontend::font::{Family, Font, Stretch, Style, Weight};
use saiga::saiga_frontend::keyboard::{handle_key, KeyOutcome};
use saiga::saiga_frontend::settings::BackendSettings;
use saiga::saiga_frontend::theme::{build_ansi256_colors, ColorPalette, Theme};
use saiga::saiga_input::key::Mods;
use saiga::saiga_vte::ansi::handler::Rgb;
use winit::event::ElementState;
use winit::keyboard::{KeyCode, PhysicalKey};

#[test]
fn ansi256_table() {
    let colors = build_ansi256_colors();
    assert_eq!(colors.len(), 240);
    assert_eq!(colors.get(&15), None);
    // Color 16 is the black corner of the cube, 231 the white one.
    assert_eq!(colors[&16], Rgb { r: 0, g: 0, b: 0 });
    assert_eq!(colors[&231], Rgb { r: 255, g: 255, b: 255 });
    // Color 17: blue channel one step up.
    assert_eq!(colors[&17], Rgb { r: 0, g: 0, b: 95 });
    // Color 67 is (1, 2, 3) in the cube.
    assert_eq!(colors[&67], Rgb { r: 95, g: 135, b: 175 });
    // The grays run from 8 to 238.
    assert_eq!(colors[&232], Rgb { r: 8, g: 8, b: 8 });
    assert_eq!(colors[&255], Rgb { r: 238, g: 238, b: 238 });

    let theme = Theme::default();
    assert_eq!(theme.ansi256_colors, colors);
    assert_eq!(theme.palette.foreground, Rgb { r: 216, g: 216, b: 216 });
}

#[test]
fn palette_defaults() {
    let palette = ColorPalette::default();
    assert_eq!(palette.background, Rgb { r: 24, g: 24, b: 24 });
    assert_eq!(palette.bright_white, Rgb { r: 248, g: 248, b: 248 });
    assert_eq!(palette.dim_red, Rgb { r: 113, g: 43, b: 43 });
    assert_eq!(palette.bright_foreground, None);
}

#[test]
fn rgb_hex_round_trip() {
    let color = Rgb::new(0x1f, 0xa0, 0x07);
    assert_eq!(color.to_hex_string(), "#1fa007");
    assert_eq!(Rgb::parse("#1fa007"), Ok(color));
    assert_eq!(Rgb::parse("0x1fa007"), Ok(color));
    assert_eq!("#FFFFFF".parse::<Rgb>(), Ok(Rgb { r: 255, g: 255, b: 255 }));
    assert_eq!(Rgb::parse("#1fa00"), Err(()));
    assert_eq!(Rgb::parse("#1fa00g"), Err(()));
    assert_eq!(Rgb::parse("1fa007"), Err(()));
    assert_eq!(Rgb::default().to_hex_string(), "#000000");
}

#[test]
fn rgb_saturating_channels() {
    let a = Rgb::new(250, 10, 128);
    let b = Rgb::new(10, 20, 128);
    assert_eq!(a.add(b), Rgb { r: 255, g: 30, b: 255 });
    assert_eq!(a.sub(b), Rgb { r: 240, g: 0, b: 0 });
}

#[test]
fn fonts() {
    let font = Font::monospace();
    assert_eq!(font.family, Family::Monospace);
    assert_eq!(font.weight, Weight::Normal);
    assert_eq!(font.stretch, Stretch::Normal);
    assert_eq!(font.style, Style::Normal);
    assert_eq!(Font::default(), font);
    let named = Font::with_name("Iosevka");
    assert_eq!(named.family, Family::Name("Iosevka"));
    assert_eq!(named.weight, Weight::Normal);
}

#[test]
fn settings_and_subscription() {
    assert_eq!(BackendSettings::default().shell, "/bin/bash");
    assert_eq!(Subscription::new(7).term_id, 7);
}

#[test]
fn mouse_modes_and_codes() {
    assert_eq!(mouse_mode(true, true), MouseMode::Sgr);
    assert_eq!(mouse_mode(true, false), MouseMode::Sgr);
    assert_eq!(mouse_mode(false, true), MouseMode::Normal(true));
    assert_eq!(mouse_mode(false, false), MouseMode::Normal(false));
    assert_eq!(MouseButton::LeftButton.code(), 0);
    assert_eq!(MouseButton::NoneMove.code(), 35);
    assert_eq!(MouseButton::ScrollDown.code(), 65);
    assert_eq!(MouseButton::Other.code(), 99);
}

#[test]
fn key_events() {
    let mut mods = Mods::empty();
    let shift = PhysicalKey::Code(KeyCode::ShiftLeft);
    let sup = PhysicalKey::Code(KeyCode::SuperLeft);

    assert_eq!(
        handle_key(&mut mods, ElementState::Pressed, shift, None, false),
        KeyOutcome::ModifiersChanged
    );
    assert_eq!(mods, Mods::left_shift());
    assert_eq!(
        handle_key(&mut mods, ElementState::Released, shift, None, false),
        KeyOutcome::ModifiersChanged
    );
    assert!(mods.is_empty());

    handle_key(&mut mods, ElementState::Pressed, sup, None, false);
    assert_eq!(
        handle_key(&mut mods, ElementState::Pressed, PhysicalKey::Code(KeyCode::Minus), None, false),
        KeyOutcome::FontSmaller
    );
    assert_eq!(
        handle_key(&mut mods, ElementState::Pressed, PhysicalKey::Code(KeyCode::Equal), None, false),
        KeyOutcome::FontLarger
    );
    handle_key(&mut mods, ElementState::Released, sup, None, false);
    assert!(mods.is_empty());

    // Plain text falls back to the event's text.
    assert_eq!(
        handle_key(&mut mods, ElementState::Pressed, PhysicalKey::Code(KeyCode::KeyA), Some("a"), false),
        KeyOutcome::Write(b"a".to_vec())
    );
    // A released key without text asks for nothing.
    assert_eq!(
        handle_key(&mut mods, ElementState::Released, PhysicalKey::Code(KeyCode::KeyA), None, false),
        KeyOutcome::Nothing
    );
}
