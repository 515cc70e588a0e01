use oxideterm::theme::{
    app_ui_colors_from_decoded, custom_theme_terminal_and_ui, terminal_theme_from_decoded,
    format_hex_color, is_custom_theme_id, parse_color_notation, parse_rgb24_hex,
    theme_display_name, ColorNotation,
};

fn channel(text: &str) -> Option<u32> {
    let value = text.parse::<f32>().ok()?;
    Some(value.round().clamp(0.0, 255.0) as u32)
}

fn parse_color_hex(value: &str) -> Option<u32> {
    match parse_color_notation(value) {
        ColorNotation::Hex(color) => color,
        ColorNotation::Rgb(red, green, blue) => {
            Some((channel(&red)? << 16) | (channel(&green)? << 8) | channel(&blue)?)
        }
        ColorNotation::Unrecognized => None,
    }
}

#[test]
fn parse_color_hex_accepts_hex_and_rgb_forms() {
    assert_eq!(parse_color_hex("#0f0"), Some(0x00ff00));
    assert_eq!(parse_color_hex("#112233aa"), Some(0x112233));
    assert_eq!(parse_color_hex("rgb(1, 2, 3)"), Some(0x010203));
}

#[test]
fn parse_rgb24_hex_requires_exactly_six_digits() {
    assert_eq!(parse_rgb24_hex(" #112233 "), Some(0x112233));
    assert_eq!(parse_rgb24_hex("112233"), Some(0x112233));
    assert_eq!(parse_rgb24_hex("#123"), None);
    assert_eq!(parse_rgb24_hex("rgb(1, 2, 3)"), None);
}

#[test]
fn formatted_colours_parse_back_to_their_low_bits() {
    assert_eq!(format_hex_color(0x00ab_cdef), "#abcdef");
    assert_eq!(format_hex_color(0xff01_0203), "#010203");
    for color in [0u32, 0x0f0f0f, 0xffffff, 0x1234_5678] {
        assert_eq!(parse_rgb24_hex(&format_hex_color(color)), Some(color & 0x00ff_ffff));
    }
    assert_eq!(parse_rgb24_hex("##A1b2C3"), Some(0xa1b2c3));
    assert_eq!(parse_rgb24_hex("+12345"), None);
    assert_eq!(parse_rgb24_hex("+123456"), None);
    assert_eq!(parse_rgb24_hex("12345g"), None);
}

#[test]
fn colour_notations_are_classified() {
    match parse_color_notation("#0f0") {
        ColorNotation::Hex(v) => assert_eq!(v, Some(0x00ff00)),
        other => panic!("unexpected {other:?}"),
    }
    match parse_color_notation("#112233aa") {
        ColorNotation::Hex(v) => assert_eq!(v, Some(0x112233)),
        other => panic!("unexpected {other:?}"),
    }
    match parse_color_notation("#12") {
        ColorNotation::Hex(v) => assert_eq!(v, None),
        other => panic!("unexpected {other:?}"),
    }
    match parse_color_notation(" RGBA( 1 , 2,3 ,0.5)") {
        ColorNotation::Rgb(r, g, b) => {
            assert_eq!(r, "1");
            assert_eq!(g, "2");
            assert_eq!(b, "3");
        }
        other => panic!("unexpected {other:?}"),
    }
    assert!(matches!(parse_color_notation("rgb(1, 2)"), ColorNotation::Unrecognized));
    assert!(matches!(parse_color_notation("hsl(1, 2, 3)"), ColorNotation::Unrecognized));
}

#[test]
fn theme_ids_and_display_names() {
    assert!(is_custom_theme_id("custom:ocean"));
    assert!(!is_custom_theme_id("ocean"));
    assert_eq!(theme_display_name("one-dark_pro"), "One Dark Pro");
    assert_eq!(theme_display_name("--solarized--light"), "Solarized Light");
    assert_eq!(theme_display_name("ärger"), "Ärger");
    assert_eq!(theme_display_name(""), "");
}

fn palette(seed: u32) -> oxideterm::theme::AppUiColors {
    oxideterm::theme::AppUiColors {
        bg: seed, bg_panel: seed, bg_card: seed, bg_hover: seed, bg_active: seed,
        bg_secondary: seed, bg_elevated: seed, bg_sunken: seed, text: seed, text_muted: seed,
        text_secondary: seed, text_heading: seed, border: seed, border_strong: seed,
        divider: seed, accent: seed, accent_hover: seed, accent_text: seed,
        accent_secondary: seed, success: seed, warning: seed, error: seed, info: seed,
    }
}

#[test]
fn only_the_neutral_theme_overrides_interface_colours() {
    let base = palette(0x123456);
    assert_eq!(oxideterm::theme::apply_builtin_ui_overrides("default", base), base);
    let neutral = oxideterm::theme::apply_builtin_ui_overrides("neutral", base);
    assert_eq!(neutral.bg, 0x09090b);
    assert_eq!(neutral.accent, 0xea580c);
    assert_eq!(neutral.error, 0xef4444);
    assert_eq!(neutral.bg_active, 0x123456);
    assert_eq!(neutral.info, 0x123456);
}

fn decoded_ui(seed: u32) -> oxideterm::theme::DecodedUiColors {
    oxideterm::theme::DecodedUiColors {
        bg: Some(seed), bg_panel: Some(seed), bg_card: Some(seed), bg_hover: Some(seed),
        bg_active: Some(seed), bg_secondary: Some(seed), bg_elevated: Some(seed),
        bg_sunken: Some(seed), text: Some(0x111111), text_muted: Some(seed),
        text_secondary: Some(seed), text_heading: None, border: Some(seed),
        border_strong: Some(seed), divider: Some(seed), accent: Some(seed),
        accent_hover: Some(seed), accent_text: Some(seed), accent_secondary: Some(seed),
        success: Some(seed), warning: Some(seed), error: Some(seed), info: Some(seed),
    }
}

fn decoded_terminal(seed: u32) -> oxideterm::theme::DecodedTerminalColors {
    oxideterm::theme::DecodedTerminalColors {
        background: Some(seed), foreground: Some(seed), cursor: Some(seed),
        selection_background: Some("#224466"), black: Some(seed), red: Some(0xff0000),
        green: Some(seed), yellow: Some(seed), blue: Some(seed), magenta: Some(seed),
        cyan: Some(seed), white: Some(seed), bright_black: Some(seed), bright_red: Some(seed),
        bright_green: Some(seed), bright_yellow: Some(seed), bright_blue: Some(seed),
        bright_magenta: Some(seed), bright_cyan: Some(seed), bright_white: Some(seed),
    }
}

#[test]
fn custom_theme_colours_are_assembled_from_decoded_values() {
    let ui = app_ui_colors_from_decoded(decoded_ui(0x202020)).expect("all colours present");
    assert_eq!(ui.text_heading, 0x111111);
    assert_eq!(ui.bg, 0x202020);
    let mut with_heading = decoded_ui(0x202020);
    with_heading.text_heading = Some(0xabcdef);
    assert_eq!(app_ui_colors_from_decoded(with_heading).map(|c| c.text_heading), Some(0xabcdef));
    let mut missing = decoded_ui(0x202020);
    missing.info = None;
    assert_eq!(app_ui_colors_from_decoded(missing), None);

    let terminal = terminal_theme_from_decoded(decoded_terminal(0x303030)).expect("palette present");
    assert_eq!(terminal.red, 0xff0000);
    assert_eq!(terminal.selection_background, "#224466");
    let mut no_selection = decoded_terminal(0x303030);
    no_selection.selection_background = None;
    assert_eq!(terminal_theme_from_decoded(no_selection), None);

    let both = custom_theme_terminal_and_ui("custom:ocean", Some(decoded_terminal(1)), Some(decoded_ui(2)));
    assert_eq!(both.map(|(t, u)| (t.background, u.bg)), Some((1, 2)));
    assert_eq!(custom_theme_terminal_and_ui("ocean", Some(decoded_terminal(1)), Some(decoded_ui(2))), None);
    assert_eq!(custom_theme_terminal_and_ui("custom:ocean", None, Some(decoded_ui(2))), None);
}
