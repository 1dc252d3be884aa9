use vellum::settings::{
    check_feedback_duration, check_settings, default_palette, editor_options, parse_color,
    parse_default_tool, resolve_default_color, resolve_palette, ColorError, ConfigError,
    EditorOptions, Rgb8,
};
use vellum::tool::Tool;

fn rgb(r: u8, g: u8, b: u8) -> Rgb8 {
    Rgb8 { r, g, b }
}

fn strings(values: &[&str]) -> Vec<String> {
    values.iter().map(|value| value.to_string()).collect()
}

#[test]
fn parses_hex_colors() {
    assert_eq!(parse_color("#E84046"), Ok(rgb(0xe8, 0x40, 0x46)));
    assert_eq!(parse_color("#0283fc"), Ok(rgb(0x02, 0x83, 0xfc)));
    assert_eq!(parse_color("#FFFFFF"), Ok(rgb(255, 255, 255)));
    assert_eq!(parse_color("#000000"), Ok(rgb(0, 0, 0)));
}

#[test]
fn signs_are_not_hex_digits() {
    assert_eq!(parse_color("#+12345"), Err(ColorError::NonHexDigit));
    assert_eq!(parse_color("#-12345"), Err(ColorError::NonHexDigit));
}

#[test]
fn refuses_malformed_colors() {
    assert_eq!(parse_color(""), Err(ColorError::MissingHash));
    assert_eq!(parse_color("E84046"), Err(ColorError::MissingHash));
    assert_eq!(parse_color("#E8404"), Err(ColorError::WrongLength));
    assert_eq!(parse_color("#E840466"), Err(ColorError::WrongLength));
    assert_eq!(parse_color("#E8404G"), Err(ColorError::NonHexDigit));
    assert_eq!(parse_color("#é8404"), Err(ColorError::NonHexDigit));
    assert_eq!(ColorError::MissingHash.message(), "color must start with #");
    assert_eq!(ColorError::WrongLength.message(), "color must be #RRGGBB");
    assert_eq!(ColorError::NonHexDigit.message(), "color contains a non-hex digit");
}

#[test]
fn palette_must_hold_two_to_twelve_colors() {
    assert_eq!(resolve_palette(&strings(&["#000000"])), Err(ConfigError::PaletteSize));
    assert_eq!(resolve_palette(&strings(&["#000000"; 13])), Err(ConfigError::PaletteSize));
    assert_eq!(
        resolve_palette(&strings(&["#000000", "#FFFFFF"])),
        Ok(vec![rgb(0, 0, 0), rgb(255, 255, 255)])
    );
    assert_eq!(
        resolve_palette(&strings(&["#000000", "#FFFFFF", "oops", "#12"])),
        Err(ConfigError::PaletteColor(2, ColorError::MissingHash))
    );
}

#[test]
fn default_color_must_be_in_the_palette() {
    let palette = vec![rgb(1, 2, 3), rgb(4, 5, 6)];
    assert_eq!(resolve_default_color(&palette, None), Ok(rgb(1, 2, 3)));
    assert_eq!(resolve_default_color(&palette, Some("#040506")), Ok(rgb(4, 5, 6)));
    assert_eq!(
        resolve_default_color(&palette, Some("#040507")),
        Err(ConfigError::DefaultColorNotInPalette)
    );
    assert_eq!(
        resolve_default_color(&palette, Some("#04050")),
        Err(ConfigError::DefaultColor(ColorError::WrongLength))
    );
}

#[test]
fn feedback_duration_is_at_most_a_minute() {
    assert_eq!(check_feedback_duration(None), Ok(500));
    assert_eq!(check_feedback_duration(Some(0)), Ok(0));
    assert_eq!(check_feedback_duration(Some(60_000)), Ok(60_000));
    assert_eq!(check_feedback_duration(Some(60_001)), Err(ConfigError::FeedbackDuration));
}

#[test]
fn default_tool_ignores_ascii_case() {
    assert_eq!(parse_default_tool(None), Ok(Tool::Pen));
    assert_eq!(parse_default_tool(Some("Rectangle")), Ok(Tool::Rectangle));
    assert_eq!(parse_default_tool(Some("SELECT")), Ok(Tool::Select));
    assert!(parse_default_tool(Some("brush")).is_err());
}

#[test]
fn checks_the_settings_in_order() {
    let palette = strings(&["#E84046", "#000000"]);
    let checked = check_settings(Some("text"), &palette, Some("#000000"), Some(250)).unwrap();
    assert_eq!(checked.default_tool, Tool::Text);
    assert_eq!(checked.palette, vec![rgb(0xe8, 0x40, 0x46), rgb(0, 0, 0)]);
    assert_eq!(checked.default_color, rgb(0, 0, 0));
    assert_eq!(checked.feedback_duration_ms, 250);
    assert!(matches!(
        check_settings(Some("nope"), &strings(&["#000000"]), None, None),
        Err(ConfigError::Tool(_))
    ));
    assert!(matches!(
        check_settings(None, &strings(&["#000000"]), None, Some(99_999)),
        Err(ConfigError::PaletteSize)
    ));
    assert!(matches!(
        check_settings(None, &palette, None, Some(99_999)),
        Err(ConfigError::FeedbackDuration)
    ));
}

#[test]
fn the_default_palette_runs_from_red_to_black() {
    let palette = default_palette();
    assert_eq!(
        palette,
        strings(&[
            "#E84046", "#EC8948", "#EED049", "#3ED73C", "#0283FC", "#7C57EB", "#FFFFFF", "#000000",
        ])
    );
    let checked = check_settings(None, &palette, None, None).unwrap();
    assert_eq!(checked.default_tool, Tool::Pen);
    assert_eq!(checked.default_color, rgb(0xe8, 0x40, 0x46));
    assert_eq!(checked.palette.len(), 8);
    assert_eq!(checked.feedback_duration_ms, 500);
}

#[test]
fn editor_switches_default_to_remembering_and_not_clearing_or_filling() {
    assert_eq!(
        editor_options(None, None, None),
        EditorOptions { remember_last_tool: true, clear_on_escape: false, default_fill_shapes: false }
    );
    assert_eq!(
        editor_options(Some(false), Some(true), Some(true)),
        EditorOptions { remember_last_tool: false, clear_on_escape: true, default_fill_shapes: true }
    );
}

#[test]
fn refusals_tell_what_is_wrong() {
    assert_eq!(ConfigError::PaletteSize.message(), "palette must contain between 2 and 12 colors");
    assert_eq!(ConfigError::PaletteColor(3, ColorError::WrongLength).message(), "color must be #RRGGBB");
    assert_eq!(ConfigError::DefaultColor(ColorError::MissingHash).message(), "color must start with #");
    assert_eq!(
        ConfigError::DefaultColorNotInPalette.message(),
        "default_color must be present in palette"
    );
    assert_eq!(ConfigError::FeedbackDuration.message(), "feedback_duration_ms must not exceed 60000");
    assert_eq!(ConfigError::Tool("no such tool").message(), "no such tool");
}
