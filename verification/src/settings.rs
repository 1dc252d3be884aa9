//! Checking the settings read from the configuration file: colors written as
//! `#RRGGBB`, the palette, the default color, the default tool and the
//! feedback duration.

use vstd::prelude::*;
use crate::text_edit::utf8;
use crate::tool::{Tool, named_tool, unknown_tool_message};

verus! {

/// A color as three 8-bit channels.
#[derive(Debug, Clone, Copy, PartialEq, Eq, Structural)]
pub struct Rgb8 {
    pub r: u8,
    pub g: u8,
    pub b: u8,
}

/// Why a color was refused.
#[derive(Debug, Clone, Copy, PartialEq, Eq, Structural)]
pub enum ColorError {
    MissingHash,
    WrongLength,
    NonHexDigit,
}

impl ColorError {
    /// The message shown to the user.
    pub fn message(self) -> (message: &'static str)
        ensures
            message@ == color_error_message(self),
    {
        proof {
            reveal_strlit("color must start with #");
            reveal_strlit("color must be #RRGGBB");
            reveal_strlit("color contains a non-hex digit");
        }
        match self {
            ColorError::MissingHash => "color must start with #",
            ColorError::WrongLength => "color must be #RRGGBB",
            ColorError::NonHexDigit => "color contains a non-hex digit",
        }
    }
}

/// The message for each refusal.
pub open spec fn color_error_message(error: ColorError) -> Seq<char> {
    match error {
        ColorError::MissingHash => "color must start with #"@,
        ColorError::WrongLength => "color must be #RRGGBB"@,
        ColorError::NonHexDigit => "color contains a non-hex digit"@,
    }
}

/// The value of an ASCII hex digit, if `b` is one.
pub open spec fn hex_digit(b: u8) -> Option<nat> {
    if 0x30 <= b <= 0x39 {
        Some((b - 0x30) as nat)
    } else if 0x61 <= b <= 0x66 {
        Some((b - 0x61 + 10) as nat)
    } else if 0x41 <= b <= 0x46 {
        Some((b - 0x41 + 10) as nat)
    } else {
        None
    }
}

/// The value of a string of hex digits, most significant first, if all are digits.
pub open spec fn hex_value(digits: Seq<u8>) -> Option<nat>
    decreases digits.len(),
{
    if digits.len() == 0 {
        Some(0)
    } else {
        match (hex_value(digits.drop_last()), hex_digit(digits.last())) {
            (Some(high), Some(low)) => Some(high * 16 + low),
            _ => None,
        }
    }
}

/// The color a number below 2^24 stands for.
pub open spec fn rgb_of(value: nat) -> Rgb8 {
    Rgb8 { r: (value / 65536 % 256) as u8, g: (value / 256 % 256) as u8, b: (value % 256) as u8 }
}

/// What `#RRGGBB` text, given as UTF-8 bytes, stands for.
pub open spec fn parsed_color(text: Seq<u8>) -> Result<Rgb8, ColorError> {
    if text.len() == 0 || text[0] != 0x23 {
        Err(ColorError::MissingHash)
    } else if text.len() != 7 {
        Err(ColorError::WrongLength)
    } else {
        match hex_value(text.drop_first()) {
            Some(value) => Ok(rgb_of(value)),
            None => Err(ColorError::NonHexDigit),
        }
    }
}

/// 16 to the power `n`.
pub open spec fn pow16(n: nat) -> nat
    decreases n,
{
    if n == 0 {
        1
    } else {
        16 * pow16((n - 1) as nat)
    }
}

/// The value of one hex digit.
fn hex_digit_value(b: u8) -> (value: Option<u32>)
    ensures
        match value {
            Some(v) => hex_digit(b) == Some(v as nat),
            None => hex_digit(b) is None,
        },
{
    if 0x30 <= b && b <= 0x39 {
        Some((b - 0x30) as u32)
    } else if 0x61 <= b && b <= 0x66 {
        Some((b - 0x61 + 10) as u32)
    } else if 0x41 <= b && b <= 0x46 {
        Some((b - 0x41 + 10) as u32)
    } else {
        None
    }
}

/// Parses a color written as `#RRGGBB`.
pub fn parse_color(value: &str) -> (color: Result<Rgb8, ColorError>)
    ensures
        color == parsed_color(utf8(value@)),
{
    let text = value.as_bytes();
    if text.len() == 0 || text[0] != 0x23 {
        return Err(ColorError::MissingHash);
    }
    if text.len() != 7 {
        return Err(ColorError::WrongLength);
    }
    let start: usize = 1;
    let ghost digits = text@.drop_first();
    assert(digits =~= text@.subrange(start as int, 7));
    let mut number: u32 = 0;
    let mut i: usize = start;
    while i < 7
        invariant
            text@.len() == 7,
            text@[0] == 0x23,
            start <= i <= 7,
            1 <= start <= 2,
            digits =~= text@.subrange(start as int, 7),
            digits == text@.drop_first(),
            text@ == utf8(value@),
            hex_value(text@.subrange(start as int, i as int)) == Some(number as nat),
            number < pow16((i - start) as nat),
            pow16((i - start) as nat) <= 0x1000000,
        decreases 7 - i,
    {
        assert(text@.subrange(start as int, i + 1).drop_last() =~= text@.subrange(
            start as int,
            i as int,
        ));
        match hex_digit_value(text[i]) {
            Some(d) => {
                assert(pow16((i + 1 - start) as nat) == 16 * pow16((i - start) as nat));
                assert(pow16(6) == 0x1000000) by {
                    reveal_with_fuel(pow16, 7);
                }
                assert(pow16((i + 1 - start) as nat) <= 0x1000000) by {
                    lemma_pow16_monotonic((i + 1 - start) as nat, 6);
                }
                assert(number * 16 + d < 16 * pow16((i - start) as nat)) by (nonlinear_arith)
                    requires
                        number < pow16((i - start) as nat),
                        d < 16,
                ;
                number = number * 16 + d;
            },
            None => {
                proof {
                    assert(text@.subrange(start as int, 7)[(i - start) as int] == text@[i as int]);
                    lemma_hex_value_none(text@.subrange(start as int, 7), (i - start) as int);
                    assert(hex_value(digits) is None);
                    assert(text@[0] == 0x23 && text@.len() == 7);
                }
                return Err(ColorError::NonHexDigit);
            },
        }
        i += 1;
    }
    assert(number / 65536 % 256 == number / 65536);
    Ok(Rgb8 { r: (number / 65536) as u8, g: (number / 256 % 256) as u8, b: (number % 256) as u8 })
}

/// Powers of 16 grow.
proof fn lemma_pow16_monotonic(a: nat, b: nat)
    requires
        a <= b,
    ensures
        pow16(a) <= pow16(b),
    decreases b,
{
    if a < b {
        lemma_pow16_monotonic(a, (b - 1) as nat);
    }
}

/// A string with a non-digit has no hex value.
proof fn lemma_hex_value_none(digits: Seq<u8>, k: int)
    requires
        0 <= k < digits.len(),
        hex_digit(digits[k]) is None,
    ensures
        hex_value(digits) is None,
    decreases digits.len(),
{
    if k < digits.len() - 1 {
        lemma_hex_value_none(digits.drop_last(), k);
    }
}

/// Why the settings were refused.
#[derive(Debug, Clone, Copy, PartialEq, Eq)]
pub enum ConfigError {
    /// The default tool names no tool; the message says which names exist.
    Tool(&'static str),
    /// The palette does not hold between 2 and 12 colors.
    PaletteSize,
    /// The palette color at this index is malformed.
    PaletteColor(usize, ColorError),
    /// The default color is malformed.
    DefaultColor(ColorError),
    /// The default color is not one of the palette's.
    DefaultColorNotInPalette,
    /// The feedback duration exceeds one minute.
    FeedbackDuration,
}

/// What each refusal tells the user; for a malformed color, what is wrong
/// with it, which the overlay shows after the setting's name and value.
pub open spec fn config_error_message(error: ConfigError) -> Seq<char> {
    match error {
        ConfigError::Tool(message) => message@,
        ConfigError::PaletteSize => "palette must contain between 2 and 12 colors"@,
        ConfigError::PaletteColor(_, e) => color_error_message(e),
        ConfigError::DefaultColor(e) => color_error_message(e),
        ConfigError::DefaultColorNotInPalette => "default_color must be present in palette"@,
        ConfigError::FeedbackDuration => "feedback_duration_ms must not exceed 60000"@,
    }
}

impl ConfigError {
    /// What the refusal tells the user.
    pub fn message(self) -> (message: &'static str)
        ensures
            message@ == config_error_message(self),
    {
        proof {
            reveal_strlit("palette must contain between 2 and 12 colors");
            reveal_strlit("default_color must be present in palette");
            reveal_strlit("feedback_duration_ms must not exceed 60000");
        }
        match self {
            ConfigError::Tool(message) => message,
            ConfigError::PaletteSize => "palette must contain between 2 and 12 colors",
            ConfigError::PaletteColor(_, e) => e.message(),
            ConfigError::DefaultColor(e) => e.message(),
            ConfigError::DefaultColorNotInPalette => "default_color must be present in palette",
            ConfigError::FeedbackDuration => "feedback_duration_ms must not exceed 60000",
        }
    }
}

/// The palette, as the configuration would spell it, when the configuration
/// names none: red, orange, yellow, green, blue, purple, white, black.
pub open spec fn default_palette_spec() -> Seq<Seq<char>> {
    seq![
        "#E84046"@,
        "#EC8948"@,
        "#EED049"@,
        "#3ED73C"@,
        "#0283FC"@,
        "#7C57EB"@,
        "#FFFFFF"@,
        "#000000"@,
    ]
}

/// The palette used when the configuration names none.
pub fn default_palette() -> (palette: Vec<String>)
    ensures
        palette@.len() == default_palette_spec().len(),
        forall|i: int| 0 <= i < palette@.len() ==> #[trigger] palette@[i]@ == default_palette_spec()[i],
{
    let mut palette: Vec<String> = Vec::new();
    palette.push(String::from_str("#E84046"));
    palette.push(String::from_str("#EC8948"));
    palette.push(String::from_str("#EED049"));
    palette.push(String::from_str("#3ED73C"));
    palette.push(String::from_str("#0283FC"));
    palette.push(String::from_str("#7C57EB"));
    palette.push(String::from_str("#FFFFFF"));
    palette.push(String::from_str("#000000"));
    palette
}

/// The switches of the editor's behaviour, each at its documented default
/// where the configuration leaves it out.
#[derive(Debug, Clone, Copy, PartialEq, Eq, Structural)]
pub struct EditorOptions {
    /// Drawing mode comes back with the tool it was left with (default on).
    pub remember_last_tool: bool,
    /// Escape that leaves drawing mode also clears the annotations (default off).
    pub clear_on_escape: bool,
    /// Triangles, rectangles and ellipses start out filled (default off).
    pub default_fill_shapes: bool,
}

/// The configured switch, or `default` when the configuration leaves it out.
pub open spec fn switch_or(value: Option<bool>, default: bool) -> bool {
    match value {
        Some(v) => v,
        None => default,
    }
}

/// The editor's switches from the configuration, defaults filled in.
pub fn editor_options(
    remember_last_tool: Option<bool>,
    clear_on_escape: Option<bool>,
    default_fill_shapes: Option<bool>,
) -> (options: EditorOptions)
    ensures
        options.remember_last_tool == switch_or(remember_last_tool, true),
        options.clear_on_escape == switch_or(clear_on_escape, false),
        options.default_fill_shapes == switch_or(default_fill_shapes, false),
{
    EditorOptions {
        remember_last_tool: match remember_last_tool {
            Some(v) => v,
            None => true,
        },
        clear_on_escape: match clear_on_escape {
            Some(v) => v,
            None => false,
        },
        default_fill_shapes: match default_fill_shapes {
            Some(v) => v,
            None => false,
        },
    }
}

/// The settings that passed the checks.
pub struct CheckedSettings {
    pub default_tool: Tool,
    pub palette: Vec<Rgb8>,
    pub default_color: Rgb8,
    pub feedback_duration_ms: u64,
}

/// A byte with ASCII upper case letters made lower case.
pub open spec fn ascii_lower(b: u8) -> u8 {
    if 0x41 <= b <= 0x5a {
        (b + 0x20) as u8
    } else {
        b
    }
}

/// Bytes with ASCII upper case letters made lower case.
pub open spec fn ascii_lowercase(bytes: Seq<u8>) -> Seq<u8> {
    bytes.map_values(|b: u8| ascii_lower(b))
}

/// The default tool when the file names none.
pub open spec fn default_tool_name() -> Seq<u8> {
    seq![0x70u8, 0x65, 0x6e]
}

/// The tool the configured name stands for, ignoring ASCII case; `pen` when none is given.
pub fn parse_default_tool(name: Option<&str>) -> (tool: Result<Tool, &'static str>)
    ensures
        ({
            let bytes = match name {
                Some(n) => ascii_lowercase(utf8(n@)),
                None => default_tool_name(),
            };
            match tool {
                Ok(t) => named_tool(bytes) == Some(t),
                Err(message) => named_tool(bytes) is None && message@ == unknown_tool_message(),
            }
        }),
{
    match name {
        None => {
            let mut pen: Vec<u8> = Vec::new();
            pen.push(0x70);
            pen.push(0x65);
            pen.push(0x6e);
            assert(pen@ =~= default_tool_name());
            Tool::from_name_bytes(pen.as_slice())
        },
        Some(n) => {
            let bytes = n.as_bytes();
            let mut lower: Vec<u8> = Vec::new();
            let mut i: usize = 0;
            while i < bytes.len()
                invariant
                    0 <= i <= bytes@.len(),
                    lower@ =~= ascii_lowercase(bytes@.take(i as int)),
                decreases bytes@.len() - i,
            {
                let b = bytes[i];
                let l = if 0x41 <= b && b <= 0x5a {
                    b + 0x20
                } else {
                    b
                };
                lower.push(l);
                i += 1;
            }
            assert(bytes@.take(bytes@.len() as int) =~= bytes@);
            Tool::from_name_bytes(lower.as_slice())
        },
    }
}

/// The first malformed color of a palette and why, if any.
pub open spec fn first_bad_color(palette: Seq<String>, from: int) -> Option<(int, ColorError)>
    decreases palette.len() - from,
{
    if from >= palette.len() || from < 0 {
        None
    } else {
        match parsed_color(utf8(palette[from]@)) {
            Err(e) => Some((from, e)),
            Ok(_) => first_bad_color(palette, from + 1),
        }
    }
}

/// Parses a palette of 2 to 12 colors.
pub fn resolve_palette(palette: &Vec<String>) -> (colors: Result<Vec<Rgb8>, ConfigError>)
    ensures
        palette@.len() < 2 || palette@.len() > 12 ==> colors == Err::<Vec<Rgb8>, ConfigError>(
            ConfigError::PaletteSize,
        ),
        2 <= palette@.len() <= 12 ==> match first_bad_color(palette@, 0) {
            Some((index, error)) => colors == Err::<Vec<Rgb8>, ConfigError>(
                ConfigError::PaletteColor(index as usize, error),
            ),
            None => colors matches Ok(c) && c@.len() == palette@.len() && forall|i: int|
                0 <= i < c@.len() ==> parsed_color(utf8(palette@[i]@)) == Ok::<
                    Rgb8,
                    ColorError,
                >(#[trigger] c@[i]),
        },
{
    if palette.len() < 2 || palette.len() > 12 {
        return Err(ConfigError::PaletteSize);
    }
    let ghost bytes = palette@;
    let mut colors: Vec<Rgb8> = Vec::new();
    let mut i: usize = 0;
    while i < palette.len()
        invariant
            0 <= i <= palette@.len(),
            bytes == palette@,
            2 <= palette@.len() <= 12,
            colors@.len() == i,
            forall|j: int|
                0 <= j < i ==> parsed_color(utf8(palette@[j]@)) == Ok::<Rgb8, ColorError>(
                    #[trigger] colors@[j],
                ),
            first_bad_color(bytes, 0) == first_bad_color(bytes, i as int),
        decreases palette@.len() - i,
    {
        match parse_color(palette[i].as_str()) {
            Ok(c) => {
                colors.push(c);
                assert(first_bad_color(bytes, i as int) == first_bad_color(bytes, i + 1));
            },
            Err(e) => {
                assert(first_bad_color(bytes, i as int) == Some((i as int, e)));
                return Err(ConfigError::PaletteColor(i, e));
            },
        }
        i += 1;
    }
    assert(first_bad_color(bytes, i as int) is None);
    Ok(colors)
}

/// The configured default color, which must be in the palette; the first
/// palette color when none is configured.
pub fn resolve_default_color(palette: &Vec<Rgb8>, default_color: Option<&str>) -> (color: Result<
    Rgb8,
    ConfigError,
>)
    requires
        palette@.len() > 0,
    ensures
        match default_color {
            None => color == Ok::<Rgb8, ConfigError>(palette@[0]),
            Some(text) => match parsed_color(utf8(text@)) {
                Err(e) => color == Err::<Rgb8, ConfigError>(ConfigError::DefaultColor(e)),
                Ok(c) => if palette@.contains(c) {
                    color == Ok::<Rgb8, ConfigError>(c)
                } else {
                    color == Err::<Rgb8, ConfigError>(ConfigError::DefaultColorNotInPalette)
                },
            },
        },
{
    match default_color {
        None => {
            let c = palette[0];
            assert(c == palette@[0]);
            Ok(c)
        },
        Some(text) => match parse_color(text) {
            Err(e) => Err(ConfigError::DefaultColor(e)),
            Ok(c) => {
                let mut i: usize = 0;
                while i < palette.len()
                    invariant
                        0 <= i <= palette@.len(),
                        forall|j: int| 0 <= j < i ==> palette@[j] != c,
                        default_color == Some(text),
                        parse_color_result(text, c),
                    decreases palette@.len() - i,
                {
                    if palette[i] == c {
                        assert(palette@[i as int] == c);
                        return Ok(c);
                    }
                    i += 1;
                }
                Err(ConfigError::DefaultColorNotInPalette)
            },
        },
    }
}

/// `text` parses as the color `c`.
pub open spec fn parse_color_result(text: &str, c: Rgb8) -> bool {
    parsed_color(utf8(text@)) == Ok::<Rgb8, ColorError>(c)
}

/// The feedback duration in milliseconds: 500 when none is configured, at most 60000.
pub fn check_feedback_duration(duration_ms: Option<u64>) -> (checked: Result<u64, ConfigError>)
    ensures
        ({
            let ms = match duration_ms {
                Some(ms) => ms,
                None => 500,
            };
            if ms > 60000 {
                checked == Err::<u64, ConfigError>(ConfigError::FeedbackDuration)
            } else {
                checked == Ok::<u64, ConfigError>(ms)
            }
        }),
{
    let ms = match duration_ms {
        Some(ms) => ms,
        None => 500,
    };
    if ms > 60000 {
        Err(ConfigError::FeedbackDuration)
    } else {
        Ok(ms)
    }
}

/// Some color of the palette parses as `c`.
pub open spec fn palette_has(palette: Seq<String>, c: Rgb8) -> bool {
    exists|i: int| 0 <= i < palette.len() && parsed_color(utf8(palette[i]@)) == Ok::<Rgb8, ColorError>(c)
}

/// The feedback duration that applies: 500 ms when none is configured.
pub open spec fn feedback_ms(duration_ms: Option<u64>) -> u64 {
    match duration_ms {
        Some(ms) => ms,
        None => 500,
    }
}

/// The first problem with the palette, the default color and the feedback
/// duration, in the order they are checked; `None` when all are fine.
pub open spec fn settings_error(
    palette: Seq<String>,
    default_color: Option<&str>,
    duration_ms: Option<u64>,
) -> Option<ConfigError> {
    if palette.len() < 2 || palette.len() > 12 {
        Some(ConfigError::PaletteSize)
    } else if let Some((index, error)) = first_bad_color(palette, 0) {
        Some(ConfigError::PaletteColor(index as usize, error))
    } else {
        match default_color {
            Some(text) => match parsed_color(utf8(text@)) {
                Err(error) => Some(ConfigError::DefaultColor(error)),
                Ok(c) => if !palette_has(palette, c) {
                    Some(ConfigError::DefaultColorNotInPalette)
                } else if feedback_ms(duration_ms) > 60000 {
                    Some(ConfigError::FeedbackDuration)
                } else {
                    None
                },
            },
            None => if feedback_ms(duration_ms) > 60000 {
                Some(ConfigError::FeedbackDuration)
            } else {
                None
            },
        }
    }
}

/// Checks the settings in the order the overlay reports problems: the
/// default tool, the palette, the default color, the feedback duration.
pub fn check_settings(
    default_tool: Option<&str>,
    palette: &Vec<String>,
    default_color: Option<&str>,
    feedback_duration_ms: Option<u64>,
) -> (checked: Result<CheckedSettings, ConfigError>)
    ensures
        parse_default_tool_result(default_tool) is Err ==> (checked matches Err(
            ConfigError::Tool(m),
        ) && m@ == unknown_tool_message()),
        parse_default_tool_result(default_tool) is Ok ==> match settings_error(
            palette@,
            default_color,
            feedback_duration_ms,
        ) {
            Some(error) => checked == Err::<CheckedSettings, ConfigError>(error),
            None => checked is Ok,
        },
        checked matches Ok(s) ==> {
            &&& parse_default_tool_result(default_tool) == Ok::<Tool, ()>(s.default_tool)
            &&& s.palette@.len() == palette@.len()
            &&& forall|i: int|
                0 <= i < s.palette@.len() ==> parsed_color(utf8(palette@[i]@)) == Ok::<
                    Rgb8,
                    ColorError,
                >(#[trigger] s.palette@[i])
            &&& s.palette@.contains(s.default_color)
            &&& match default_color {
                None => s.default_color == s.palette@[0],
                Some(text) => parsed_color(utf8(text@)) == Ok::<Rgb8, ColorError>(
                    s.default_color,
                ),
            }
            &&& s.feedback_duration_ms == feedback_ms(feedback_duration_ms)
        },
{
    let tool = match parse_default_tool(default_tool) {
        Ok(tool) => tool,
        Err(message) => return Err(ConfigError::Tool(message)),
    };
    let colors = match resolve_palette(palette) {
        Ok(colors) => colors,
        Err(e) => return Err(e),
    };
    proof {
        assert forall|c: Rgb8| colors@.contains(c) == palette_has(palette@, c) by {
            if colors@.contains(c) {
                let i = choose|i: int| 0 <= i < colors@.len() && colors@[i] == c;
                assert(parsed_color(utf8(palette@[i]@)) == Ok::<Rgb8, ColorError>(colors@[i]));
            }
            if palette_has(palette@, c) {
                let i = choose|i: int|
                    0 <= i < palette@.len() && parsed_color(utf8(palette@[i]@)) == Ok::<
                        Rgb8,
                        ColorError,
                    >(c);
                assert(parsed_color(utf8(palette@[i]@)) == Ok::<Rgb8, ColorError>(colors@[i]));
                assert(colors@[i] == c);
            }
        }
    }
    let color = match resolve_default_color(&colors, default_color) {
        Ok(color) => color,
        Err(e) => return Err(e),
    };
    proof {
        if default_color is None {
            assert(colors@.contains(colors@[0]));
        }
    }
    let ms = match check_feedback_duration(feedback_duration_ms) {
        Ok(ms) => ms,
        Err(e) => return Err(e),
    };
    Ok(CheckedSettings { default_tool: tool, palette: colors, default_color: color, feedback_duration_ms: ms })
}

/// The tool the configured name stands for, as `parse_default_tool` finds it.
pub open spec fn parse_default_tool_result(name: Option<&str>) -> Result<Tool, ()> {
    let bytes = match name {
        Some(n) => ascii_lowercase(utf8(n@)),
        None => default_tool_name(),
    };
    match named_tool(bytes) {
        Some(t) => Ok(t),
        None => Err(()),
    }
}

} // verus!
