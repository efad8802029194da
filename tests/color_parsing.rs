use color_contrast::color::{Channel, Color, ColorFromHexError};
use color_contrast::hex::HexToDecError;

fn channels(c: Color) -> (u8, u8, u8) {
    (c.red, c.green, c.blue)
}

#[test]
fn parses_white_and_black() {
    assert_eq!(Color::from_hex("#FFFFFF").map(channels), Ok((255, 255, 255)));
    assert_eq!(Color::from_hex("000000").map(channels), Ok((0, 0, 0)));
}

#[test]
fn accepts_both_forms_and_any_case() {
    assert_eq!(Color::from_hex("#ffffff"), Color::from_hex("#FFFFFF"));
    assert_eq!(Color::from_hex("ffffff"), Color::from_hex("#FFFFFF"));
    assert_eq!(Color::from_hex("#f26CA7"), Ok(Color::new(242, 108, 167)));
    assert_eq!(Color::from_hex("F26ca7"), Ok(Color::new(242, 108, 167)));
}

#[test]
fn trims_surrounding_whitespace() {
    assert_eq!(Color::from_hex("  #0a0b0c\n"), Ok(Color::new(10, 11, 12)));
    assert_eq!(Color::from_hex("\t102030 \r"), Ok(Color::new(16, 32, 48)));
}

#[test]
fn rejects_empty_input() {
    assert_eq!(Color::from_hex(""), Err(ColorFromHexError::InputIsEmpty));
}

#[test]
fn rejects_short_input() {
    assert_eq!(Color::from_hex("#fff"), Err(ColorFromHexError::InvalidInputLength));
    assert_eq!(Color::from_hex("   "), Err(ColorFromHexError::InvalidInputLength));
}

#[test]
fn rejects_misplaced_or_missing_hash() {
    assert_eq!(Color::from_hex("#fffff"), Err(ColorFromHexError::InvalidInputLength));
    assert_eq!(Color::from_hex("fffffff"), Err(ColorFromHexError::InvalidInputLength));
    assert_eq!(Color::from_hex("##ffffff"), Err(ColorFromHexError::InvalidInputLength));
}

#[test]
fn rejects_non_ascii_before_length() {
    assert_eq!(Color::from_hex("é"), Err(ColorFromHexError::InputIsNotAscii));
    assert_eq!(Color::from_hex("#ffffff\u{a0}"), Err(ColorFromHexError::InputIsNotAscii));
    assert_eq!(Color::from_hex("#ＦＦＦＦＦＦ"), Err(ColorFromHexError::InputIsNotAscii));
}

#[test]
fn reports_failing_channel() {
    assert_eq!(
        Color::from_hex("#gg0000"),
        Err(ColorFromHexError::InvalidChannel(Channel::Red, HexToDecError::LeftDigitInvalid))
    );
    assert_eq!(
        Color::from_hex("00g400"),
        Err(ColorFromHexError::InvalidChannel(Channel::Green, HexToDecError::LeftDigitInvalid))
    );
    assert_eq!(
        Color::from_hex("00000z"),
        Err(ColorFromHexError::InvalidChannel(Channel::Blue, HexToDecError::RightDigitInvalid))
    );
    assert_eq!(
        Color::from_hex("123 56"),
        Err(ColorFromHexError::InvalidChannel(Channel::Green, HexToDecError::RightDigitInvalid))
    );
}

#[test]
fn builds_from_channels() {
    assert_eq!(channels(Color::new(242, 108, 167)), (242, 108, 167));
    assert_eq!(channels(Color::new(0, 255, 1)), (0, 255, 1));
}

#[test]
fn round_trips_through_lowercase_code() {
    for (r, g, b) in [(0u8, 0u8, 0u8), (255, 255, 255), (242, 108, 167), (1, 16, 171)] {
        let code = format!("{:02x}{:02x}{:02x}", r, g, b);
        assert_eq!(Color::from_hex(&code), Ok(Color::new(r, g, b)));
        assert_eq!(Color::from_hex(&format!("#{}", code.to_uppercase())), Ok(Color::new(r, g, b)));
    }
}

#[test]
fn distinct_codes_give_distinct_colors() {
    assert_ne!(Color::from_hex("#010000"), Color::from_hex("#000001"));
    assert_ne!(Color::from_hex("#100000"), Color::from_hex("#010000"));
}
