//! The one accepted colour notation, read into its digits.

use hypr_swap::colour::{read_hex_colour, ColourError, HexColour};

#[test]
fn the_error_says_what_was_expected() {
    assert_eq!(
        ColourError.to_string(),
        "expected #rgb, #rrggbb or #rrggbbaa"
    );
}

#[test]
fn the_three_accepted_forms_are_read_into_their_digits() {
    assert_eq!(
        read_hex_colour("#f80"),
        Ok(HexColour::Short { red: 15, green: 8, blue: 0 })
    );
    assert_eq!(
        read_hex_colour("#ff8800"),
        Ok(HexColour::Full { red: 255, green: 136, blue: 0, alpha: None })
    );
    assert_eq!(
        read_hex_colour("#ff880080"),
        Ok(HexColour::Full { red: 255, green: 136, blue: 0, alpha: Some(128) })
    );
}

#[test]
fn upper_and_lower_case_digits_read_the_same() {
    assert_eq!(read_hex_colour("#AbCdEf"), read_hex_colour("#abcdef"));
}

#[test]
fn every_other_input_is_rejected_rather_than_partially_read() {
    for rejected in ["", "#", "f80", "#f8", "#f800", "#ff88000", "#ff8800800", "#gg8800", "#ff 800", "red"] {
        assert_eq!(read_hex_colour(rejected), Err(ColourError), "{rejected:?}");
    }
}
