use home_display::io::{BufWriter, FormatError};
use home_display::text::{
    floor_tenths, format_i64, format_tenths, format_two_digits, format_u64, round_hundredths_i64,
    round_tenths_i64, str_eq,
};

#[test]
fn plain_numbers_render_without_leading_zeros() {
    assert_eq!(format_u64(0), "0");
    assert_eq!(format_u64(7), "7");
    assert_eq!(format_u64(2024), "2024");
    assert_eq!(format_i64(-45), "-45");
    assert_eq!(format_i64(0), "0");
}

#[test]
fn clock_digits_are_zero_padded() {
    assert_eq!(format_two_digits(3), "03");
    assert_eq!(format_two_digits(12), "12");
    assert_eq!(format_two_digits(0), "00");
}

#[test]
fn tenths_render_like_the_service_sends_them() {
    // A whole number of degrees drops the fractional digit.
    assert_eq!(format_tenths(750), "75");
    assert_eq!(format_tenths(757), "75.7");
    assert_eq!(format_tenths(-5), "-0.5");
    assert_eq!(format_tenths(-102), "-10.2");
    assert_eq!(format_tenths(0), "0");
}

#[test]
fn flooring_goes_toward_minus_infinity() {
    assert_eq!(floor_tenths(757), 75);
    assert_eq!(floor_tenths(602), 60);
    assert_eq!(floor_tenths(-5), -1);
    assert_eq!(floor_tenths(-102), -11);
    assert_eq!(floor_tenths(0), 0);
}

#[test]
fn rounding_takes_halves_away_from_zero() {
    assert_eq!(round_tenths_i64(225), 23);
    assert_eq!(round_tenths_i64(224), 22);
    assert_eq!(round_tenths_i64(-225), -23);
    assert_eq!(round_hundredths_i64(7250), 73);
    assert_eq!(round_hundredths_i64(7249), 72);
    assert_eq!(round_hundredths_i64(-7250), -73);
}

#[test]
fn text_comparison_is_by_characters() {
    assert!(str_eq("12/24", "12/24"));
    assert!(!str_eq("12/8", "12/08"));
    assert!(!str_eq("abc", "abcd"));
}

#[test]
fn a_row_of_pieces_is_joined_as_one_write() {
    let mut buffer = BufWriter::new(16);
    let parts = vec!["one", " ", "two"];
    home_display::io::easy_format_str(&parts, &mut buffer).expect("seven characters fit");
    assert_eq!(buffer.as_str(), "one two");
    // A row that does not fit is refused whole, leaving earlier text.
    let parts = vec!["0123456789", "0123456789"];
    assert_eq!(
        home_display::io::easy_format_str(&parts, &mut buffer),
        Err(FormatError::BufferOverflow)
    );
    assert_eq!(buffer.as_str(), "one two");
}
