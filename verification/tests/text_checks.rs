use sudoku_backend::job::StatusKind;
use sudoku_backend::job::status_label;
use sudoku_backend::text::concat_str;
use sudoku_backend::text::u8_to_dec;

#[test]
fn decimal_rendering_of_bytes() {
    assert_eq!(u8_to_dec(0).as_str(), "0");
    assert_eq!(u8_to_dec(7).as_str(), "7");
    assert_eq!(u8_to_dec(10).as_str(), "10");
    assert_eq!(u8_to_dec(42).as_str(), "42");
    assert_eq!(u8_to_dec(99).as_str(), "99");
    assert_eq!(u8_to_dec(100).as_str(), "100");
    assert_eq!(u8_to_dec(255).as_str(), "255");
}

#[test]
fn concatenation_keeps_both_parts() {
    assert_eq!(concat_str("New job created: ", "abc").as_str(), "New job created: abc");
    assert_eq!(concat_str("", "x").as_str(), "x");
    assert_eq!(concat_str("x", "").as_str(), "x");
}

#[test]
fn status_labels_match_the_wire_protocol() {
    assert_eq!(status_label(StatusKind::Processing).as_str(), "processing");
    assert_eq!(status_label(StatusKind::Complete).as_str(), "complete");
    assert_eq!(status_label(StatusKind::Failed).as_str(), "failed");
    assert_eq!(status_label(StatusKind::NotFound).as_str(), "not_found");
}
