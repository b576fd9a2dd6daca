use pustaka::codes::{book_barcode, next_member_code, next_sequence_number, render_member_code, render_year_prefix};

#[test]
fn first_code_of_an_empty_year_is_0001() {
    assert_eq!(next_member_code(2024, None), "MBR-2024-0001");
}

#[test]
fn next_code_in_the_same_year_counts_up() {
    let first = next_member_code(2024, None);
    assert_eq!(first, "MBR-2024-0001");
    let second = next_member_code(2024, Some(first.as_str()));
    assert_eq!(second, "MBR-2024-0002");
}

#[test]
fn sequence_crosses_into_five_digits_unpadded() {
    assert_eq!(next_member_code(2024, Some("MBR-2024-9999")), "MBR-2024-10000");
}

#[test]
fn malformed_numeric_suffix_falls_back_to_one() {
    assert_eq!(next_member_code(2024, Some("MBR-2024-abcd")), "MBR-2024-0001");
    assert_eq!(next_member_code(2024, Some("MBR-2024-")), "MBR-2024-0001");
}

#[test]
fn wrong_dash_shape_falls_back_to_one() {
    assert_eq!(next_sequence_number(Some("MBR2024")), 1);
    assert_eq!(next_sequence_number(Some("MBR-2024-00-42")), 1);
    assert_eq!(next_sequence_number(Some("")), 1);
}

#[test]
fn leading_zeros_parse_as_their_value() {
    assert_eq!(next_sequence_number(Some("MBR-2024-0041")), 42);
}

#[test]
fn overlong_suffix_falls_back_to_one() {
    assert_eq!(next_sequence_number(Some("MBR-2024-99999999999999999999")), 1);
}

#[test]
fn rendering_pads_to_four_digits() {
    assert_eq!(render_member_code(2024, 7), "MBR-2024-0007");
    assert_eq!(render_member_code(2024, 123), "MBR-2024-0123");
    assert_eq!(render_member_code(987, 12345), "MBR-0987-12345");
}

#[test]
fn year_prefix_matches_the_store_pattern() {
    assert_eq!(render_year_prefix(2024), "MBR-2024");
}

#[test]
fn barcode_is_keyed_to_year_and_row_identity() {
    assert_eq!(book_barcode(2024, 7), "B-2024-0007");
    assert_eq!(book_barcode(2025, 12), "B-2025-0012");
}
