use dataset_engine::text::{decimal_string, numbered_string};

#[test]
fn numbers_are_written_in_decimal() {
    assert_eq!(decimal_string(0), "0");
    assert_eq!(decimal_string(7), "7");
    assert_eq!(decimal_string(10), "10");
    assert_eq!(decimal_string(409), "409");
    assert_eq!(decimal_string(1234567890), "1234567890");
    assert_eq!(decimal_string(usize::MAX), format!("{}", usize::MAX));
}

#[test]
fn label_and_number_are_joined_by_a_space() {
    assert_eq!(numbered_string("Sample instruction", 1), "Sample instruction 1");
    assert_eq!(numbered_string("Relevant passage", 25), "Relevant passage 25");
    assert_eq!(numbered_string("", 3), " 3");
}
