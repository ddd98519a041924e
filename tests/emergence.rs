use legion_core::emergence::{paired_length, Mode};

#[test]
fn mode_labels() {
    assert_eq!(Mode::Order.label(), "ORDER");
    assert_eq!(Mode::Chaos.label(), "CHAOS");
}

#[test]
fn paired_length_of_equal_lengths() {
    assert_eq!(paired_length(3, 3), Some(3));
    assert_eq!(paired_length(1, 1), Some(1));
}

#[test]
fn paired_length_of_different_lengths_is_none() {
    assert_eq!(paired_length(3, 2), None);
    assert_eq!(paired_length(2, 3), None);
}

#[test]
fn paired_length_of_empty_sequences_is_none() {
    assert_eq!(paired_length(0, 0), None);
    assert_eq!(paired_length(0, 4), None);
}
