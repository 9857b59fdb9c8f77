use evno::{is_power_of_two, Capacity, CapacityError};

#[test]
fn powers_of_two_from_two_are_accepted() {
    for value in [2usize, 4, 8, 1024, 1 << 20] {
        let capacity = Capacity::new(value).expect("accepted");
        assert_eq!(capacity.get(), value);
    }
}

#[test]
fn capacities_below_two_are_too_small() {
    assert_eq!(Capacity::new(0).err(), Some(CapacityError::TooSmall));
    assert_eq!(Capacity::new(1).err(), Some(CapacityError::TooSmall));
}

#[test]
fn other_capacities_are_not_powers_of_two() {
    for value in [3usize, 5, 6, 12, 1000, usize::MAX] {
        assert_eq!(Capacity::new(value).err(), Some(CapacityError::NotPowerOfTwo));
    }
}

#[test]
fn power_of_two_check_matches_std() {
    for value in 0usize..2050 {
        assert_eq!(is_power_of_two(value), value.is_power_of_two(), "{}", value);
    }
    assert!(is_power_of_two(1usize << 63));
    assert!(!is_power_of_two((1usize << 63) + 1));
}
