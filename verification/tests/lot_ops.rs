//! Tests of the state store operations: allocation, parking, leaving,
//! status, and lookups.

use parking_lot::error::ParkError;
use parking_lot::lot::{Car, ParkLotIntern, Query};

#[test]
fn test_alloc() {
    let mut p = ParkLotIntern::new();
    assert!(p.allocate(7).is_ok());
    assert!(p.allocate(6).is_err());
}

#[test]
fn test_park_leave() {
    let mut p = ParkLotIntern::new();

    p.allocate(3).unwrap();

    assert!(p.park("T800", "Red").is_ok());
    assert!(p.park("T1000", "BLACK").is_ok());
    assert!(p.park("HAL9000", "GrEeN").is_ok());

    assert!(p.park("Submarine", "Yellow").is_err());

    assert!(p.leave(2).is_ok());
    assert!(p.leave(3).is_ok());

    assert_eq!(
        p.park("Submarine", "Yellow").unwrap().pop().unwrap(),
        "Allocated slot number: 2"
    );
}

#[test]
fn allocate_twice_fails_regardless_of_capacity() {
    let mut p = ParkLotIntern::new();
    assert!(p.allocate(1).is_ok());
    assert!(matches!(p.allocate(1), Err(ParkError::AlreadyAllocated)));
    assert!(matches!(p.allocate(50), Err(ParkError::AlreadyAllocated)));
    let e = p.allocate(9).unwrap_err();
    assert_eq!(e.message(), "Parking slots already allocated");
}

#[test]
fn allocate_zero_fails_and_positive_succeeds() {
    let mut p = ParkLotIntern::new();
    let e = p.allocate(0).unwrap_err();
    assert!(matches!(e, ParkError::InvalidCapacity));
    assert_eq!(e.message(), "Parking lot size must be greater than 0");
    let lines = p.allocate(5).unwrap();
    assert_eq!(lines, vec!["Created a parking lot with 5 slots".to_string()]);
}

#[test]
fn park_takes_lowest_empty_slot_in_order() {
    let mut p = ParkLotIntern::new();
    p.allocate(3).unwrap();
    assert_eq!(p.park("A", "Blue").unwrap(), vec!["Allocated slot number: 1".to_string()]);
    assert_eq!(p.park("B", "Blue").unwrap(), vec!["Allocated slot number: 2".to_string()]);
    assert_eq!(p.park("C", "Blue").unwrap(), vec!["Allocated slot number: 3".to_string()]);
}

#[test]
fn park_on_full_lot_fails() {
    let mut p = ParkLotIntern::new();
    p.allocate(1).unwrap();
    p.park("A", "Blue").unwrap();
    let e = p.park("B", "Red").unwrap_err();
    assert!(matches!(e, ParkError::LotFull));
    assert_eq!(e.message(), "Sorry, parking lot is full");
}

#[test]
fn leave_out_of_range_fails_with_bounds_in_message() {
    let mut p = ParkLotIntern::new();
    p.allocate(3).unwrap();
    let e = p.leave(0).unwrap_err();
    assert!(matches!(e, ParkError::InvalidSlotNumber(3)));
    let e = p.leave(4).unwrap_err();
    assert!(matches!(e, ParkError::InvalidSlotNumber(3)));
    assert_eq!(
        e.message(),
        "Invalid parking place number, please choose a number in interval [1, 3]"
    );
}

#[test]
fn leave_frees_slot_for_next_park() {
    let mut p = ParkLotIntern::new();
    p.allocate(2).unwrap();
    p.park("A", "Blue").unwrap();
    p.park("B", "Red").unwrap();
    assert_eq!(p.leave(1).unwrap(), vec!["Slot number 1 is free".to_string()]);
    assert_eq!(p.park("C", "Green").unwrap(), vec!["Allocated slot number: 1".to_string()]);
}

#[test]
fn leave_of_empty_slot_succeeds() {
    let mut p = ParkLotIntern::new();
    p.allocate(2).unwrap();
    assert_eq!(p.leave(2).unwrap(), vec!["Slot number 2 is free".to_string()]);
    assert_eq!(p.leave(2).unwrap(), vec!["Slot number 2 is free".to_string()]);
}

#[test]
fn status_lists_header_and_occupied_slots() {
    let mut p = ParkLotIntern::new();
    p.allocate(3).unwrap();
    p.park("T800", "Red").unwrap();
    p.park("T1000", "Black").unwrap();
    p.leave(1).unwrap();
    let lines = p.status().unwrap();
    assert_eq!(
        lines,
        vec![
            "Slot No.   Registration No  Colour".to_string(),
            "2     T1000  Black".to_string(),
        ]
    );
}

#[test]
fn status_on_fresh_lot_is_header_only() {
    let mut p = ParkLotIntern::new();
    p.allocate(4).unwrap();
    let lines = p.status().unwrap();
    assert_eq!(lines, vec!["Slot No.   Registration No  Colour".to_string()]);
}

#[test]
fn operations_before_allocation_fail() {
    let mut p = ParkLotIntern::new();
    assert!(matches!(p.park("A", "B"), Err(ParkError::NotAllocated)));
    assert!(matches!(p.leave(1), Err(ParkError::NotAllocated)));
    assert!(matches!(p.status(), Err(ParkError::NotAllocated)));
    assert!(matches!(
        p.query(&Query::RegNumbersForColor("Red".to_string())),
        Err(ParkError::NotAllocated)
    ));
    let e = p.status().unwrap_err();
    assert_eq!(e.message(), "Parking slots are not allocated");
}

#[test]
fn queries_are_case_insensitive() {
    let mut p = ParkLotIntern::new();
    p.allocate(2).unwrap();
    p.park("T800", "Red").unwrap();
    for color in ["red", "RED", "ReD"] {
        let lines = p.query(&Query::SlotNumbersForColor(color.to_string())).unwrap();
        assert_eq!(lines, vec!["1".to_string()]);
    }
    let lines = p.query(&Query::RegNumbersForColor("rEd".to_string())).unwrap();
    assert_eq!(lines, vec!["T800".to_string()]);
    let lines = p.query(&Query::SlotNumbersForRegNo("t800".to_string())).unwrap();
    assert_eq!(lines, vec!["1".to_string()]);
}

#[test]
fn query_with_no_match_fails_with_not_found() {
    let mut p = ParkLotIntern::new();
    p.allocate(2).unwrap();
    p.park("T800", "Red").unwrap();
    let e = p.query(&Query::SlotNumbersForColor("Blue".to_string())).unwrap_err();
    assert!(matches!(e, ParkError::NotFound));
    assert_eq!(e.message(), "Not found");
}

#[test]
fn query_lists_all_matches_in_slot_order() {
    let mut p = ParkLotIntern::new();
    p.allocate(4).unwrap();
    p.park("A", "Red").unwrap();
    p.park("B", "Blue").unwrap();
    p.park("C", "red").unwrap();
    p.park("D", "RED").unwrap();
    let lines = p.query(&Query::SlotNumbersForColor("Red".to_string())).unwrap();
    assert_eq!(lines, vec!["1".to_string(), "3".to_string(), "4".to_string()]);
    let lines = p.query(&Query::RegNumbersForColor("Red".to_string())).unwrap();
    assert_eq!(lines, vec!["A".to_string(), "C".to_string(), "D".to_string()]);
}

#[test]
fn car_matching_ignores_case() {
    let car = Car::new("T800".to_string(), "Red".to_string());
    assert!(car.reg_num_match("t800"));
    assert!(car.reg_num_match("T800"));
    assert!(!car.reg_num_match("T1000"));
    assert!(car.color_match("RED"));
    assert!(!car.color_match("Blue"));
    assert_eq!(car.reg_num(), "T800");
}
