//! Tests of the command interpreter: the grammar, the end-to-end scenario,
//! and the rendering of answers.

use parking_lot::error::ParkError;
use parking_lot::interp::{tokenize, ParkingLot};
use parking_lot::messages::parse_usize;

#[test]
fn test_repl_ok() {
    let mut parking = ParkingLot::new();
    assert_eq!(
        parking.repl("create_parking_lot 6").unwrap().pop().unwrap(),
        "Created a parking lot with 6 slots"
    );
}

#[test]
fn test_repl_unknown_command() {
    let mut parking = ParkingLot::new();
    let e = parking.repl("this is sparta").err().unwrap();
    assert_eq!(e.message(), "Can't parse command: this is sparta");
}

#[test]
fn end_to_end_scenario() {
    let mut parking = ParkingLot::new();
    assert_eq!(
        parking.repl("create_parking_lot 3").unwrap(),
        vec!["Created a parking lot with 3 slots".to_string()]
    );
    assert_eq!(
        parking.repl("park T800 Red").unwrap(),
        vec!["Allocated slot number: 1".to_string()]
    );
    assert_eq!(
        parking.repl("park T1000 Black").unwrap(),
        vec!["Allocated slot number: 2".to_string()]
    );
    assert_eq!(
        parking.repl("park HAL9000 Green").unwrap(),
        vec!["Allocated slot number: 3".to_string()]
    );
    assert!(matches!(
        parking.repl("park Submarine Yellow"),
        Err(ParkError::LotFull)
    ));
    assert_eq!(
        parking.repl("leave 2").unwrap(),
        vec!["Slot number 2 is free".to_string()]
    );
    assert_eq!(
        parking.repl("leave 3").unwrap(),
        vec!["Slot number 3 is free".to_string()]
    );
    assert_eq!(
        parking.repl("park Submarine Yellow").unwrap(),
        vec!["Allocated slot number: 2".to_string()]
    );
}

#[test]
fn repl_queries_are_case_insensitive() {
    let mut parking = ParkingLot::new();
    parking.repl("create_parking_lot 2").unwrap();
    parking.repl("park T800 Red").unwrap();
    for cmd in [
        "slot_numbers_for_cars_with_colour red",
        "slot_numbers_for_cars_with_colour RED",
        "slot_numbers_for_cars_with_colour ReD",
    ] {
        assert_eq!(parking.repl(cmd).unwrap(), vec!["1".to_string()]);
    }
    assert_eq!(
        parking.repl("registration_numbers_for_cars_with_colour rEd").unwrap(),
        vec!["T800".to_string()]
    );
    assert_eq!(
        parking.repl("slot_number_for_registration_number t800").unwrap(),
        vec!["1".to_string()]
    );
}

#[test]
fn commands_before_create_fail_with_not_allocated() {
    let mut parking = ParkingLot::new();
    assert!(matches!(parking.repl("status"), Err(ParkError::NotAllocated)));
    assert!(matches!(parking.repl("park A B"), Err(ParkError::NotAllocated)));
    assert!(matches!(parking.repl("leave 1"), Err(ParkError::NotAllocated)));
    assert!(matches!(
        parking.repl("slot_numbers_for_cars_with_colour Red"),
        Err(ParkError::NotAllocated)
    ));
}

#[test]
fn parse_error_echoes_input_verbatim() {
    let mut parking = ParkingLot::new();
    for line in ["", "park", "park A", "park A B C", "status now", "Status", "create_parking_lot"] {
        match parking.repl(line) {
            Err(ParkError::ParseError(echoed)) => assert_eq!(echoed, line),
            other => panic!("expected a parse error for {:?}, got {:?}", line, other),
        }
    }
}

#[test]
fn malformed_numbers_fail_to_parse() {
    let mut parking = ParkingLot::new();
    assert!(matches!(
        parking.repl("create_parking_lot abc"),
        Err(ParkError::ParseError(_))
    ));
    assert!(matches!(
        parking.repl("create_parking_lot 99999999999999999999999999"),
        Err(ParkError::ParseError(_))
    ));
    assert!(matches!(
        parking.repl("create_parking_lot -1"),
        Err(ParkError::ParseError(_))
    ));
    parking.repl("create_parking_lot 1").unwrap();
    assert!(matches!(parking.repl("leave 1x"), Err(ParkError::ParseError(_))));
}

#[test]
fn repl_accepts_extra_whitespace() {
    let mut parking = ParkingLot::new();
    assert_eq!(
        parking.repl("  create_parking_lot\t2 ").unwrap(),
        vec!["Created a parking lot with 2 slots".to_string()]
    );
    assert_eq!(
        parking.repl(" park   T800\t Red\n").unwrap(),
        vec!["Allocated slot number: 1".to_string()]
    );
}

#[test]
fn repl_status_reports_occupancy() {
    let mut parking = ParkingLot::new();
    parking.repl("create_parking_lot 3").unwrap();
    assert_eq!(
        parking.repl("status").unwrap(),
        vec!["Slot No.   Registration No  Colour".to_string()]
    );
    parking.repl("park T800 Red").unwrap();
    parking.repl("park T1000 Black").unwrap();
    assert_eq!(
        parking.repl("status").unwrap(),
        vec![
            "Slot No.   Registration No  Colour".to_string(),
            "1     T800  Red".to_string(),
            "2     T1000  Black".to_string(),
        ]
    );
}

#[test]
fn stringify_joins_lines_and_renders_errors() {
    let ok: Result<Vec<String>, ParkError> = Ok(vec![
        "one".to_string(),
        "two".to_string(),
        "three".to_string(),
    ]);
    assert_eq!(parking_lot::interp::stringify(ok), "one\ntwo\nthree");
    let single: Result<Vec<String>, ParkError> = Ok(vec!["only".to_string()]);
    assert_eq!(parking_lot::interp::stringify(single), "only");
    let empty: Result<Vec<String>, ParkError> = Ok(vec![]);
    assert_eq!(parking_lot::interp::stringify(empty), "");
    let err: Result<Vec<String>, ParkError> = Err(ParkError::NotFound);
    assert_eq!(parking_lot::interp::stringify(err), "Not found");
}

#[test]
fn tokenize_splits_on_ascii_whitespace() {
    assert_eq!(tokenize("park T800 Red"), vec!["park", "T800", "Red"]);
    assert_eq!(tokenize("  a \t b \r\n c  "), vec!["a", "b", "c"]);
    assert_eq!(tokenize(""), Vec::<String>::new());
    assert_eq!(tokenize(" \t "), Vec::<String>::new());
}

#[test]
fn parse_usize_accepts_digits_only() {
    assert_eq!(parse_usize("0"), Some(0));
    assert_eq!(parse_usize("42"), Some(42));
    assert_eq!(parse_usize("007"), Some(7));
    assert_eq!(parse_usize(""), None);
    assert_eq!(parse_usize("4 2"), None);
    assert_eq!(parse_usize("-1"), None);
    assert_eq!(parse_usize("12a"), None);
    assert_eq!(parse_usize(&usize::MAX.to_string()), Some(usize::MAX));
    assert_eq!(parse_usize("99999999999999999999999999"), None);
}
