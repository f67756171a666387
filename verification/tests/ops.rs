use textops::error::OperationError;
use textops::ops::Operation;

#[test]
fn canonical_names_round_trip() {
    for op in Operation::list_all() {
        let name = op.to_str();
        let parsed = Operation::from_str(name.as_str());
        assert_eq!(parsed, Ok(op));
    }
}

#[test]
fn parse_is_case_insensitive() {
    assert_eq!(Operation::from_str("UPPERCASE"), Ok(Operation::UpperCase));
    assert_eq!(Operation::from_str("CamelCase"), Ok(Operation::CamelCase));
    assert_eq!(Operation::from_str("Csv"), Ok(Operation::Csv));
    assert_eq!(Operation::from_str("LoWeRcAsE"), Ok(Operation::LowerCase));
    assert_eq!(Operation::from_str("No-Spaces"), Ok(Operation::NoSpaces));
    assert_eq!(Operation::from_str("SLUGIFY"), Ok(Operation::Slugify));
    assert_eq!(Operation::from_str("snakeCASE"), Ok(Operation::SnakeCase));
}

#[test]
fn parse_unknown_names_the_offender() {
    let r = Operation::from_str("bogus");
    match r {
        Err(e) => {
            assert_eq!(e, OperationError::UnknownOperation(String::from("bogus")));
            let msg = e.message();
            assert_eq!(msg, "Invalid operation: bogus");
            assert!(msg.contains("bogus"));
        }
        Ok(_) => panic!("an unknown name must not parse"),
    }
}

#[test]
fn parse_rejects_near_misses() {
    assert!(Operation::from_str("uppercase ").is_err());
    assert!(Operation::from_str("upper").is_err());
    assert!(Operation::from_str("nospaces").is_err());
    assert!(Operation::from_str("").is_err());
}

#[test]
fn list_all_is_in_declaration_order() {
    let all = Operation::list_all();
    let names: Vec<String> = all.iter().map(|op| op.to_str()).collect();
    let expected = vec![
        "camelcase",
        "csv",
        "lowercase",
        "no-spaces",
        "slugify",
        "snakecase",
        "uppercase",
    ];
    assert_eq!(names.len(), expected.len());
    for (name, want) in names.iter().zip(expected.iter()) {
        assert_eq!(name, want);
    }
}
