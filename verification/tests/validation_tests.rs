use tutor_roster::validation::{
    validate_empty, validate_length, validate_letters_only, validate_name, validate_number,
    validate_optional_field, validate_student, ModalInput, ValidityError, ValidityTag,
    WeeklySchedule,
};

fn error_of(tag: &ValidityTag) -> Option<ValidityError> {
    match tag {
        ValidityTag::Safe => None,
        ValidityTag::Problematic { error_type, .. } => Some(*error_type),
    }
}

fn message_of(tag: &ValidityTag) -> &str {
    match tag {
        ValidityTag::Safe => "",
        ValidityTag::Problematic { message, .. } => message,
    }
}

#[test]
fn empty_check_trims_first() {
    let (value, tag) = validate_empty("  John  ".to_string());
    assert_eq!(value, "John");
    assert_eq!(tag, ValidityTag::Safe);
    let (value, tag) = validate_empty("   ".to_string());
    assert_eq!(value, "");
    assert_eq!(error_of(&tag), Some(ValidityError::Empty));
    assert_eq!(message_of(&tag), "Field cannot be empty");
}

#[test]
fn length_check_bounds_the_character_count() {
    let (_, tag) = validate_length("John".to_string(), 2, 50);
    assert_eq!(tag, ValidityTag::Safe);
    let (_, tag) = validate_length("J".to_string(), 2, 50);
    assert_eq!(error_of(&tag), Some(ValidityError::TooShort));
    assert_eq!(message_of(&tag), "Must be at least 2 characters");
    let (_, tag) = validate_length("x".repeat(51), 2, 50);
    assert_eq!(error_of(&tag), Some(ValidityError::TooLong));
    assert_eq!(message_of(&tag), "Must be no more than 50 characters");
    let (_, tag) = validate_length(" ".to_string(), 2, 50);
    assert_eq!(error_of(&tag), Some(ValidityError::Empty));
}

#[test]
fn letters_check_rejects_digits_and_symbols() {
    let (value, tag) = validate_letters_only("Mary Jane".to_string());
    assert_eq!(value, "Mary Jane");
    assert_eq!(tag, ValidityTag::Safe);
    let (_, tag) = validate_letters_only("Mary3".to_string());
    assert_eq!(error_of(&tag), Some(ValidityError::ContainsNonLetters));
    assert_eq!(message_of(&tag), "Name should only contain letters");
    let (_, tag) = validate_letters_only("Mary-Jane".to_string());
    assert_eq!(error_of(&tag), Some(ValidityError::ContainsNonLetters));
}

#[test]
fn name_check_composes_length_and_letters() {
    let (value, tag) = validate_name("  Peter ".to_string());
    assert_eq!(value, "Peter");
    assert_eq!(tag, ValidityTag::Safe);
    let (_, tag) = validate_name("".to_string());
    assert_eq!(error_of(&tag), Some(ValidityError::Empty));
    let (_, tag) = validate_name("P".to_string());
    assert_eq!(error_of(&tag), Some(ValidityError::TooShort));
    let (_, tag) = validate_name("a".repeat(60), );
    assert_eq!(error_of(&tag), Some(ValidityError::TooLong));
    let (_, tag) = validate_name("Peter1".to_string());
    assert_eq!(error_of(&tag), Some(ValidityError::ContainsNonLetters));
}

#[test]
fn number_check_accepts_plain_decimals() {
    for good in ["150", " 150 ", "150.5", "0.75", "7.", ".5"] {
        let (_, tag) = validate_number(good.to_string());
        assert_eq!(tag, ValidityTag::Safe, "rejected {good:?}");
    }
}

#[test]
fn number_check_rejects_everything_else() {
    let (_, tag) = validate_number("   ".to_string());
    assert_eq!(error_of(&tag), Some(ValidityError::Empty));
    assert_eq!(message_of(&tag), "Rate cannot be empty");
    for bad in ["abc", "12a", "1.2.3", ".", "-5", "1 50"] {
        let (_, tag) = validate_number(bad.to_string());
        assert_eq!(
            error_of(&tag),
            Some(ValidityError::NotANumber),
            "accepted {bad:?}"
        );
        assert_eq!(message_of(&tag), "Must be a valid number");
    }
}

#[test]
fn optional_field_accepts_absence() {
    let (value, tag) = validate_optional_field("  ".to_string(), 100);
    assert_eq!(value, "");
    assert_eq!(tag, ValidityTag::Safe);
    let (_, tag) = validate_optional_field("Parker".to_string(), 100);
    assert_eq!(tag, ValidityTag::Safe);
    let (_, tag) = validate_optional_field("x".repeat(101), 100);
    assert_eq!(error_of(&tag), Some(ValidityError::TooLong));
    assert_eq!(message_of(&tag), "Must be no more than 100 characters");
}

#[test]
fn student_validation_checks_every_field() {
    let input = ModalInput {
        first_name: " Mary ".to_string(),
        last_name: "Jane".to_string(),
        other_names: "".to_string(),
        subject: "Statistics".to_string(),
        pay_rate: "150".to_string(),
        weekly_schedule: WeeklySchedule(vec![]),
    };
    let validated = validate_student(input);
    assert!(validated.is_valid());
    assert_eq!(validated.first.0, "Mary");

    let input = ModalInput {
        first_name: "Mary".to_string(),
        last_name: "J4ne".to_string(),
        other_names: "".to_string(),
        subject: "Statistics".to_string(),
        pay_rate: "150".to_string(),
        weekly_schedule: WeeklySchedule(vec![]),
    };
    let validated = validate_student(input);
    assert!(!validated.is_valid());
    assert_eq!(
        error_of(&validated.last.1),
        Some(ValidityError::ContainsNonLetters)
    );
}
