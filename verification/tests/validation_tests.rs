use rustfast::error::FastError;
use rustfast::validation::{is_valid_email, FieldValidator, Validator};

#[test]
fn email_shapes() {
    assert!(is_valid_email("a@b.c"));
    assert!(is_valid_email("user.name@example.com"));
    assert!(!is_valid_email("no-at-sign"));
    assert!(!is_valid_email("@example.com"));
    assert!(!is_valid_email("a@nodot"));
    assert!(!is_valid_email("a@.com"));
    assert!(is_valid_email("a@b@c.d"));
}

#[test]
fn required_and_lengths() {
    let f = FieldValidator::new("name", Some("  ")).required().min_len(3).max_len(1);
    assert_eq!(
        f.validate_with(&vec![true, true, true]),
        vec![
            "The name field is required.".to_string(),
            "The name field must be at least 3 characters.".to_string(),
            "The name field may not be greater than 1 characters.".to_string(),
        ]
    );
    let missing = FieldValidator::new("x", None).required();
    assert_eq!(missing.validate_with(&vec![true]), vec!["The x field is required.".to_string()]);
}

#[test]
fn lengths_count_bytes() {
    let f = FieldValidator::new("n", Some("éé")).max_len(3);
    assert_eq!(
        f.validate_with(&vec![true]),
        vec!["The n field may not be greater than 3 characters.".to_string()]
    );
}

#[test]
fn character_classes_and_lists() {
    let f = FieldValidator::new("code", Some("ab1"))
        .alpha()
        .alpha_numeric()
        .email()
        .in_list(vec!["x".to_string(), "y".to_string()]);
    assert_eq!(
        f.validate_with(&vec![true, true, true, true]),
        vec![
            "The code field may only contain letters.".to_string(),
            "The code field must be a valid email address.".to_string(),
            "The code field must be one of: x, y.".to_string(),
        ]
    );
}

#[test]
fn caller_decided_rules() {
    let f = FieldValidator::new("age", Some("abc")).min("18").max("99.5").numeric().custom("Bad age.");
    assert_eq!(
        f.validate_with(&vec![false, false, false, false]),
        vec![
            "The age field must be at least 18.".to_string(),
            "The age field may not be greater than 99.5.".to_string(),
            "The age field must be numeric.".to_string(),
            "Bad age.".to_string(),
        ]
    );
    assert!(f.validate_with(&vec![true, true, true, true]).is_empty());
}

#[test]
fn validator_collects_by_field() {
    let v = Validator::new()
        .field(FieldValidator::new("name", Some("Al")).required())
        .field(FieldValidator::new("email", Some("bad")).email())
        .field(FieldValidator::new("age", Some("")).required().numeric());
    let outcomes = vec![vec![true], vec![true], vec![true, false]];
    let errors = v.validate_with(&outcomes);
    assert_eq!(errors.len(), 2);
    assert_eq!(
        errors.get("email").cloned(),
        Some(vec!["The email field must be a valid email address.".to_string()])
    );
    assert_eq!(
        errors.get("age").cloned(),
        Some(vec!["The age field is required.".to_string(), "The age field must be numeric.".to_string()])
    );
    match v.check_with(&outcomes) {
        Err(FastError::Validation(m)) => assert_eq!(
            m,
            "The email field must be a valid email address.; The age field is required.; The age field must be numeric."
        ),
        _ => panic!("expected a validation error"),
    }
}

#[test]
fn valid_input_passes() {
    let v = Validator::default().field(FieldValidator::new("name", Some("Al")).required().min_len(2));
    assert!(v.validate_with(&vec![vec![true, true]]).len() == 0);
    assert!(v.check_with(&vec![vec![true, true]]).is_ok());
}

#[test]
fn regex_is_unsupported() {
    let mut f = FieldValidator::new("r", Some("x"));
    f.rules.push(rustfast::validation::Rule::Regex("^x$".to_string()));
    assert_eq!(
        f.validate_with(&vec![true]),
        vec!["Regex validation not supported without regex crate.".to_string()]
    );
}
