use bioimg::legacy_axes::{AxisLetterName, LegacyAxisIdParsingError, LegacyAxisIds};
use bioimg::lowercase::{Lowercase, LowercaseParsingError};
use bioimg::rdf::{Author2, Sha256};

#[test]
fn legacy_axes_parse_distinct_letters() {
    let ids = LegacyAxisIds::try_from("yxc".to_owned()).unwrap();
    assert!(ids.contains(AxisLetterName::C));
    assert!(ids.contains(AxisLetterName::X));
    assert!(ids.contains(AxisLetterName::Y));
    assert!(!ids.contains(AxisLetterName::Z));
    assert_eq!(ids.to_text(), "cyx");
}

#[test]
fn legacy_axes_reject_unknown_letter() {
    assert_eq!(
        LegacyAxisIds::try_from("xq".to_owned()).unwrap_err(),
        LegacyAxisIdParsingError::Invalid { character: 'q' }
    );
}

#[test]
fn legacy_axes_reject_repeated_letter() {
    assert_eq!(
        LegacyAxisIds::try_from("xyx".to_owned()).unwrap_err(),
        LegacyAxisIdParsingError::Repeated(AxisLetterName::X)
    );
}

#[test]
fn legacy_axes_empty_string_is_empty_set() {
    let ids = LegacyAxisIds::try_from(String::new()).unwrap();
    assert_eq!(ids.to_text(), "");
}

#[test]
fn axis_letter_from_char() {
    assert_eq!(AxisLetterName::try_from('z').unwrap(), AxisLetterName::Z);
    assert!(AxisLetterName::try_from('Z').is_err());
    assert_eq!(AxisLetterName::X.to_text(), "x");
}

#[test]
fn lowercase_accepts_lowercase() {
    assert_eq!(Lowercase::try_from("abc-1").unwrap().as_str(), "abc-1");
}

#[test]
fn lowercase_names_first_uppercase_position() {
    assert_eq!(
        Lowercase::try_from("abCdE").unwrap_err(),
        LowercaseParsingError::IsNotLowercase { value: "abCdE".to_owned(), idx: 2 }
    );
}

#[test]
fn lowercase_rejects_non_ascii_uppercase() {
    assert!(matches!(
        Lowercase::try_from("éÉ").unwrap_err(),
        LowercaseParsingError::IsNotLowercase { idx: 1, .. }
    ));
}

#[test]
fn sha256_needs_64_lowercase_characters() {
    let good = "0123456789abcdef".repeat(4);
    assert_eq!(Sha256::try_from(&good).unwrap().as_str(), good);
    assert_eq!(Sha256::try_from("abc").unwrap_err(), LowercaseParsingError::BadLength { len: 3 });
    let upper = "0123456789ABCDEF".repeat(4);
    assert!(matches!(
        Sha256::try_from(&upper).unwrap_err(),
        LowercaseParsingError::IsNotLowercase { idx: 10, .. }
    ));
}

#[test]
fn author_one_line_form() {
    let mut author = Author2 {
        name: "Jo Doe".to_owned(),
        affiliation: Some("Lab".to_owned()),
        email: Some("jo@example.org".to_owned()),
        github_user: Some("jodoe".to_owned()),
        orcid: None,
    };
    assert_eq!(author.to_text(), "Jo Doe 📧jo@example.org github: jodoe");
    author.email = None;
    assert_eq!(author.to_text(), "Jo Doe github: jodoe");
    author.github_user = None;
    assert_eq!(author.to_text(), "Jo Doe");
}
