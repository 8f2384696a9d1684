use vrcs_core::models::{CardLabels, CardRequest};

fn card() -> CardRequest {
    CardRequest {
        term: "学ぶ".into(),
        definition: "学习".into(),
        context: String::new(),
        reading: None,
        dictionary: None,
        language: None,
        labels: None,
    }
}

#[test]
fn card_limits_count_unicode_characters() {
    let mut card = card();
    card.term = "学".repeat(500);
    assert!(card.validate().is_ok());
    card.term.push('ぶ');
    assert!(card.validate().is_err());
}

#[test]
fn card_errors_name_the_field_and_its_limits() {
    let mut card = card();
    card.definition = "x".repeat(20_001);
    assert_eq!(
        card.validate().unwrap_err(),
        "definition length must be between 1 and 20000 characters"
    );
    let mut card = self::card();
    card.language = Some("x".repeat(21));
    assert_eq!(card.validate().unwrap_err(), "language cannot exceed 20 characters");
    let mut card = self::card();
    card.labels = Some(CardLabels {
        definition: "Meaning".into(),
        context: String::new(),
    });
    assert_eq!(
        card.validate().unwrap_err(),
        "context label length must be between 1 and 100 characters"
    );
}
