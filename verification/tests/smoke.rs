//! Smoke tests: tier parsing.

use auria::models::Tier;

#[test]
fn parses_tier() {
    assert!(auria::models::Tier::parse("STANDARD").is_some());
    assert!(auria::models::Tier::parse("nano").is_some());
}

#[test]
fn parse_ignores_case_and_white_space() {
    assert_eq!(Tier::parse(" standard "), Some(Tier::Standard));
    assert_eq!(Tier::parse("STANDARD"), Some(Tier::Standard));
    assert_eq!(Tier::parse(" standard "), Tier::parse("STANDARD"));
    assert_eq!(Tier::parse("bogus"), None);
}
