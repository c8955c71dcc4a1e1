use pessoas::dates::Date;
use pessoas::validation::{validate, PersonName, Nick, Tech, ValidationError};

fn ok_person(
    name: &str,
    nick: &str,
    birth: &str,
    stack: Option<Vec<&str>>,
) -> Result<pessoas::validation::NewPerson, ValidationError> {
    validate(
        name.to_string(),
        nick.to_string(),
        birth,
        stack.map(|v| v.iter().map(|s| s.to_string()).collect()),
    )
}

#[test]
fn name_of_exactly_100_characters_is_accepted() {
    let name = "a".repeat(100);
    assert!(PersonName::try_from(name).is_ok());
}

#[test]
fn name_of_101_characters_is_rejected() {
    let name = "a".repeat(101);
    assert_eq!(
        PersonName::try_from(name).err(),
        Some(ValidationError::NameTooLong)
    );
}

#[test]
fn nick_of_exactly_32_characters_is_accepted() {
    let nick = "b".repeat(32);
    assert!(Nick::try_from(nick).is_ok());
}

#[test]
fn nick_of_33_characters_is_rejected() {
    let nick = "b".repeat(33);
    assert_eq!(Nick::try_from(nick).err(), Some(ValidationError::NickTooLong));
}

#[test]
fn tech_of_exactly_32_characters_is_accepted() {
    let tech = "c".repeat(32);
    assert!(Tech::try_from(tech).is_ok());
}

#[test]
fn tech_of_33_characters_is_rejected() {
    let tech = "c".repeat(33);
    assert_eq!(Tech::try_from(tech).err(), Some(ValidationError::TechTooLong));
}

#[test]
fn validate_accepts_a_full_record() {
    let p = ok_person("Luid", "luidooo", "2004-06-17", Some(vec!["C", "C++"])).unwrap();
    assert_eq!(p.name.as_str(), "Luid");
    assert_eq!(p.nick.as_str(), "luidooo");
    assert_eq!(p.birth_date.year_number(), 2004);
    assert_eq!(p.birth_date.month_number(), 6);
    assert_eq!(p.birth_date.day_number(), 17);
    let stack = p.stack.unwrap();
    assert_eq!(stack.len(), 2);
    assert_eq!(stack[0].as_str(), "C");
    assert_eq!(stack[1].as_str(), "C++");
}

#[test]
fn validate_accepts_a_missing_stack() {
    let p = ok_person("jao", "jao123", "2003-02-27", None).unwrap();
    assert!(p.stack.is_none());
}

#[test]
fn validate_reports_the_name_before_the_nick() {
    let r = validate("a".repeat(101), "b".repeat(33), "2004-06-17", None);
    assert_eq!(r.err(), Some(ValidationError::NameTooLong));
}

#[test]
fn validate_rejects_an_oversized_nick() {
    let r = validate("jao".to_string(), "b".repeat(33), "2003-02-27", None);
    assert_eq!(r.err(), Some(ValidationError::NickTooLong));
}

#[test]
fn validate_rejects_a_bad_date() {
    let r = ok_person("jao", "jao123", "not-a-date", None);
    assert_eq!(r.err(), Some(ValidationError::InvalidBirthDate));
}

#[test]
fn validate_rejects_an_oversized_stack_tag() {
    let tag = "x".repeat(33);
    let r = validate(
        "jao".to_string(),
        "jao123".to_string(),
        "2003-02-27",
        Some(vec![tag]),
    );
    assert_eq!(r.err(), Some(ValidationError::TechTooLong));
}

#[test]
fn tech_unwraps_to_its_string() {
    let t = Tech::try_from("angular".to_string()).unwrap();
    assert_eq!(t.as_str(), "angular");
    assert_eq!(t.into_string(), "angular");
}

#[test]
fn parse_accepts_a_valid_date() {
    let d = Date::parse("2004-06-17").unwrap();
    assert_eq!(d.year_number(), 2004);
    assert_eq!(d.month_number(), 6);
    assert_eq!(d.day_number(), 17);
}

#[test]
fn parse_rejects_month_thirteen() {
    assert!(Date::parse("2004-13-01").is_none());
}

#[test]
fn parse_rejects_day_zero() {
    assert!(Date::parse("2004-06-00").is_none());
}

#[test]
fn parse_rejects_february_thirtieth() {
    assert!(Date::parse("2004-02-30").is_none());
}

#[test]
fn parse_accepts_a_leap_day() {
    assert!(Date::parse("2000-02-29").is_some());
    assert!(Date::parse("2004-02-29").is_some());
}

#[test]
fn parse_rejects_a_leap_day_outside_a_leap_year() {
    assert!(Date::parse("1900-02-29").is_none());
    assert!(Date::parse("2001-02-29").is_none());
}

#[test]
fn parse_rejects_malformed_text() {
    assert!(Date::parse("").is_none());
    assert!(Date::parse("2004-6-17").is_none());
    assert!(Date::parse("2004/06/17").is_none());
    assert!(Date::parse("abcd-ef-gh").is_none());
    assert!(Date::parse("2004-06-170").is_none());
}

#[test]
fn to_text_writes_the_date_back() {
    let d = Date::parse("2004-06-17").unwrap();
    assert_eq!(d.to_text(), "2004-06-17");
    let d = Date::try_new(33, 1, 5).unwrap();
    assert_eq!(d.to_text(), "0033-01-05");
    let text = Date::parse("1999-12-31").unwrap().to_text();
    let back = Date::parse(&text).unwrap();
    assert_eq!(back.year_number(), 1999);
    assert_eq!(back.month_number(), 12);
    assert_eq!(back.day_number(), 31);
}

#[test]
fn try_new_checks_the_calendar() {
    assert!(Date::try_new(2023, 4, 31).is_none());
    assert!(Date::try_new(2023, 4, 30).is_some());
    assert!(Date::try_new(10000, 1, 1).is_none());
}
