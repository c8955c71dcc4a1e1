use pessoas::registry::{Registry, ConflictError};
use pessoas::validation::validate;

fn request(
    name: &str,
    nick: &str,
    birth: &str,
    stack: Option<Vec<&str>>,
) -> pessoas::validation::NewPerson {
    validate(
        name.to_string(),
        nick.to_string(),
        birth,
        stack.map(|v| v.iter().map(|s| s.to_string()).collect()),
    )
    .unwrap()
}

#[test]
fn a_new_registry_is_empty() {
    let reg = Registry::new();
    assert_eq!(reg.count(), 0);
    assert!(reg.all().is_empty());
}

#[test]
fn insert_then_get_returns_the_same_record() {
    let mut reg = Registry::new();
    let created = reg
        .insert(request("Luid", "luidooo", "2004-06-17", Some(vec!["C", "C++"])))
        .unwrap();
    let found = reg.get(created.id).expect("the record just created");
    assert_eq!(found.id, created.id);
    assert_eq!(found.name.as_str(), created.name.as_str());
    assert_eq!(found.nick.as_str(), created.nick.as_str());
    assert_eq!(
        found.birth_date.year_number(),
        created.birth_date.year_number()
    );
    assert_eq!(
        found.birth_date.month_number(),
        created.birth_date.month_number()
    );
    assert_eq!(
        found.birth_date.day_number(),
        created.birth_date.day_number()
    );
    let found_stack: Vec<&str> = found
        .stack
        .as_ref()
        .unwrap()
        .iter()
        .map(|t| t.as_str())
        .collect();
    assert_eq!(found_stack, vec!["C", "C++"]);
}

#[test]
fn the_created_record_carries_the_request_fields() {
    let mut reg = Registry::new();
    let created = reg
        .insert(request("Luid", "luidooo", "2004-06-17", Some(vec!["C", "C++"])))
        .unwrap();
    assert_eq!(created.name.as_str(), "Luid");
    assert_eq!(created.nick.as_str(), "luidooo");
    assert_eq!(created.birth_date.year_number(), 2004);
    assert_eq!(created.birth_date.month_number(), 6);
    assert_eq!(created.birth_date.day_number(), 17);
    let stack: Vec<&str> = created
        .stack
        .as_ref()
        .unwrap()
        .iter()
        .map(|t| t.as_str())
        .collect();
    assert_eq!(stack, vec!["C", "C++"]);
}

#[test]
fn a_duplicate_nickname_is_refused_and_the_count_stands() {
    let mut reg = Registry::new();
    reg.insert(request("Luid", "luidooo", "2004-06-17", Some(vec!["C", "C++"])))
        .unwrap();
    let second = reg.insert(request("Somebody Else", "luidooo", "1999-01-01", None));
    assert_eq!(second.err(), Some(ConflictError::NicknameTaken));
    assert_eq!(reg.count(), 1);
}

#[test]
fn distinct_nicknames_all_count() {
    let mut reg = Registry::new();
    let nicks = ["ana", "bia", "caio", "duda", "enzo"];
    for (i, nick) in nicks.iter().enumerate() {
        let name = format!("Person {}", i);
        reg.insert(request(&name, nick, "1990-12-31", None)).unwrap();
    }
    assert_eq!(reg.count(), nicks.len());
    assert_eq!(reg.all().len(), nicks.len());
}

#[test]
fn identifiers_are_distinct_across_inserts() {
    let mut reg = Registry::new();
    let a = reg.insert(request("A", "aa", "1990-01-01", None)).unwrap();
    let b = reg.insert(request("B", "bb", "1990-01-01", None)).unwrap();
    assert_ne!(a.id, b.id);
}

#[test]
fn get_with_an_unknown_id_finds_nothing() {
    let mut reg = Registry::new();
    let created = reg.insert(request("A", "aa", "1990-01-01", None)).unwrap();
    assert!(reg.get(created.id.wrapping_add(1)).is_none());
}

#[test]
fn insert_with_id_refuses_a_taken_identifier() {
    let mut reg = Registry::new();
    let r = reg.insert_with_id(7, request("A", "aa", "1990-01-01", None));
    assert_eq!(r.unwrap().id, 7);
    let second = reg.insert_with_id(7, request("B", "bb", "1990-01-01", None));
    assert_eq!(second.err(), Some(ConflictError::IdTaken));
    assert_eq!(reg.count(), 1);
}
