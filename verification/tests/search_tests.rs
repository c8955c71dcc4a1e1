use pessoas::registry::Registry;
use pessoas::search::contains_ci_str;
use pessoas::validation::validate;

fn seed(reg: &mut Registry, name: &str, nick: &str, stack: Option<Vec<&str>>) {
    let p = validate(
        name.to_string(),
        nick.to_string(),
        "2000-01-01",
        stack.map(|v| v.iter().map(|s| s.to_string()).collect()),
    )
    .unwrap();
    reg.insert(p).unwrap();
}

#[test]
fn search_finds_the_nickname_that_carries_the_term() {
    let mut reg = Registry::new();
    seed(&mut reg, "Luid", "luidooo", Some(vec!["C", "C++"]));
    seed(&mut reg, "jao", "jao123", Some(vec!["javascript", "angular"]));
    let hits = reg.search("luid");
    assert_eq!(hits.len(), 1);
    assert_eq!(hits[0].nick.as_str(), "luidooo");
}

#[test]
fn search_ignores_ascii_case() {
    let mut reg = Registry::new();
    seed(&mut reg, "Luid", "luidooo", Some(vec!["C", "C++"]));
    seed(&mut reg, "jao", "jao123", Some(vec!["javascript", "angular"]));
    let hits = reg.search("LUID");
    assert_eq!(hits.len(), 1);
    assert_eq!(hits[0].nick.as_str(), "luidooo");
    let hits = reg.search("Jao");
    assert_eq!(hits.len(), 1);
    assert_eq!(hits[0].nick.as_str(), "jao123");
}

#[test]
fn search_with_no_match_returns_an_empty_set() {
    let mut reg = Registry::new();
    seed(&mut reg, "Luid", "luidooo", Some(vec!["C", "C++"]));
    seed(&mut reg, "jao", "jao123", None);
    let hits = reg.search("zzz");
    assert!(hits.is_empty());
}

#[test]
fn search_looks_into_the_stack_tags() {
    let mut reg = Registry::new();
    seed(&mut reg, "Luid", "luidooo", Some(vec!["C", "C++"]));
    seed(&mut reg, "jao", "jao123", Some(vec!["javascript", "angular"]));
    let hits = reg.search("Angular");
    assert_eq!(hits.len(), 1);
    assert_eq!(hits[0].nick.as_str(), "jao123");
}

#[test]
fn search_looks_into_the_name() {
    let mut reg = Registry::new();
    seed(&mut reg, "Berta Campos", "bcampos", None);
    seed(&mut reg, "jao", "jao123", None);
    let hits = reg.search("berta");
    assert_eq!(hits.len(), 1);
    assert_eq!(hits[0].name.as_str(), "Berta Campos");
}

#[test]
fn search_keeps_storage_order_and_caps_at_fifty() {
    let mut reg = Registry::new();
    for i in 0..55 {
        let nick = format!("dev{:02}", i);
        seed(&mut reg, "Match Me", &nick, None);
    }
    let hits = reg.search("match");
    assert_eq!(hits.len(), 50);
    for (i, hit) in hits.iter().enumerate() {
        assert_eq!(hit.nick.as_str(), format!("dev{:02}", i));
    }
}

#[test]
fn contains_ci_matches_substrings_up_to_case() {
    assert!(contains_ci_str("luidooo", "luid"));
    assert!(contains_ci_str("luidooo", "LUID"));
    assert!(contains_ci_str("LUIDOOO", "luid"));
    assert!(contains_ci_str("abc", ""));
    assert!(contains_ci_str("abc", "abc"));
    assert!(!contains_ci_str("abc", "abcd"));
    assert!(!contains_ci_str("jao123", "luid"));
    assert!(contains_ci_str("C++", "c++"));
}
