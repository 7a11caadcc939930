use firework_lang::map::{DefinitionMap, Types};

#[test]
fn insert_and_get() {
    let mut m = DefinitionMap::new();
    assert!(m.is_empty());
    m.insert(String::from("a"), Types::Int(1));
    m.insert(String::from("b"), Types::Boolean(true));
    assert_eq!(m.len(), 2);
    assert!(matches!(m.get(String::from("a")), Some(Types::Int(1))));
    assert!(matches!(m.get(String::from("b")), Some(Types::Boolean(true))));
    assert!(m.get(String::from("c")).is_none());
}

#[test]
fn insert_keeps_the_first_binding() {
    let mut m = DefinitionMap::new();
    m.insert(String::from("a"), Types::Int(1));
    m.insert(String::from("a"), Types::Int(2));
    assert_eq!(m.len(), 1);
    assert!(matches!(m.get(String::from("a")), Some(Types::Int(1))));
}

#[test]
fn remove_keeps_only_the_given_key() {
    // `remove` retains exactly the entries whose key matches
    let mut m = DefinitionMap::new();
    m.insert(String::from("a"), Types::Int(1));
    m.insert(String::from("b"), Types::Int(2));
    m.remove(String::from("a"));
    assert_eq!(m.len(), 1);
    assert!(matches!(m.get(String::from("a")), Some(Types::Int(1))));
    assert!(m.get(String::from("b")).is_none());
}

#[test]
fn string_and_char_values() {
    let mut m = DefinitionMap::new();
    m.insert(String::from("s"), Types::String(String::from("hi")));
    m.insert(String::from("c"), Types::Char('x'));
    match m.get(String::from("s")) {
        Some(Types::String(s)) => assert_eq!(s, "hi"),
        other => panic!("unexpected value {:?}", other),
    }
    assert!(matches!(m.get(String::from("c")), Some(Types::Char('x'))));
}
