use teleecho::config::{connection_name, Config};
use teleecho::error::ErrorKind;

fn sample() -> Config {
    let mut c = Config::from_entries(Vec::new());
    c.add_entry("home".to_string(), "token-a".to_string(), 11).unwrap();
    c.add_entry("work".to_string(), "token-b".to_string(), -22).unwrap();
    c
}

#[test]
fn add_entry_appends() {
    let c = sample();
    assert_eq!(c.len(), 2);
    assert_eq!(c.list(), vec!["home".to_string(), "work".to_string()]);
}

#[test]
fn add_entry_refuses_a_name_twice() {
    let mut c = sample();
    let r = c.add_entry("home".to_string(), "other".to_string(), 5);
    assert!(matches!(r, Err(ErrorKind::ConfigEntryExists)));
    assert_eq!(c.len(), 2);
    assert_eq!(c.get(Some("home")).unwrap(), ("token-a".to_string(), 11));
}

#[test]
fn get_by_name() {
    let c = sample();
    assert_eq!(c.get(Some("work")).unwrap(), ("token-b".to_string(), -22));
    assert_eq!(c.get(Some("home")).unwrap(), ("token-a".to_string(), 11));
}

#[test]
fn get_of_an_unknown_name() {
    let c = sample();
    assert!(matches!(c.get(Some("nowhere")), Err(ErrorKind::ConfigConnectionNotExist)));
    assert!(matches!(c.get(Some("")), Err(ErrorKind::ConfigConnectionNotExist)));
}

#[test]
fn get_without_a_name_needs_exactly_one_entry() {
    let c = sample();
    assert!(matches!(c.get(None), Err(ErrorKind::NoDefaultConnection(2))));
    let empty = Config::from_entries(Vec::new());
    assert!(matches!(empty.get(None), Err(ErrorKind::NoDefaultConnection(0))));
    let mut one = Config::from_entries(Vec::new());
    one.add_entry("only".to_string(), "t".to_string(), 3).unwrap();
    assert_eq!(one.get(None).unwrap(), ("t".to_string(), 3));
}

#[test]
fn get_takes_the_first_of_two_equal_names() {
    let c = Config::from_entries(vec![
        ("a".to_string(), "first".to_string(), 1),
        ("a".to_string(), "second".to_string(), 2),
    ]);
    assert_eq!(c.get(Some("a")).unwrap(), ("first".to_string(), 1));
}

#[test]
fn remove_takes_the_first_of_that_name() {
    let mut c = Config::from_entries(vec![
        ("x".to_string(), "t0".to_string(), 0),
        ("a".to_string(), "first".to_string(), 1),
        ("a".to_string(), "second".to_string(), 2),
    ]);
    c.remove("a").unwrap();
    assert_eq!(c.list(), vec!["x".to_string(), "a".to_string()]);
    assert_eq!(c.get(Some("a")).unwrap(), ("second".to_string(), 2));
}

#[test]
fn remove_of_an_unknown_name() {
    let mut c = sample();
    assert!(matches!(c.remove("nowhere"), Err(ErrorKind::ConfigConnectionNotExist)));
    assert_eq!(c.len(), 2);
}

#[test]
fn remove_then_add_again() {
    let mut c = sample();
    c.remove("home").unwrap();
    assert_eq!(c.list(), vec!["work".to_string()]);
    c.add_entry("home".to_string(), "token-c".to_string(), 33).unwrap();
    assert_eq!(c.list(), vec!["work".to_string(), "home".to_string()]);
}

#[test]
fn parse_of_an_empty_file() {
    let c = Config::parse("").unwrap();
    assert_eq!(c.len(), 0);
}

#[test]
fn parse_of_a_table() {
    let c = Config::parse("[[\"home\",\"tok\",12],[\"work\",\"ken\",-3]]").unwrap();
    assert_eq!(c.list(), vec!["home".to_string(), "work".to_string()]);
    assert_eq!(c.get(Some("work")).unwrap(), ("ken".to_string(), -3));
}

#[test]
fn parse_of_what_is_no_table() {
    assert!(matches!(Config::parse("{\"a\":1}"), Err(ErrorKind::SerdeJson(_))));
    assert!(matches!(Config::parse(" "), Err(ErrorKind::SerdeJson(_))));
    assert!(matches!(Config::parse("[[\"a\",\"b\"]]"), Err(ErrorKind::SerdeJson(_))));
}

#[test]
fn to_string_writes_json() {
    let c = sample();
    assert_eq!(
        c.to_string().unwrap(),
        "[[\"home\",\"token-a\",11],[\"work\",\"token-b\",-22]]"
    );
    assert_eq!(Config::from_entries(Vec::new()).to_string().unwrap(), "[]");
}

#[test]
fn written_table_reads_back() {
    let c = sample();
    let back = Config::parse(&c.to_string().unwrap()).unwrap();
    assert_eq!(back.list(), c.list());
    assert_eq!(back.get(Some("home")).unwrap(), c.get(Some("home")).unwrap());
    assert_eq!(back.get(Some("work")).unwrap(), c.get(Some("work")).unwrap());
}

#[test]
fn errors_in_words() {
    assert_eq!(ErrorKind::ConfigEntryExists.description(), "config entry already exists");
    assert_eq!(
        ErrorKind::ConfigConnectionNotExist.description(),
        "specified connection does not exist"
    );
    assert_eq!(
        ErrorKind::NoDefaultConnection(12).description(),
        "as no connection was given, the default would be used, but there does not exist one, but 12 connections to choose from"
    );
    assert_eq!(ErrorKind::UserIdEmpty.description(), "user id is empty");
    let e = Config::parse("nonsense").unwrap_err();
    assert!(!e.description().is_empty());
}

#[test]
fn connection_name_joins_the_words_by_hyphens() {
    assert_eq!(connection_name("my home server"), "my-home-server");
    assert_eq!(connection_name("plain"), "plain");
    assert_eq!(connection_name("a b"), "a-b");
}

#[test]
fn connection_name_drops_white_space_at_the_ends_and_in_runs() {
    assert_eq!(connection_name("  my   home \t server\n"), "my-home-server");
    assert_eq!(connection_name("\u{a0}x\u{2003}y\u{3000}"), "x-y");
}

#[test]
fn connection_name_of_nothing() {
    assert_eq!(connection_name(""), "");
    assert_eq!(connection_name(" \t \n"), "");
}

#[test]
fn connection_name_keeps_hyphens_and_other_signs() {
    assert_eq!(connection_name("already-joined name_1"), "already-joined-name_1");
    assert_eq!(connection_name("é ü"), "é-ü");
}

#[test]
fn connection_name_agrees_with_split_and_join() {
    for typed in ["", " ", "a", " a", "a ", "a  b", "\ta\nb c ", "one two  three   four"] {
        let words: Vec<&str> = typed.split_whitespace().collect();
        assert_eq!(connection_name(typed), words.join("-"));
    }
}

#[test]
fn new_connection_under_a_typed_name() {
    let mut c = sample();
    let name = connection_name(" my  phone ");
    assert!(c.get(Some(&name)).is_err());
    c.add_entry(name.clone(), "tok".to_string(), 9).unwrap();
    assert_eq!(c.get(Some("my-phone")).unwrap(), ("tok".to_string(), 9));
    assert!(c.get(Some(&connection_name("my phone"))).is_ok());
}
