//! The typed key/value store.

use tasklet::{AnySlot, Blackboard, Value};

#[test]
fn set_and_get_roundtrips() {
    let mut board: Blackboard = Blackboard::new();
    board.set("count", 42u32);
    board.set("label", "hello".to_string());
    assert_eq!(board.get::<u32>("count"), Some(42));
    assert_eq!(board.get::<String>("label"), Some("hello".to_string()));
}

#[test]
fn missing_key_is_none() {
    let board: Blackboard = Blackboard::new();
    assert_eq!(board.get::<u32>("nope"), None);
    assert!(!board.contains("nope"));
}

#[test]
fn wrong_type_is_none() {
    let mut board: Blackboard = Blackboard::new();
    board.set("count", 42u32);
    // Stored as u32; asking for a String must not succeed.
    assert_eq!(board.get::<String>("count"), None);
    // The value is still there under the correct type.
    assert_eq!(board.get::<u32>("count"), Some(42));
}

#[test]
fn set_overwrites() {
    let mut board: Blackboard = Blackboard::new();
    board.set("count", 1u32);
    board.set("count", 2u32);
    assert_eq!(board.get::<u32>("count"), Some(2));
}

#[test]
fn remove_reports_presence() {
    let mut board: Blackboard = Blackboard::new();
    board.set("k", 1u8);
    assert!(board.remove("k"));
    assert!(!board.remove("k"));
    assert!(!board.contains("k"));
}

#[test]
fn get_or_insert_inserts_then_reads() {
    let mut board: Blackboard = Blackboard::new();
    assert_eq!(board.get_or_insert("k", 10u32), 10);
    // Second call returns the stored value, ignoring the new default.
    assert_eq!(board.get_or_insert("k", 99u32), 10);
}

#[test]
fn len_keys_and_empty() {
    let mut board: Blackboard = Blackboard::new();
    assert!(board.is_empty());
    board.set("a", 1u32);
    board.set("b", 2u32);
    assert_eq!(board.len(), 2);
    let mut keys = board.keys();
    keys.sort();
    assert_eq!(keys, vec!["a".to_string(), "b".to_string()]);
}

#[test]
fn overwriting_changes_the_type() {
    let mut board: Blackboard = Blackboard::new();
    board.set("k", 1u32);
    board.set("k", true);
    assert_eq!(board.get::<u32>("k"), None);
    assert_eq!(board.get::<bool>("k"), Some(true));
    assert_eq!(board.len(), 1);
    // A default of another type replaces what is there.
    assert_eq!(board.get_or_insert("k", 5u64), 5);
    assert_eq!(board.get::<bool>("k"), None);
    assert_eq!(board.get::<u64>("k"), Some(5));
}

#[test]
fn other_keys_stay() {
    let mut board: Blackboard = Blackboard::default();
    board.set("a", 7i64);
    board.set("b", 8usize);
    board.set("a", 9i64);
    assert_eq!(board.get::<usize>("b"), Some(8));
    assert!(board.remove("a"));
    assert_eq!(board.get::<usize>("b"), Some(8));
    assert_eq!(board.get::<i64>("a"), None);
    assert_eq!(board.keys(), vec!["b".to_string()]);
}

#[test]
fn boards_can_hold_other_slots() {
    // The slot type decides what can be stored.
    let mut board: Blackboard<Value> = Blackboard::new();
    board.set("x", 3u8);
    assert_eq!(board.get::<u8>("x"), Some(3));
    assert_eq!(board.get::<u32>("x"), None);
}

#[test]
fn each_type_comes_back_as_itself() {
    let mut board: Blackboard = Blackboard::new();
    board.set("bool", false);
    board.set("u8", u8::MAX);
    board.set("u32", u32::MAX);
    board.set("u64", u64::MAX);
    board.set("usize", usize::MAX);
    board.set("i64", i64::MIN);
    board.set("text", String::new());
    assert_eq!(board.get::<bool>("bool"), Some(false));
    assert_eq!(board.get::<u8>("u8"), Some(u8::MAX));
    assert_eq!(board.get::<u32>("u32"), Some(u32::MAX));
    assert_eq!(board.get::<u64>("u64"), Some(u64::MAX));
    assert_eq!(board.get::<usize>("usize"), Some(usize::MAX));
    assert_eq!(board.get::<i64>("i64"), Some(i64::MIN));
    assert_eq!(board.get::<String>("text"), Some(String::new()));
    assert_eq!(board.get::<u64>("usize"), None);
    assert_eq!(board.get::<usize>("u64"), None);
    assert_eq!(board.len(), 7);
}

/// Whatever type a value was stored with, every other type reads nothing.
#[test]
fn no_type_reads_another() {
    fn seen(board: &Blackboard) -> [bool; 7] {
        [
            board.get::<bool>("k").is_some(),
            board.get::<u8>("k").is_some(),
            board.get::<u32>("k").is_some(),
            board.get::<u64>("k").is_some(),
            board.get::<usize>("k").is_some(),
            board.get::<i64>("k").is_some(),
            board.get::<String>("k").is_some(),
        ]
    }
    fn only(i: usize) -> [bool; 7] {
        let mut wanted = [false; 7];
        wanted[i] = true;
        wanted
    }
    let mut board: Blackboard = Blackboard::new();
    assert_eq!(seen(&board), [false; 7]);
    board.set("k", true);
    assert_eq!(seen(&board), only(0));
    board.set("k", 1u8);
    assert_eq!(seen(&board), only(1));
    board.set("k", 1u32);
    assert_eq!(seen(&board), only(2));
    board.set("k", 1u64);
    assert_eq!(seen(&board), only(3));
    board.set("k", 1usize);
    assert_eq!(seen(&board), only(4));
    board.set("k", 1i64);
    assert_eq!(seen(&board), only(5));
    board.set("k", "1".to_string());
    assert_eq!(seen(&board), only(6));
    assert_eq!(board.len(), 1);
    // A default of another type replaces the text; one of the same type does not.
    assert_eq!(board.get_or_insert("k", 9u8), 9);
    assert_eq!(seen(&board), only(1));
    assert_eq!(board.get_or_insert("k", 3u8), 9);
}

/// A slot of any type holds what a program brings along, and tells its types apart.
#[test]
fn any_type_can_be_stored() {
    #[derive(Clone, Debug, PartialEq)]
    struct Point {
        x: f64,
        y: f64,
    }
    let mut board: Blackboard<AnySlot> = Blackboard::new();
    board.set("point", Point { x: 0.5, y: -1.0 });
    board.set("list", vec![1u16, 2, 3]);
    board.set("word", "static");
    assert_eq!(board.get::<Point>("point"), Some(Point { x: 0.5, y: -1.0 }));
    assert_eq!(board.get::<Vec<u16>>("list"), Some(vec![1, 2, 3]));
    assert_eq!(board.get::<&'static str>("word"), Some("static"));
    // Another type reads nothing, though it is close.
    assert_eq!(board.get::<Vec<u32>>("list"), None);
    assert_eq!(board.get::<String>("word"), None);
    assert_eq!(board.get::<Box<Point>>("point"), None);
    assert!(board.contains("point"));
    // A later write replaces the value and its type.
    board.set("point", 7i8);
    assert_eq!(board.get::<Point>("point"), None);
    assert_eq!(board.get::<i8>("point"), Some(7));
    assert_eq!(board.get_or_insert("point", 9i8), 7);
    assert_eq!(board.get_or_insert("point", 'c'), 'c');
    assert_eq!(board.get::<i8>("point"), None);
    assert_eq!(board.len(), 3);
}

/// Reading gives a clone; what is stored stays.
#[test]
fn reading_gives_clones() {
    let mut board: Blackboard<AnySlot> = Blackboard::new();
    board.set("list", vec![1u8]);
    let mut read = board.get::<Vec<u8>>("list").unwrap();
    read.push(2);
    assert_eq!(board.get::<Vec<u8>>("list"), Some(vec![1]));
}

/// Each key is listed once, however often it was written.
#[test]
fn keys_are_listed_once() {
    let mut board: Blackboard = Blackboard::new();
    for n in 0..3u32 {
        board.set("a", n);
        board.set("b", true);
    }
    board.remove("b");
    board.set("b", 1u8);
    let mut keys = board.keys();
    keys.sort();
    assert_eq!(keys, vec!["a".to_string(), "b".to_string()]);
}
