use ntf::{AppState, Notification, ResourceError};

fn notification(id: usize, message: &str, ack: bool) -> Notification {
    Notification { id, message: message.to_owned(), ack }
}

#[test]
fn creations_number_from_one_by_one() {
    let mut store = AppState::new();
    for (i, message) in ["a", "b", "a", "a", ""].iter().enumerate() {
        let created = store.create(message.to_string());
        assert_eq!(created, notification(i + 1, message, false));
    }
}

#[test]
fn list_returns_creation_order() {
    let mut store = AppState::new();
    store.create("m1".to_owned());
    store.create("m2".to_owned());
    assert_eq!(store.list(), vec![notification(1, "m1", false), notification(2, "m2", false)]);
}

#[test]
fn list_of_new_store_is_empty() {
    let store = AppState::new();
    assert_eq!(store.list(), vec![]);
}

#[test]
fn delete_removes_exactly_that_entry() {
    let mut store = AppState::new();
    store.create("a".to_owned());
    store.create("b".to_owned());
    store.create("c".to_owned());
    assert_eq!(store.delete(2), Ok(notification(2, "b", false)));
    assert_eq!(store.list(), vec![notification(1, "a", false), notification(3, "c", false)]);
    assert_eq!(store.get(2), Err(ResourceError::NotFound { id: 2 }));
    assert_eq!(store.acknowledge(2), Err(ResourceError::NotFound { id: 2 }));
    assert_eq!(store.delete(2), Err(ResourceError::NotFound { id: 2 }));
    assert_eq!(store.list(), vec![notification(1, "a", false), notification(3, "c", false)]);
}

#[test]
fn acknowledge_twice_gives_the_same_record() {
    let mut store = AppState::new();
    store.create("x".to_owned());
    store.create("y".to_owned());
    let first = store.acknowledge(1);
    let second = store.acknowledge(1);
    assert_eq!(first, Ok(notification(1, "x", true)));
    assert_eq!(second, first);
    assert_eq!(store.list(), vec![notification(1, "x", true), notification(2, "y", false)]);
}

#[test]
fn acknowledge_keeps_position() {
    let mut store = AppState::new();
    store.create("x".to_owned());
    store.create("y".to_owned());
    store.create("z".to_owned());
    store.acknowledge(2).unwrap();
    assert_eq!(
        store.list(),
        vec![notification(1, "x", false), notification(2, "y", true), notification(3, "z", false)]
    );
}

#[test]
fn create_after_delete_does_not_reuse_ids() {
    let mut store = AppState::new();
    assert_eq!(store.create("first".to_owned()).id, 1);
    store.delete(1).unwrap();
    assert_eq!(store.create("second".to_owned()).id, 2);
    store.create("third".to_owned());
    store.delete(3).unwrap();
    store.delete(2).unwrap();
    assert_eq!(store.create("fourth".to_owned()), notification(4, "fourth", false));
}

#[test]
fn hi_scenario() {
    let mut store = AppState::new();
    assert_eq!(store.create("hi".to_owned()), notification(1, "hi", false));
    assert_eq!(store.acknowledge(1), Ok(notification(1, "hi", true)));
    assert_eq!(store.get(2), Err(ResourceError::NotFound { id: 2 }));
    assert_eq!(store.delete(1), Ok(notification(1, "hi", true)));
    assert_eq!(store.list(), vec![]);
}

#[test]
fn get_returns_current_record() {
    let mut store = AppState::new();
    store.create("one".to_owned());
    assert_eq!(store.get(1), Ok(notification(1, "one", false)));
    assert_eq!(store.get(0), Err(ResourceError::NotFound { id: 0 }));
}

#[test]
fn interleaved_operations_hand_out_consecutive_ids() {
    let mut store = AppState::new();
    let mut ids = Vec::new();
    for round in 0..10usize {
        ids.push(store.create(format!("n{round}")).id);
        if round % 3 == 0 {
            store.delete(ids[round]).unwrap();
        } else {
            store.acknowledge(ids[round]).unwrap();
        }
    }
    assert_eq!(ids, (1..=10).collect::<Vec<usize>>());
}
