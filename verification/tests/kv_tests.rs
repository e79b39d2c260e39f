use chat_loop::kv::{handle_error, kv_store_get, kv_store_set, AppState};

#[test]
fn basic_kv_store_post_test() {
    let mut state = AppState::default();
    kv_store_set(&mut state, "test".to_string(), b"Hello World".to_vec());
    let result = state.get(&"test".to_string()).unwrap();
    assert_eq!(&result[..], b"Hello World");
}

#[test]
fn basic_kv_store_get_404() {
    let state = AppState::default();
    let response = kv_store_get(&state, &"test".to_string());
    assert_eq!(response, Err(404));
}

#[test]
fn basic_kv_store_get() {
    let mut state = AppState::default();
    state.set("test".to_string(), b"Hello World".to_vec());
    let response = kv_store_get(&state, &"test".to_string());
    assert_eq!(response, Ok(b"Hello World".to_vec()));
}

#[test]
fn newest_value_wins() {
    let mut state = AppState::default();
    state.set("k".to_string(), b"old".to_vec());
    state.set("k".to_string(), b"new".to_vec());
    assert_eq!(state.get(&"k".to_string()).unwrap(), &b"new".to_vec());
}

#[test]
fn remove_key_then_miss() {
    let mut state = AppState::default();
    state.set("a".to_string(), b"1".to_vec());
    state.set("b".to_string(), b"2".to_vec());
    state.remove(&"a".to_string());
    assert!(state.get(&"a".to_string()).is_none());
    assert_eq!(state.get(&"b".to_string()).unwrap(), &b"2".to_vec());
}

#[test]
fn clear_drops_every_key() {
    let mut state = AppState::default();
    state.set("a".to_string(), b"1".to_vec());
    state.set("b".to_string(), b"2".to_vec());
    state.clear();
    assert!(state.get(&"a".to_string()).is_none());
    assert!(state.get(&"b".to_string()).is_none());
}

#[test]
fn handle_error_statuses() {
    let (status, message) = handle_error(true, "");
    assert_eq!(status, 408);
    assert_eq!(message, "request timed out");
    let (status, message) = handle_error(false, "boom");
    assert_eq!(status, 500);
    assert_eq!(message, "Unhandled internal error: boom");
}
