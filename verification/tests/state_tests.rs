use recursor::state::{ConversationState, RecursorState, StateManager};
use recursor::window::WindowInfo;

fn test_window() -> WindowInfo {
    WindowInfo {
        pid: 1234,
        window_id: "test:1".to_string(),
        app_name: "Test".to_string(),
        title: "Test Window".to_string(),
    }
}

#[test]
fn test_state_staleness() {
    let now = 1_700_000_000;
    let state = ConversationState::new(test_window(), None, now);
    assert!(!state.is_stale(now));
}

#[test]
fn staleness_threshold_is_one_hour() {
    let state = ConversationState::new(test_window(), None, 1000);
    assert!(!state.is_stale(1000 + 3599));
    assert!(state.is_stale(1000 + 3600));
    // a timestamp from the future is not stale
    assert!(!state.is_stale(0));
}

#[test]
fn save_then_load_round_trips() {
    let mut mgr = StateManager::new();
    let w = test_window();
    let editor = WindowInfo {
        pid: 100,
        window_id: "100:1".to_string(),
        app_name: "Cursor".to_string(),
        title: "main.rs - Cursor".to_string(),
    };
    mgr.save_conversation("conv-1", w.clone(), Some(editor.clone()), 5000);
    let loaded = mgr.load_conversation("conv-1", 5000).expect("entry should be present");
    assert_eq!(loaded.saved_window, w);
    assert_eq!(loaded.cursor_window, Some(editor));
    assert_eq!(loaded.saved_at, 5000);
    assert!(!loaded.user_switched);
}

#[test]
fn save_replaces_whole_entry() {
    let mut mgr = StateManager::new();
    mgr.save_conversation("c", test_window(), None, 1000);
    let other = WindowInfo {
        pid: 9,
        window_id: "9:1".to_string(),
        app_name: "Slack".to_string(),
        title: "general".to_string(),
    };
    mgr.save_conversation("c", other.clone(), None, 2000);
    let loaded = mgr.load_conversation("c", 2000).expect("entry should be present");
    assert_eq!(loaded.saved_window, other);
    assert_eq!(loaded.saved_at, 2000);
}

#[test]
fn clear_conversation_twice_is_a_no_op() {
    let mut mgr = StateManager::new();
    mgr.save_conversation("c", test_window(), None, 1000);
    mgr.clear_conversation("c", 1000);
    assert!(mgr.load_conversation("c", 1000).is_none());
    // a second clear finds nothing and changes nothing
    mgr.clear_conversation("c", 1000);
    assert!(mgr.load_conversation("c", 1000).is_none());
}

#[test]
fn clear_removes_every_entry() {
    let mut mgr = StateManager::new();
    mgr.save_conversation("a", test_window(), None, 1000);
    mgr.save_conversation("b", test_window(), None, 1000);
    mgr.clear();
    assert!(mgr.get_all_conversations(1000).is_empty());
}

#[test]
fn stale_entries_are_evicted_on_access() {
    let mut mgr = StateManager::new();
    mgr.save_conversation("stale", test_window(), None, 1000);
    mgr.save_conversation("fresh", test_window(), None, 4000);
    // at 4600 the first entry is 3600 seconds old and goes; the second stays
    let all = mgr.get_all_conversations(4600);
    assert_eq!(all.len(), 1);
    assert_eq!(all[0].0, "fresh");
    // the eviction happened in the table itself, not only in the listing
    assert!(mgr.load_conversation("stale", 4600).is_none());
    assert!(mgr.load_conversation("fresh", 4600).is_some());
}

#[test]
fn load_sweeps_before_reading() {
    let mut mgr = StateManager::new();
    mgr.save_conversation("c", test_window(), None, 1000);
    assert!(mgr.load_conversation("c", 1000 + 3600).is_none());
}

#[test]
fn from_loaded_none_gives_empty_table() {
    // a durable table that was absent or failed to parse degrades to empty
    let mut mgr = StateManager::from_loaded(None);
    assert!(mgr.get_all_conversations(0).is_empty());
}

#[test]
fn from_loaded_takes_entries_and_later_duplicates_win() {
    let w1 = test_window();
    let w2 = WindowInfo {
        pid: 9,
        window_id: "9:1".to_string(),
        app_name: "Slack".to_string(),
        title: "general".to_string(),
    };
    let entries = vec![
        ("a".to_string(), ConversationState::new(w1.clone(), None, 1000)),
        ("b".to_string(), ConversationState::new(w1.clone(), None, 1000)),
        ("a".to_string(), ConversationState::new(w2.clone(), None, 2000)),
    ];
    let mut mgr = StateManager::from_loaded(Some(entries));
    let a = mgr.load_conversation("a", 2000).expect("entry a should be present");
    assert_eq!(a.saved_window, w2);
    assert_eq!(a.saved_at, 2000);
    assert!(mgr.load_conversation("b", 2000).is_some());
}

#[test]
fn entries_round_trip_through_from_loaded() {
    // what entries() hands out, from_loaded() takes back unchanged
    let mut mgr = StateManager::new();
    mgr.save_conversation("a", test_window(), None, 1000);
    mgr.save_conversation("b", test_window(), None, 1500);
    let persisted = mgr.get_all_conversations(1500);
    let mut reloaded = StateManager::from_loaded(Some(persisted));
    assert!(reloaded.load_conversation("a", 1500).is_some());
    assert!(reloaded.load_conversation("b", 1500).is_some());
}

#[test]
fn should_restore_cursor_without_state_is_true() {
    let mut mgr = StateManager::new();
    assert!(mgr.should_restore_cursor("c", &test_window(), 1000));
}

#[test]
fn should_restore_cursor_follows_policy() {
    let chrome = WindowInfo {
        pid: 200,
        window_id: "200:1".to_string(),
        app_name: "Google Chrome".to_string(),
        title: "YouTube".to_string(),
    };
    let mut mgr = StateManager::new();
    mgr.save_conversation("c", chrome.clone(), None, 1000);
    // still in the app the user was sent to: restore
    assert!(mgr.should_restore_cursor("c", &chrome, 1000));
    // moved to a third app: leave the user alone
    let slack = WindowInfo {
        pid: 300,
        window_id: "300:1".to_string(),
        app_name: "Slack".to_string(),
        title: "general".to_string(),
    };
    assert!(!mgr.should_restore_cursor("c", &slack, 1000));
}

#[test]
fn recursor_state_cleanup_is_direct() {
    let mut table = RecursorState::new();
    table.upsert("old", ConversationState::new(test_window(), None, 100));
    table.upsert("new", ConversationState::new(test_window(), None, 5000));
    table.cleanup_stale(5000);
    assert!(table.get("old").is_none());
    assert!(table.get("new").is_some());
    let entries = table.entries();
    assert_eq!(entries.len(), 1);
    assert_eq!(entries[0].0, "new");
}
