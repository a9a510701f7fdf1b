use recursor::policy::{select_window_to_save, should_force_refocus, secondary_window_for_shell};
use recursor::state::ConversationState;
use recursor::window::WindowInfo;

fn window(app_name: &str, title: &str, pid: u32) -> WindowInfo {
    WindowInfo {
        pid,
        window_id: format!("{}:1", pid),
        app_name: app_name.to_string(),
        title: title.to_string(),
    }
}

#[test]
fn select_window_to_save_prefers_previous_window() {
    let cursor = window("Cursor", "main.rs - Recursor - Cursor", 100);
    let previous = window("Google Chrome", "YouTube", 200);

    let selected = select_window_to_save(Some(cursor), Some(previous.clone()));
    assert_eq!(selected, Some(previous));
}

#[test]
fn select_window_to_save_falls_back_to_cursor_window() {
    let cursor = window("Cursor", "main.rs - Recursor - Cursor", 100);

    let selected = select_window_to_save(Some(cursor.clone()), None);
    assert_eq!(selected, Some(cursor));
}

#[test]
fn select_window_to_save_handles_missing_windows() {
    assert_eq!(select_window_to_save(None, None), None);
}

#[test]
fn test_is_cursor() {
    let cursor_window = WindowInfo {
        pid: 1234,
        window_id: "test".to_string(),
        app_name: "Cursor".to_string(),
        title: "main.rs - Cursor".to_string(),
    };
    assert!(cursor_window.is_cursor());

    let chrome_window = WindowInfo {
        pid: 5678,
        window_id: "test2".to_string(),
        app_name: "Google Chrome".to_string(),
        title: "YouTube".to_string(),
    };
    assert!(!chrome_window.is_cursor());
}

#[test]
fn is_cursor_ignores_case_and_position() {
    assert!(window("CURSOR", "x", 1).is_cursor());
    assert!(window("My cursor app", "x", 1).is_cursor());
    assert!(!window("Curso", "x", 1).is_cursor());
    assert!(!window("", "x", 1).is_cursor());
}

#[test]
fn cursor_project_name_takes_middle_segment() {
    let w = window("Cursor", "main.rs - Recursor - Cursor", 100);
    assert_eq!(w.cursor_project_name().as_deref(), Some("Recursor"));
    // too few separators: no project segment
    assert_eq!(window("Cursor", "Welcome - Cursor", 100).cursor_project_name(), None);
    assert_eq!(window("Cursor", "Cursor", 100).cursor_project_name(), None);
    assert_eq!(window("Cursor", "", 100).cursor_project_name(), None);
}

fn conv(saved: WindowInfo, user_switched: bool) -> ConversationState {
    ConversationState {
        saved_window: saved,
        cursor_window: None,
        saved_at: 1000,
        user_switched,
    }
}

#[test]
fn should_force_refocus_respects_user_switch() {
    // user_switched suppresses the refocus whatever the current window is
    let c = conv(window("Google Chrome", "YouTube", 200), true);
    assert!(!should_force_refocus(&c, &window("Google Chrome", "YouTube", 200)));
    assert!(!should_force_refocus(&c, &window("Cursor", "main.rs - Cursor", 100)));
    assert!(!should_force_refocus(&c, &window("Slack", "general", 300)));
}

#[test]
fn should_force_refocus_allows_matching_app() {
    let c = conv(window("Google Chrome", "YouTube", 200), false);
    assert!(should_force_refocus(&c, &window("Google Chrome", "Docs", 200)));
}

#[test]
fn should_force_refocus_blocks_third_app() {
    let c = conv(window("Google Chrome", "YouTube", 200), false);
    assert!(!should_force_refocus(&c, &window("Slack", "general", 300)));
}

#[test]
fn should_force_refocus_allows_editor() {
    let c = conv(window("Google Chrome", "YouTube", 200), false);
    assert!(should_force_refocus(&c, &window("Cursor", "main.rs - Cursor", 100)));
}

#[test]
fn secondary_window_prefers_previous_when_in_editor() {
    let editor = window("Cursor", "main.rs - Cursor", 100);
    let chrome = window("Google Chrome", "Video", 200);
    assert_eq!(
        secondary_window_for_shell(Some(editor), Some(chrome.clone())),
        Some(chrome)
    );
}

#[test]
fn secondary_window_is_current_when_not_in_editor() {
    let chrome = window("Google Chrome", "Video", 200);
    let other = window("Slack", "general", 300);
    assert_eq!(
        secondary_window_for_shell(Some(chrome.clone()), Some(other)),
        Some(chrome)
    );
}

#[test]
fn secondary_window_is_none_without_current() {
    assert_eq!(
        secondary_window_for_shell(None, Some(window("Slack", "general", 300))),
        None
    );
}
