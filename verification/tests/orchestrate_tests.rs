use recursor::orchestrate::{
    save_hook, restore_hook, before_shell_hook, after_shell_hook, check_idle_hook,
    shell_conversation_id, EditorTarget, CheckIdleOutcome,
};
use recursor::state::StateManager;
use recursor::window::WindowInfo;
use recursor::hooks::{
    BeforeSubmitPromptOutput, StopOutput, conversation_id_or_default,
};
use recursor::config::is_enabled_from_config;
use recursor::clock::current_unix_seconds;
use recursor::SHELL_FAILSAFE_DELAY_SECONDS;

fn window(app_name: &str, title: &str, pid: u32) -> WindowInfo {
    WindowInfo {
        pid,
        window_id: format!("{}:1", pid),
        app_name: app_name.to_string(),
        title: title.to_string(),
    }
}

fn editor_window() -> WindowInfo {
    window("Cursor", "main.rs - Recursor - Cursor", 100)
}

fn chrome_video() -> WindowInfo {
    window("Google Chrome", "Video", 200)
}

#[test]
fn save_hook_prefers_previous_and_returns_focus() {
    let mut mgr = StateManager::new();
    let focus = save_hook(
        &mut mgr,
        "c1",
        Some(editor_window()),
        Some(chrome_video()),
        false,
        1000,
    );
    assert_eq!(focus, Some(chrome_video()));
    let saved = mgr.load_conversation("c1", 1000).expect("entry should be present");
    assert_eq!(saved.saved_window, chrome_video());
    assert_eq!(saved.cursor_window, Some(editor_window()));
}

#[test]
fn save_hook_honours_no_focus_flag() {
    let mut mgr = StateManager::new();
    let focus = save_hook(
        &mut mgr,
        "c1",
        Some(editor_window()),
        Some(chrome_video()),
        true,
        1000,
    );
    assert_eq!(focus, None);
    assert!(mgr.load_conversation("c1", 1000).is_some());
}

#[test]
fn save_hook_without_windows_saves_nothing() {
    let mut mgr = StateManager::new();
    let focus = save_hook(&mut mgr, "c1", None, None, false, 1000);
    assert_eq!(focus, None);
    assert!(mgr.load_conversation("c1", 1000).is_none());
}

#[test]
fn restore_hook_targets_remembered_editor_window_and_clears() {
    let mut mgr = StateManager::new();
    save_hook(
        &mut mgr,
        "c1",
        Some(editor_window()),
        Some(chrome_video()),
        true,
        1000,
    );
    let target = restore_hook(&mut mgr, "c1", 1001);
    match target {
        EditorTarget::Specific(w) => assert_eq!(w, editor_window()),
        EditorTarget::Any => panic!("expected the remembered editor window"),
    }
    assert!(mgr.load_conversation("c1", 1001).is_none());
}

#[test]
fn restore_hook_without_state_targets_any_editor_window() {
    let mut mgr = StateManager::new();
    let target = restore_hook(&mut mgr, "c1", 1000);
    assert!(matches!(target, EditorTarget::Any));
}

#[test]
fn shell_conversation_id_appends_namespace() {
    assert_eq!(shell_conversation_id("c1"), "c1_shell");
    assert_eq!(shell_conversation_id(""), "_shell");
}

#[test]
fn before_shell_then_after_shell_bounces_back() {
    // the user sits in the editor; the previous window is Chrome with a video
    let mut mgr = StateManager::new();
    let spawned = before_shell_hook(
        &mut mgr,
        "c1",
        Some(editor_window()),
        Some(chrome_video()),
        1000,
    );
    assert!(spawned);
    let shell_entry = mgr
        .load_conversation("c1_shell", 1000)
        .expect("shell entry should be present");
    assert_eq!(shell_entry.saved_window, chrome_video());
    assert_eq!(shell_entry.cursor_window, None);

    // the command resolves within the delay window
    let focus = after_shell_hook(&mut mgr, "c1", 1003);
    assert_eq!(focus, Some(chrome_video()));
    assert!(mgr.load_conversation("c1_shell", 1003).is_none());
}

#[test]
fn before_shell_outside_editor_tracks_current_window() {
    let mut mgr = StateManager::new();
    let spawned = before_shell_hook(&mut mgr, "c1", Some(chrome_video()), None, 1000);
    assert!(spawned);
    let shell_entry = mgr
        .load_conversation("c1_shell", 1000)
        .expect("shell entry should be present");
    assert_eq!(shell_entry.saved_window, chrome_video());
}

#[test]
fn before_shell_without_windows_saves_nothing() {
    let mut mgr = StateManager::new();
    // the failsafe is still requested; a timer that finds no entry is a no-op
    let spawned = before_shell_hook(&mut mgr, "c1", None, None, 1000);
    assert!(spawned);
    assert!(mgr.load_conversation("c1_shell", 1000).is_none());
    let out = check_idle_hook(&mut mgr, "c1", SHELL_FAILSAFE_DELAY_SECONDS, 1010);
    assert!(matches!(out, CheckIdleOutcome::CommandResolved));
}

#[test]
fn after_shell_without_entry_is_a_no_op() {
    let mut mgr = StateManager::new();
    assert_eq!(after_shell_hook(&mut mgr, "c1", 1000), None);
}

#[test]
fn check_idle_fires_after_delay_and_targets_parent_editor_window() {
    let mut mgr = StateManager::new();
    // the parent conversation remembers the specific editor window
    save_hook(
        &mut mgr,
        "c1",
        Some(editor_window()),
        Some(chrome_video()),
        true,
        995,
    );
    before_shell_hook(
        &mut mgr,
        "c1",
        Some(editor_window()),
        Some(chrome_video()),
        1000,
    );

    // after_shell never arrives; the failsafe runs once the delay elapsed
    let out = check_idle_hook(&mut mgr, "c1", SHELL_FAILSAFE_DELAY_SECONDS, 1005);
    match out {
        CheckIdleOutcome::ForceRefocus { editor, interrupted } => {
            match editor {
                EditorTarget::Specific(w) => assert_eq!(w, editor_window()),
                EditorTarget::Any => panic!("expected the parent conversation's editor window"),
            }
            assert_eq!(interrupted, chrome_video());
        }
        _ => panic!("expected the failsafe to fire"),
    }
    // the shell entry stays until an explicit clear path
    assert!(mgr.load_conversation("c1_shell", 1005).is_some());

    // a second invocation decides the same way: no different outcome
    let again = check_idle_hook(&mut mgr, "c1", SHELL_FAILSAFE_DELAY_SECONDS, 1005);
    assert!(matches!(again, CheckIdleOutcome::ForceRefocus { .. }));
}

#[test]
fn check_idle_waits_when_entry_is_newer_than_delay() {
    let mut mgr = StateManager::new();
    before_shell_hook(&mut mgr, "c1", Some(chrome_video()), None, 1000);
    let out = check_idle_hook(&mut mgr, "c1", SHELL_FAILSAFE_DELAY_SECONDS, 1004);
    assert!(matches!(out, CheckIdleOutcome::WaitLonger));
    // the entry is untouched; the newer timer will decide later
    assert!(mgr.load_conversation("c1_shell", 1004).is_some());
}

#[test]
fn check_idle_is_a_no_op_once_the_command_resolved() {
    let mut mgr = StateManager::new();
    before_shell_hook(&mut mgr, "c1", Some(chrome_video()), None, 1000);
    after_shell_hook(&mut mgr, "c1", 1002);
    let out = check_idle_hook(&mut mgr, "c1", SHELL_FAILSAFE_DELAY_SECONDS, 1010);
    assert!(matches!(out, CheckIdleOutcome::CommandResolved));
}

#[test]
fn check_idle_without_parent_state_targets_any_editor_window() {
    let mut mgr = StateManager::new();
    before_shell_hook(&mut mgr, "c1", Some(chrome_video()), None, 1000);
    let out = check_idle_hook(&mut mgr, "c1", 5, 1010);
    match out {
        CheckIdleOutcome::ForceRefocus { editor, .. } => {
            assert!(matches!(editor, EditorTarget::Any));
        }
        _ => panic!("expected the failsafe to fire"),
    }
}

#[test]
fn hook_outputs_carry_their_fields() {
    let allow = BeforeSubmitPromptOutput::allow();
    assert!(allow.continue_submission);
    assert!(allow.user_message.is_none());

    let block = BeforeSubmitPromptOutput::block("not now");
    assert!(!block.continue_submission);
    assert_eq!(block.user_message.as_deref(), Some("not now"));

    let empty = StopOutput::empty();
    assert!(empty.followup_message.is_none());

    let follow = StopOutput::with_followup("carry on");
    assert_eq!(follow.followup_message.as_deref(), Some("carry on"));
}

#[test]
fn conversation_id_falls_back_to_default() {
    assert_eq!(conversation_id_or_default(None), "default");
    let id = "abc".to_string();
    assert_eq!(conversation_id_or_default(Some(&id)), "abc");
}

#[test]
fn enable_flag_defaults_to_enabled() {
    assert!(is_enabled_from_config(None));
    let disabled = "{\"enabled\": false}".to_string();
    assert!(!is_enabled_from_config(Some(&disabled)));
    let enabled = "{\"enabled\": true}".to_string();
    assert!(is_enabled_from_config(Some(&enabled)));
    let invalid = "{invalid".to_string();
    assert!(is_enabled_from_config(Some(&invalid)));
    let missing = "{}".to_string();
    assert!(is_enabled_from_config(Some(&missing)));
    let wrong_type = "{\"enabled\": \"no\"}".to_string();
    assert!(is_enabled_from_config(Some(&wrong_type)));
}

#[test]
fn clock_reads_a_post_epoch_time() {
    assert!(current_unix_seconds() > 1_500_000_000);
}
