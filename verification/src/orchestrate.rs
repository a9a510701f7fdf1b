//! One handler per lifecycle event.
//!
//! Each handler is the decision core of its event: it takes the state table,
//! the observed windows and the current time, mutates the table, and returns
//! the actions the caller must perform (focus switches, spawning the
//! failsafe timer). Window queries, process spawning and response emission
//! happen outside the library.

use vstd::prelude::*;
use vstd::string::StringExecFns;
use crate::state::{ConversationState, StateManager, sweep, lemma_sweep_idempotent};
use crate::policy::{
    select_window_to_save,
    spec_select_window_to_save,
    secondary_window_for_shell,
    spec_secondary_window_for_shell,
};
use crate::window::WindowInfo;

verus! {

/// Which editor window a handler wants focused.
#[derive(Debug)]
pub enum EditorTarget {
    /// The specific remembered editor window.
    Specific(WindowInfo),
    /// Any window of the editor.
    Any,
}

/// What the failsafe re-check decided.
#[derive(Debug)]
pub enum CheckIdleOutcome {
    /// The shell entry is gone: the command already resolved, do nothing.
    CommandResolved,
    /// The entry is newer than the delay: a newer timer owns the decision.
    WaitLonger,
    /// The command still sits unacknowledged: pull the user back.
    ForceRefocus {
        /// The editor window recorded in the parent conversation.
        editor: EditorTarget,
        /// The secondary window the pending command interrupted.
        interrupted: WindowInfo,
    },
}

/// The shell namespace of a conversation id.
pub open spec fn shell_key(conversation_id: Seq<char>) -> Seq<char> {
    conversation_id + "_shell"@
}

/// The key under which a pending shell command's secondary window is stored.
pub fn shell_conversation_id(conversation_id: &str) -> (r: String)
    ensures
        r@ == shell_key(conversation_id@),
{
    let mut s = conversation_id.to_owned();
    s.append("_shell");
    s
}

/// The editor window to bring forward for a conversation: the remembered one
/// when the table holds it, else any editor window.
pub open spec fn spec_editor_target(
    m: Map<Seq<char>, ConversationState>,
    conversation_id: Seq<char>,
) -> EditorTarget {
    if m.contains_key(conversation_id) {
        match m[conversation_id].cursor_window {
            Some(w) => EditorTarget::Specific(w),
            None => EditorTarget::Any,
        }
    } else {
        EditorTarget::Any
    }
}

/// An owned copy of an optional window.
fn clone_opt_window(w: &Option<WindowInfo>) -> (r: Option<WindowInfo>)
    ensures
        r == *w,
{
    match w {
        Some(x) => Some(x.clone()),
        None => None,
    }
}

/// The save event: the agent received a new instruction. Remembers the
/// window to bounce back to (preferring the previous window over the current
/// one) under this conversation's id, and returns the window to hand focus
/// to, unless the no-autofocus flag suppresses the switch or no window could
/// be resolved. When no window is known at all, the table is left untouched.
pub fn save_hook(
    mgr: &mut StateManager,
    conversation_id: &str,
    current_window: Option<WindowInfo>,
    previous_window: Option<WindowInfo>,
    no_focus: bool,
    now: u64,
) -> (focus: Option<WindowInfo>)
    ensures
        match spec_select_window_to_save(current_window, previous_window) {
            Some(w) => final(mgr)@ == sweep(old(mgr)@, now).insert(
                conversation_id@,
                ConversationState {
                    saved_window: w,
                    cursor_window: current_window,
                    saved_at: now,
                    user_switched: false,
                },
            ),
            None => final(mgr)@ == old(mgr)@,
        },
        focus == (if no_focus {
            None::<WindowInfo>
        } else {
            spec_select_window_to_save(current_window, previous_window)
        }),
{
    let current_clone = clone_opt_window(&current_window);
    let selected = select_window_to_save(current_window, previous_window);
    match selected {
        Some(w) => {
            let focus_copy = w.clone();
            mgr.save_conversation(conversation_id, w, current_clone, now);
            if no_focus {
                None
            } else {
                Some(focus_copy)
            }
        },
        None => None,
    }
}

/// The restore event: the agent finished. Unconditionally brings the user
/// back to the editor — to the remembered editor window when the table holds
/// one — and clears the conversation's entry.
pub fn restore_hook(mgr: &mut StateManager, conversation_id: &str, now: u64) -> (target:
    EditorTarget)
    ensures
        final(mgr)@ == sweep(old(mgr)@, now).remove(conversation_id@),
        target == spec_editor_target(sweep(old(mgr)@, now), conversation_id@),
{
    let loaded = mgr.load_conversation(conversation_id, now);
    let target = match loaded {
        Some(c) => match c.cursor_window {
            Some(w) => EditorTarget::Specific(w),
            None => EditorTarget::Any,
        },
        None => EditorTarget::Any,
    };
    proof {
        lemma_sweep_idempotent(old(mgr)@, now);
    }
    mgr.clear_conversation(conversation_id, now);
    target
}

/// The before-shell event: a command is about to run. Remembers the
/// secondary window (the one to return to once the command resolves) under
/// the conversation's shell key, when one could be resolved. The failsafe
/// timer is requested unconditionally — a timer that later finds no entry is
/// a no-op — and the command itself is always allowed to proceed.
pub fn before_shell_hook(
    mgr: &mut StateManager,
    conversation_id: &str,
    current_window: Option<WindowInfo>,
    previous_window: Option<WindowInfo>,
    now: u64,
) -> (spawn_failsafe: bool)
    ensures
        spawn_failsafe,
        match spec_secondary_window_for_shell(current_window, previous_window) {
            Some(w) => final(mgr)@ == sweep(old(mgr)@, now).insert(
                shell_key(conversation_id@),
                ConversationState {
                    saved_window: w,
                    cursor_window: None,
                    saved_at: now,
                    user_switched: false,
                },
            ),
            None => final(mgr)@ == old(mgr)@,
        },
{
    let secondary = secondary_window_for_shell(current_window, previous_window);
    match secondary {
        Some(w) => {
            let sid = shell_conversation_id(conversation_id);
            mgr.save_conversation(sid.as_str(), w, None, now);
        },
        None => {},
    }
    true
}

/// The after-shell event: the command completed. When a shell entry is
/// present, returns its secondary window so the caller can focus it, and
/// clears the entry; when absent (no interruption, or the failsafe already
/// resolved it) this is a no-op beyond the staleness sweep.
pub fn after_shell_hook(mgr: &mut StateManager, conversation_id: &str, now: u64) -> (focus: Option<
    WindowInfo,
>)
    ensures
        final(mgr)@ == sweep(old(mgr)@, now).remove(shell_key(conversation_id@)),
        focus == (if sweep(old(mgr)@, now).contains_key(shell_key(conversation_id@)) {
            Some(sweep(old(mgr)@, now)[shell_key(conversation_id@)].saved_window)
        } else {
            None::<WindowInfo>
        }),
{
    let sid = shell_conversation_id(conversation_id);
    match mgr.load_conversation(sid.as_str(), now) {
        Some(c) => {
            proof {
                lemma_sweep_idempotent(old(mgr)@, now);
            }
            mgr.clear_conversation(sid.as_str(), now);
            Some(c.saved_window)
        },
        None => {
            proof {
                assert(sweep(old(mgr)@, now).remove(shell_key(conversation_id@)) =~= sweep(
                    old(mgr)@,
                    now,
                ));
            }
            None
        },
    }
}

/// What the failsafe re-check decides on a given table: nothing when the
/// shell entry is gone (the command resolved) or newer than the delay (a
/// back-to-back command replaced it, and that command's timer owns the
/// decision); otherwise a forced refocus to the editor window recorded in
/// the parent conversation, not the shell entry.
pub open spec fn spec_check_idle_outcome(
    m: Map<Seq<char>, ConversationState>,
    conversation_id: Seq<char>,
    delay_seconds: u64,
    now: u64,
) -> CheckIdleOutcome {
    let k = shell_key(conversation_id);
    if !m.contains_key(k) {
        CheckIdleOutcome::CommandResolved
    } else if now < m[k].saved_at + delay_seconds {
        CheckIdleOutcome::WaitLonger
    } else {
        CheckIdleOutcome::ForceRefocus {
            editor: spec_editor_target(m, conversation_id),
            interrupted: m[k].saved_window,
        }
    }
}

/// The failsafe re-check: invoked by the detached timer after its delay.
/// Acts only when the shell entry is still present and at least
/// `delay_seconds` have elapsed since it was saved, re-validated against the
/// persisted timestamp rather than the timer's own scheduling. The table is
/// never mutated beyond the staleness sweep.
pub fn check_idle_hook(
    mgr: &mut StateManager,
    conversation_id: &str,
    delay_seconds: u64,
    now: u64,
) -> (r: CheckIdleOutcome)
    ensures
        final(mgr)@ == sweep(old(mgr)@, now),
        r == spec_check_idle_outcome(sweep(old(mgr)@, now), conversation_id@, delay_seconds, now),
{
    let sid = shell_conversation_id(conversation_id);
    match mgr.load_conversation(sid.as_str(), now) {
        None => CheckIdleOutcome::CommandResolved,
        Some(shell_state) => {
            if now < shell_state.saved_at || now - shell_state.saved_at < delay_seconds {
                CheckIdleOutcome::WaitLonger
            } else {
                proof {
                    lemma_sweep_idempotent(old(mgr)@, now);
                }
                let editor = match mgr.load_conversation(conversation_id, now) {
                    Some(main_state) => match main_state.cursor_window {
                        Some(w) => EditorTarget::Specific(w),
                        None => EditorTarget::Any,
                    },
                    None => EditorTarget::Any,
                };
                CheckIdleOutcome::ForceRefocus { editor, interrupted: shell_state.saved_window }
            }
        },
    }
}

/// Law: a shell entry saved by the before-shell event is exactly what a
/// later invocation finds under the shell key, as long as it is younger
/// than the staleness threshold — so the after-shell event hands back the
/// same secondary window that was put aside, and the failsafe that fires
/// then interrupts that same window.
pub proof fn lemma_shell_entry_survives(
    m: Map<Seq<char>, ConversationState>,
    conversation_id: Seq<char>,
    secondary: WindowInfo,
    saved_now: u64,
    later: u64,
)
    requires
        saved_now <= later < saved_now + crate::STALE_AFTER_SECONDS,
    ensures
        ({
            let entry = ConversationState {
                saved_window: secondary,
                cursor_window: None,
                saved_at: saved_now,
                user_switched: false,
            };
            let table = sweep(m, saved_now).insert(shell_key(conversation_id), entry);
            let seen = sweep(table, later);
            seen.contains_key(shell_key(conversation_id)) && seen[shell_key(conversation_id)]
                == entry
        }),
{
}

/// Law: once the failsafe's delay has elapsed since the shell entry was
/// saved — and the entry is not yet stale — the re-check fires, and it
/// names the window the pending command interrupted; before the delay has
/// elapsed it waits instead. Re-validated against the entry's own
/// timestamp, never the timer's scheduling.
pub proof fn lemma_failsafe_fires_exactly_after_delay(
    m: Map<Seq<char>, ConversationState>,
    conversation_id: Seq<char>,
    secondary: WindowInfo,
    delay_seconds: u64,
    saved_now: u64,
    later: u64,
)
    requires
        saved_now <= later < saved_now + crate::STALE_AFTER_SECONDS,
    ensures
        ({
            let entry = ConversationState {
                saved_window: secondary,
                cursor_window: None,
                saved_at: saved_now,
                user_switched: false,
            };
            let table = sweep(m, saved_now).insert(shell_key(conversation_id), entry);
            let seen = sweep(table, later);
            if later >= saved_now + delay_seconds {
                spec_check_idle_outcome(seen, conversation_id, delay_seconds, later) matches
                    CheckIdleOutcome::ForceRefocus { editor: _, interrupted }
                    && interrupted == secondary
            } else {
                spec_check_idle_outcome(seen, conversation_id, delay_seconds, later)
                    == CheckIdleOutcome::WaitLonger
            }
        }),
{
    lemma_shell_entry_survives(m, conversation_id, secondary, saved_now, later);
}

/// Law: the failsafe re-check leaves the table exactly as the staleness
/// sweep left it, so invoking it a second time at the same moment sees the
/// same table and decides the same way — a second timer cannot fire
/// differently from the first.
pub proof fn lemma_check_idle_no_double_fire(
    m: Map<Seq<char>, ConversationState>,
    conversation_id: Seq<char>,
    delay_seconds: u64,
    now: u64,
)
    ensures
        spec_check_idle_outcome(sweep(sweep(m, now), now), conversation_id, delay_seconds, now)
            == spec_check_idle_outcome(sweep(m, now), conversation_id, delay_seconds, now),
{
    lemma_sweep_idempotent(m, now);
}

} // verus!
