//! Hook wire-protocol data: one input type per lifecycle event, with every
//! field optional, and the two response types the handlers emit.
//!
//! Reading standard input and writing standard output happen outside the
//! library; these types carry the decoded values.

use vstd::prelude::*;

verus! {

/// Fields common to every hook input.
pub struct HookInput {
    /// Stable id of the conversation.
    pub conversation_id: Option<String>,
    /// Current generation id.
    pub generation_id: Option<String>,
    /// Model being used.
    pub model: Option<String>,
    /// Which hook is being run.
    pub hook_event_name: Option<String>,
    /// Editor version.
    pub cursor_version: Option<String>,
    /// Workspace roots.
    pub workspace_roots: Vec<String>,
    /// User email.
    pub user_email: Option<String>,
}

/// Input for the prompt-submission hook.
pub struct BeforeSubmitPromptInput {
    pub common: HookInput,
    /// The user's prompt text.
    pub prompt: Option<String>,
}

/// Response for the prompt-submission hook.
pub struct BeforeSubmitPromptOutput {
    /// Whether the submission may proceed.
    pub continue_submission: bool,
    /// Message shown to the user when the submission is blocked.
    pub user_message: Option<String>,
}

impl BeforeSubmitPromptOutput {
    /// A response that lets the submission proceed.
    pub fn allow() -> (r: Self)
        ensures
            r.continue_submission,
            r.user_message is None,
    {
        Self { continue_submission: true, user_message: None }
    }

    /// A response that blocks the submission with a message.
    pub fn block(message: &str) -> (r: Self)
        ensures
            !r.continue_submission,
            r.user_message matches Some(m) && m@ == message@,
    {
        Self { continue_submission: false, user_message: Some(message.to_owned()) }
    }
}

/// Input for the hook that fires after a shell command ran.
pub struct AfterShellInput {
    pub common: HookInput,
    /// The command that ran.
    pub command: Option<String>,
    /// Its captured output.
    pub output: Option<String>,
}

/// Input for the hook that fires before a shell command runs.
pub struct BeforeShellInput {
    pub common: HookInput,
    /// The command about to run.
    pub command: Option<String>,
}

/// Input for the hook that fires when the agent stops.
pub struct StopInput {
    pub common: HookInput,
    /// Status of the agent loop.
    pub status: Option<String>,
    /// How many times the stop hook has auto-submitted a follow-up.
    pub loop_count: u32,
}

/// Response for the stop hook.
pub struct StopOutput {
    /// Follow-up message to auto-submit, if any.
    pub followup_message: Option<String>,
}

impl StopOutput {
    /// An empty response: no follow-up.
    pub fn empty() -> (r: Self)
        ensures
            r.followup_message is None,
    {
        Self { followup_message: None }
    }

    /// A response that auto-submits a follow-up message.
    pub fn with_followup(message: &str) -> (r: Self)
        ensures
            r.followup_message matches Some(m) && m@ == message@,
    {
        Self { followup_message: Some(message.to_owned()) }
    }
}

/// The conversation id to use: the one the hook supplied, or `"default"`
/// when the input was missing or carried none.
pub fn conversation_id_or_default(id: Option<&String>) -> (r: String)
    ensures
        match id {
            Some(s) => r@ == s@,
            None => r@ == "default"@,
        },
{
    match id {
        Some(s) => s.clone(),
        None => "default".to_owned(),
    }
}

} // verus!
