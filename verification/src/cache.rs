//! The decisions of the repository cache: clearing the working directory,
//! with one interactive attempt at a privileged delete, and the endpoint
//! that the recipe is fetched from.

use vstd::prelude::*;
use vstd::string::StringExecFns;

verus! {

/// Why the working directory could not be cleared.
#[derive(Clone, Copy, Debug, PartialEq, Eq, Structural)]
pub enum CacheError {
    /// The delete failed, and the privileged delete was declined or failed
    /// too.
    PermissionDenied,
}

/// Where the clearing of the working directory stands.
#[derive(Clone, Copy, Debug, PartialEq, Eq, Structural)]
pub enum ClearPhase {
    /// It is being looked up.
    Checking,
    /// It is being deleted.
    Deleting,
    /// The user is asked whether to delete with privileges.
    Asking,
    /// It is being deleted with privileges.
    Escalating,
    /// It is gone.
    Cleared,
    /// It could not be deleted.
    Denied,
}

/// What ended a phase of the clearing.
#[derive(Clone, Debug, PartialEq, Eq)]
pub enum ClearEvent {
    /// Whether the directory exists.
    Exists(bool),
    /// Whether the delete succeeded.
    Deleted(bool),
    /// The line that the user typed, without its line feed.
    Answered(String),
    /// Whether the privileged delete succeeded.
    Escalated(bool),
}

/// What the cache does next.
#[derive(Clone, Copy, Debug, PartialEq, Eq, Structural)]
pub enum ClearAction {
    /// Look the directory up.
    Check,
    /// Delete it recursively.
    Delete,
    /// Ask the user for a privileged delete and read one line.
    Prompt,
    /// Delete it recursively with privileges.
    PrivilegedDelete,
    /// Stop: the clearing is over.
    Stop,
    /// The event was not waited for: do nothing.
    Nothing,
}

/// An empty answer, `y` or `Y`.
pub open spec fn is_affirmative(answer: Seq<char>) -> bool {
    answer.len() == 0 || answer == seq!['y'] || answer == seq!['Y']
}

/// The phase and the action that follow `event` in `phase`.
pub open spec fn clear_transition(phase: ClearPhase, event: ClearEvent) -> (
    ClearPhase,
    ClearAction,
) {
    match (phase, event) {
        (ClearPhase::Checking, ClearEvent::Exists(true)) => (
            ClearPhase::Deleting,
            ClearAction::Delete,
        ),
        (ClearPhase::Checking, ClearEvent::Exists(false)) => (
            ClearPhase::Cleared,
            ClearAction::Stop,
        ),
        (ClearPhase::Deleting, ClearEvent::Deleted(true)) => (
            ClearPhase::Cleared,
            ClearAction::Stop,
        ),
        (ClearPhase::Deleting, ClearEvent::Deleted(false)) => (
            ClearPhase::Asking,
            ClearAction::Prompt,
        ),
        (ClearPhase::Asking, ClearEvent::Answered(answer)) => if is_affirmative(answer@) {
            (ClearPhase::Escalating, ClearAction::PrivilegedDelete)
        } else {
            (ClearPhase::Denied, ClearAction::Stop)
        },
        (ClearPhase::Escalating, ClearEvent::Escalated(true)) => (
            ClearPhase::Cleared,
            ClearAction::Stop,
        ),
        (ClearPhase::Escalating, ClearEvent::Escalated(false)) => (
            ClearPhase::Denied,
            ClearAction::Stop,
        ),
        _ => (phase, ClearAction::Nothing),
    }
}

/// The result of a clearing that is over; `None` while it is not.
pub open spec fn clear_outcome(phase: ClearPhase) -> Option<Result<(), CacheError>> {
    match phase {
        ClearPhase::Cleared => Some(Ok(())),
        ClearPhase::Denied => Some(Err(CacheError::PermissionDenied)),
        _ => None,
    }
}

/// Whether the answer to the prompt authorizes the privileged delete.
pub fn authorizes(answer: &str) -> (r: bool)
    ensures
        r == is_affirmative(answer@),
{
    let n: usize = answer.unicode_len();
    if n == 0 {
        true
    } else if n == 1 {
        let c = answer.get_char(0);
        assert(answer@ =~= seq![c]);
        assert(seq![c] == seq!['y'] <==> c == 'y') by {
            assert(seq![c][0] == c);
            assert(seq!['y'][0] == 'y');
        }
        assert(seq![c] == seq!['Y'] <==> c == 'Y') by {
            assert(seq![c][0] == c);
            assert(seq!['Y'][0] == 'Y');
        }
        c == 'y' || c == 'Y'
    } else {
        assert(seq!['y'].len() == 1 && seq!['Y'].len() == 1);
        false
    }
}

/// The clearing starts by looking the directory up.
pub fn remove_repo() -> (r: (ClearPhase, ClearAction))
    ensures
        r == (ClearPhase::Checking, ClearAction::Check),
{
    (ClearPhase::Checking, ClearAction::Check)
}

/// Takes the event that ended a phase of the clearing; gives the next phase
/// and the action to perform.
pub fn clear_step(phase: ClearPhase, event: &ClearEvent) -> (r: (ClearPhase, ClearAction))
    ensures
        r == clear_transition(phase, *event),
{
    match (phase, event) {
        (ClearPhase::Checking, ClearEvent::Exists(there)) => if *there {
            (ClearPhase::Deleting, ClearAction::Delete)
        } else {
            (ClearPhase::Cleared, ClearAction::Stop)
        },
        (ClearPhase::Deleting, ClearEvent::Deleted(ok)) => if *ok {
            (ClearPhase::Cleared, ClearAction::Stop)
        } else {
            (ClearPhase::Asking, ClearAction::Prompt)
        },
        (ClearPhase::Asking, ClearEvent::Answered(answer)) => if authorizes(answer.as_str()) {
            (ClearPhase::Escalating, ClearAction::PrivilegedDelete)
        } else {
            (ClearPhase::Denied, ClearAction::Stop)
        },
        (ClearPhase::Escalating, ClearEvent::Escalated(ok)) => if *ok {
            (ClearPhase::Cleared, ClearAction::Stop)
        } else {
            (ClearPhase::Denied, ClearAction::Stop)
        },
        (phase, _) => (phase, ClearAction::Nothing),
    }
}

/// The result of the clearing, once it is over.
pub fn clear_result(phase: ClearPhase) -> (r: Option<Result<(), CacheError>>)
    ensures
        r == clear_outcome(phase),
{
    match phase {
        ClearPhase::Cleared => Some(Ok(())),
        ClearPhase::Denied => Some(Err(CacheError::PermissionDenied)),
        _ => None,
    }
}

/// The privileged delete is attempted only after a failed delete and an
/// affirmative answer; any other answer denies the clearing.
pub proof fn lemma_escalation_needs_consent(phase: ClearPhase, event: ClearEvent)
    ensures
        clear_transition(phase, event).1 == ClearAction::PrivilegedDelete ==> phase
            == ClearPhase::Asking && event is Answered && is_affirmative(event->Answered_0@),
        phase == ClearPhase::Asking && event is Answered && !is_affirmative(event->Answered_0@)
            ==> clear_outcome(clear_transition(phase, event).0) == Some(
            Err::<(), CacheError>(CacheError::PermissionDenied),
        ),
{
}

/// The endpoint that the packaging recipe is fetched from.
pub fn aur_url() -> (r: &'static str)
    ensures
        r@ == "https://aur.archlinux.org/qtile-git"@,
{
    "https://aur.archlinux.org/qtile-git"
}

/// The endpoint could not be reached.
#[derive(Clone, Debug, PartialEq, Eq)]
pub struct FetchError {
    /// The endpoint.
    pub endpoint: String,
    /// What the fetch reported.
    pub reason: String,
}

impl FetchError {
    /// The text of the error.
    pub open spec fn text(self) -> Seq<char> {
        "AUR URL "@ + self.endpoint@ + " is unreachable, error: "@ + self.reason@
    }

    /// The error for a fetch from the recipe's endpoint that reported
    /// `reason`.
    pub fn unreachable(reason: &str) -> (r: FetchError)
        ensures
            r.endpoint@ == "https://aur.archlinux.org/qtile-git"@,
            r.reason@ == reason@,
    {
        FetchError { endpoint: aur_url().to_owned(), reason: reason.to_owned() }
    }

    /// The message that is logged for the error.
    pub fn message(&self) -> (r: String)
        ensures
            r@ == self.text(),
    {
        "AUR URL ".to_owned().concat(self.endpoint.as_str()).concat(
            " is unreachable, error: ",
        ).concat(self.reason.as_str())
    }
}

} // verus!
