use update_qtile::cache::{
    aur_url, authorizes, clear_result, clear_step, remove_repo, CacheError, ClearAction,
    ClearEvent, ClearPhase, FetchError,
};

fn drive(events: &[ClearEvent]) -> (ClearPhase, Vec<ClearAction>) {
    let (mut phase, first) = remove_repo();
    let mut actions = vec![first];
    for e in events {
        let (next, action) = clear_step(phase, e);
        phase = next;
        actions.push(action);
    }
    (phase, actions)
}

#[test]
fn empty_and_y_authorize() {
    assert!(authorizes(""));
    assert!(authorizes("y"));
    assert!(authorizes("Y"));
}

#[test]
fn other_answers_decline() {
    assert!(!authorizes("n"));
    assert!(!authorizes("N"));
    assert!(!authorizes("yes"));
    assert!(!authorizes(" "));
    assert!(!authorizes("yy"));
}

#[test]
fn absent_directory_is_cleared_at_once() {
    let (phase, actions) = drive(&[ClearEvent::Exists(false)]);
    assert_eq!(actions, vec![ClearAction::Check, ClearAction::Stop]);
    assert_eq!(clear_result(phase), Some(Ok(())));
}

#[test]
fn plain_delete_clears() {
    let (phase, actions) = drive(&[ClearEvent::Exists(true), ClearEvent::Deleted(true)]);
    assert_eq!(actions, vec![ClearAction::Check, ClearAction::Delete, ClearAction::Stop]);
    assert_eq!(phase, ClearPhase::Cleared);
}

#[test]
fn failed_delete_prompts_and_escalates_on_consent() {
    let (phase, actions) = drive(&[
        ClearEvent::Exists(true),
        ClearEvent::Deleted(false),
        ClearEvent::Answered(String::new()),
        ClearEvent::Escalated(true),
    ]);
    assert_eq!(
        actions,
        vec![
            ClearAction::Check,
            ClearAction::Delete,
            ClearAction::Prompt,
            ClearAction::PrivilegedDelete,
            ClearAction::Stop
        ]
    );
    assert_eq!(clear_result(phase), Some(Ok(())));
}

#[test]
fn declined_escalation_is_permission_denied() {
    let (phase, actions) = drive(&[
        ClearEvent::Exists(true),
        ClearEvent::Deleted(false),
        ClearEvent::Answered("n".to_string()),
    ]);
    assert_eq!(actions[3], ClearAction::Stop);
    assert_eq!(clear_result(phase), Some(Err(CacheError::PermissionDenied)));
}

#[test]
fn failed_escalation_is_permission_denied() {
    let (phase, _) = drive(&[
        ClearEvent::Exists(true),
        ClearEvent::Deleted(false),
        ClearEvent::Answered("Y".to_string()),
        ClearEvent::Escalated(false),
    ]);
    assert_eq!(phase, ClearPhase::Denied);
    assert_eq!(clear_result(phase), Some(Err(CacheError::PermissionDenied)));
}

#[test]
fn clearing_in_progress_has_no_result() {
    assert_eq!(clear_result(ClearPhase::Checking), None);
    assert_eq!(clear_result(ClearPhase::Asking), None);
    let (phase, action) = clear_step(ClearPhase::Checking, &ClearEvent::Escalated(true));
    assert_eq!(phase, ClearPhase::Checking);
    assert_eq!(action, ClearAction::Nothing);
}

#[test]
fn unreachable_endpoint_message() {
    assert_eq!(aur_url(), "https://aur.archlinux.org/qtile-git");
    let e = FetchError::unreachable("failed to resolve address");
    assert_eq!(e.endpoint, "https://aur.archlinux.org/qtile-git");
    assert_eq!(e.reason, "failed to resolve address");
    assert_eq!(
        e.message(),
        "AUR URL https://aur.archlinux.org/qtile-git is unreachable, error: failed to resolve address"
    );
}
