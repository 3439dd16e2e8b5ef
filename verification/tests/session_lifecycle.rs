use sparrow_core::session::{credential_policy, CredentialPolicy, SessionError, SessionManager};

#[test]
fn connect_swaps_the_slot_and_hands_out_the_prior_session() {
    let mut mgr = SessionManager::new();
    let first = mgr.connect_succeeded();
    assert!(first.response.ok);
    assert_eq!(first.response.message, "Connected".to_string());
    assert_eq!(first.close_id, None);
    let second = mgr.connect_succeeded();
    assert!(second.response.ok);
    assert_eq!(second.close_id, Some(first.session_id));
    assert_ne!(second.session_id, first.session_id);
    assert_eq!(mgr.current_session(), Ok(second.session_id));
}

#[test]
fn failed_connect_leaves_the_prior_session_usable() {
    let mut mgr = SessionManager::new();
    let swap = mgr.connect_succeeded();
    let resp = mgr.connect_failed("no route to host".to_string());
    assert!(!resp.ok);
    assert_eq!(resp.message, "no route to host".to_string());
    assert_eq!(mgr.current_session(), Ok(swap.session_id));
}

#[test]
fn failed_connect_with_no_prior_session_holds_none() {
    let mut mgr = SessionManager::new();
    let resp = mgr.connect_failed("bad host string".to_string());
    assert!(!resp.ok);
    assert_eq!(mgr.current_session(), Err(SessionError::NoActiveSession));
}

#[test]
fn disconnect_twice_fails_the_second_time() {
    let mut mgr = SessionManager::new();
    let swap = mgr.connect_succeeded();
    assert_eq!(mgr.disconnect(), Ok(swap.session_id));
    assert_eq!(mgr.disconnect(), Err(SessionError::NoActiveSession));
}

#[test]
fn operations_without_a_session_report_no_active_session() {
    let mgr = SessionManager::new();
    assert_eq!(mgr.current_session(), Err(SessionError::NoActiveSession));
}

#[test]
fn credentials_are_all_or_nothing() {
    assert_eq!(
        credential_policy(Some("admin".to_string()), Some("pw".to_string())),
        CredentialPolicy::UserPassword {
            username: "admin".to_string(),
            password: "pw".to_string(),
        }
    );
    assert_eq!(credential_policy(Some("admin".to_string()), None), CredentialPolicy::Anonymous);
    assert_eq!(credential_policy(None, Some("pw".to_string())), CredentialPolicy::Anonymous);
    assert_eq!(credential_policy(None, None), CredentialPolicy::Anonymous);
}
