use contributor_reputation::state::ContributorReputation;
use contributor_reputation::strmap::StrMap;
use contributor_reputation::types::DisputeStatus;

#[test]
fn test_allocators_hand_out_consecutive_ids() {
    let mut state = ContributorReputation::new();
    assert_eq!(state.increment_user_id(), 1);
    assert_eq!(state.increment_user_id(), 2);
    assert_eq!(state.increment_user_id(), 3);
    assert_eq!(state.increment_token_id(), 1);
    assert_eq!(state.increment_token_id(), 2);
    assert_eq!(state.increment_dispute_id(), 1);
    assert_eq!(state.increment_dispute_id(), 2);
}

#[test]
fn test_full_reputation_lifecycle() {
    let mut state = ContributorReputation::new();
    let user_id = state.initialize_user(true, "Alice".to_string()).unwrap();
    assert_eq!(user_id, 1);
    state
        .verify_user(true, user_id, &"identity papers".to_string())
        .unwrap();
    assert!(state.get_user(user_id).unwrap().verified);
    let token_id = state.mint_credential_token(true, user_id, 0).unwrap();
    assert_eq!(token_id, 1);
    state
        .update_reputation(true, user_id, "Mathematics".to_string(), 100, 0)
        .unwrap();
    assert_eq!(
        state
            .get_reputation(user_id, &"Mathematics".to_string())
            .unwrap(),
        100
    );
    let dispute_id = state
        .submit_dispute(
            true,
            user_id,
            "Mathematics".to_string(),
            100,
            "unfair".to_string(),
            0,
        )
        .unwrap();
    assert!(matches!(
        state.get_dispute(dispute_id).unwrap().status,
        DisputeStatus::Pending
    ));
    state
        .resolve_dispute(true, dispute_id, true, "admin".to_string(), 3)
        .unwrap();
    let resolved = state.get_dispute(dispute_id).unwrap();
    assert!(matches!(resolved.status, DisputeStatus::Approved));
    assert_eq!(resolved.resolved_at, Some(3));
    assert_eq!(resolved.resolver, Some("admin".to_string()));
}

#[test]
fn test_probation_lifecycle_with_clock_advance() {
    let mut state = ContributorReputation::new();
    let user_id = state.initialize_user(true, "user".to_string()).unwrap();
    let start: u64 = 1000;
    state
        .set_probation(
            true,
            user_id,
            30,
            "violation".to_string(),
            StrMap::new(),
            start,
        )
        .unwrap();
    assert!(state.is_on_probation(user_id));
    let later = start + 31 * 86400;
    assert!(
        state.is_on_probation(user_id),
        "a mere clock advance does not clear the flag"
    );
    state.cleanup_expired_probations(later);
    assert!(!state.is_on_probation(user_id));
}

#[test]
fn test_probation_restrictions_are_kept_through_cleanup() {
    let mut state = ContributorReputation::new();
    let user_id = state.initialize_user(true, "user".to_string()).unwrap();
    let mut restrictions: StrMap<bool> = StrMap::new();
    restrictions.set("posting".to_string(), false);
    restrictions.set("voting".to_string(), true);
    state
        .set_probation(true, user_id, 1, "violation".to_string(), restrictions, 0)
        .unwrap();
    state.cleanup_expired_probations(2 * 86400);
    let p = state.get_probation_status(user_id);
    assert!(!p.active);
    assert_eq!(p.start_date, 0);
    assert_eq!(p.end_date, 86400);
    assert_eq!(p.reason, "violation".to_string());
    assert_eq!(p.restrictions.len(), 2);
    assert_eq!(*p.restrictions.get(&"posting".to_string()).unwrap(), false);
    assert_eq!(*p.restrictions.get(&"voting".to_string()).unwrap(), true);
}

#[test]
fn test_history_accumulates_in_order() {
    let mut state = ContributorReputation::new();
    let user_id = state.initialize_user(true, "user".to_string()).unwrap();
    state
        .verify_user(true, user_id, &"verified".to_string())
        .unwrap();
    state.mint_credential_token(true, user_id, 0).unwrap();
    state
        .update_reputation(true, user_id, "math".to_string(), 10, 100)
        .unwrap();
    state
        .update_reputation(true, user_id, "science".to_string(), 20, 200)
        .unwrap();
    state
        .update_reputation(true, user_id, "math".to_string(), 30, 300)
        .unwrap();
    let (score, history) = state
        .get_reputation_with_history(user_id, &"math".to_string())
        .unwrap();
    assert_eq!(score, 30);
    assert_eq!(history.user_id, user_id);
    assert_eq!(history.subject, "math".to_string());
    assert_eq!(history.entries.len(), 2);
    assert_eq!(history.entries[0].score, 10);
    assert_eq!(history.entries[0].timestamp, 100);
    assert_eq!(history.entries[1].score, 30);
    assert_eq!(history.entries[1].timestamp, 300);
}

#[test]
fn test_analytics_cache_round_trip() {
    let mut state = ContributorReputation::new();
    let user_id = state.initialize_user(true, "user".to_string()).unwrap();
    state
        .verify_user(true, user_id, &"verified".to_string())
        .unwrap();
    state.mint_credential_token(true, user_id, 0).unwrap();
    state
        .update_reputation(true, user_id, "math".to_string(), 70, 0)
        .unwrap();
    let a = state.generate_user_analytics(user_id, 30, 0).unwrap();
    let key = a.key.clone();
    state.store_analytics(a);
    let cached = state.get_analytics(&key).unwrap();
    assert_eq!(cached.key, key);
    assert_eq!(*cached.data.get(&"total_updates".to_string()).unwrap(), 1);
    assert_eq!(*cached.data.get(&"average_score".to_string()).unwrap(), 70);
}
