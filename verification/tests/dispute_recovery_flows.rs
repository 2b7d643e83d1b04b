use contributor_reputation::state::ContributorReputation;
use contributor_reputation::strmap::StrMap;
use contributor_reputation::types::DisputeStatus;
use contributor_reputation::types::Error;

#[test]
fn test_dispute_resolution_flow() {
    let mut state = ContributorReputation::new();
    let _admin_id = state.initialize_user(true, "admin".to_string()).unwrap();
    let user_id = state
        .initialize_user(true, "test_user".to_string())
        .unwrap();
    let reviewer_id = state
        .initialize_user(true, "test_reviewer".to_string())
        .unwrap();
    state
        .verify_user(true, user_id, &"verified".to_string())
        .unwrap();
    state
        .verify_user(true, reviewer_id, &"verified".to_string())
        .unwrap();
    state.mint_credential_token(true, user_id, 0).unwrap();
    state
        .update_reputation(true, user_id, "math".to_string(), 75, 0)
        .unwrap();
    let dispute_id = state
        .submit_dispute(
            true,
            user_id,
            "math".to_string(),
            75,
            "Unfair reputation reduction".to_string(),
            0,
        )
        .unwrap();
    let dispute = state.get_dispute(dispute_id).unwrap();
    assert_eq!(dispute.user_id, user_id);
    assert_eq!(dispute.subject, "math".to_string());
    state
        .resolve_dispute(true, dispute_id, true, "admin_resolver".to_string(), 0)
        .unwrap();
    let resolved_dispute = state.get_dispute(dispute_id).unwrap();
    assert!(matches!(resolved_dispute.status, DisputeStatus::Approved));
}

#[test]
fn test_resolve_dispute_twice_fails() {
    let mut state = ContributorReputation::new();
    let user_id = state.initialize_user(true, "user".to_string()).unwrap();
    let dispute_id = state
        .submit_dispute(
            true,
            user_id,
            "math".to_string(),
            10,
            "evidence".to_string(),
            0,
        )
        .unwrap();
    state
        .resolve_dispute(true, dispute_id, false, "admin".to_string(), 5)
        .unwrap();
    let again = state.resolve_dispute(true, dispute_id, true, "admin".to_string(), 6);
    assert!(matches!(again, Err(Error::PreconditionNotMet)));
    let d = state.get_dispute(dispute_id).unwrap();
    assert!(matches!(d.status, DisputeStatus::Rejected));
    assert_eq!(d.resolved_at, Some(5));
}

#[test]
fn test_submit_dispute_captures_current_score() {
    let mut state = ContributorReputation::new();
    let user_id = state.initialize_user(true, "user".to_string()).unwrap();
    state
        .verify_user(true, user_id, &"verified".to_string())
        .unwrap();
    state.mint_credential_token(true, user_id, 0).unwrap();
    state
        .update_reputation(true, user_id, "math".to_string(), 64, 0)
        .unwrap();
    let dispute_id = state
        .submit_dispute(
            true,
            user_id,
            "math".to_string(),
            40,
            "evidence".to_string(),
            7,
        )
        .unwrap();
    let d = state.get_dispute(dispute_id).unwrap();
    assert_eq!(d.original_score, 64);
    assert_eq!(d.disputed_score, 40);
    assert_eq!(d.created_at, 7);
    assert!(matches!(d.status, DisputeStatus::Pending));
    assert_eq!(d.resolved_at, None);
    let listed = state.get_user_disputes(user_id);
    assert_eq!(listed, vec![dispute_id]);
}

#[test]
fn test_recovery_plan_creation() {
    let mut state = ContributorReputation::new();
    let _admin_id = state.initialize_user(true, "admin".to_string()).unwrap();
    let user_id = state.initialize_user(true, "user".to_string()).unwrap();
    state
        .verify_user(true, user_id, &"verified".to_string())
        .unwrap();
    state.mint_credential_token(true, user_id, 0).unwrap();
    let mut expertise_areas: StrMap<u32> = StrMap::new();
    expertise_areas.set("math".to_string(), 40);
    state
        .update_expertise_areas(true, user_id, expertise_areas)
        .unwrap();
    state
        .update_reputation(true, user_id, "math".to_string(), 40, 0)
        .unwrap();
    let mut milestones: StrMap<u32> = StrMap::new();
    milestones.set("math".to_string(), 85);
    state
        .create_recovery_plan(true, user_id, 90, milestones, 30, 0)
        .unwrap();
    let plan = state.get_recovery_plan(user_id).unwrap();
    assert_eq!(plan.user_id, user_id);
    assert_eq!(plan.target_score, 90);
    assert_eq!(plan.completed, false);
}

#[test]
fn test_recovery_plan_deadline() {
    let mut state = ContributorReputation::new();
    let user_id = state.initialize_user(true, "user".to_string()).unwrap();
    state
        .create_recovery_plan(true, user_id, 80, StrMap::new(), 30, 1000)
        .unwrap();
    let plan = state.get_recovery_plan(user_id).unwrap();
    assert_eq!(plan.created_at, 1000);
    assert_eq!(plan.deadline, 1000 + 30 * 86400);
}

#[test]
fn test_recovery_progress_completes_plan() {
    let mut state = ContributorReputation::new();
    let user_id = state.initialize_user(true, "user".to_string()).unwrap();
    let mut milestones: StrMap<u32> = StrMap::new();
    milestones.set("math".to_string(), 85);
    milestones.set("science".to_string(), 70);
    state
        .create_recovery_plan(true, user_id, 90, milestones, 30, 0)
        .unwrap();
    state
        .record_recovery_progress(true, user_id, "math".to_string(), 85)
        .unwrap();
    assert!(!state.get_recovery_plan(user_id).unwrap().completed);
    state
        .record_recovery_progress(true, user_id, "science".to_string(), 70)
        .unwrap();
    let plan = state.get_recovery_plan(user_id).unwrap();
    assert!(plan.completed);
    assert_eq!(*plan.progress.get(&"math".to_string()).unwrap(), 85);
    state
        .record_recovery_progress(true, user_id, "math".to_string(), 10)
        .unwrap();
    assert!(
        state.get_recovery_plan(user_id).unwrap().completed,
        "a completed plan stays completed"
    );
}

#[test]
fn test_recovery_progress_without_plan_fails() {
    let mut state = ContributorReputation::new();
    let r = state.record_recovery_progress(true, 1, "math".to_string(), 10);
    assert!(matches!(
        r,
        Err(contributor_reputation::types::Error::NotFound(
            contributor_reputation::types::EntityKind::RecoveryPlan
        ))
    ));
}

#[test]
fn test_probation_system() {
    let mut state = ContributorReputation::new();
    let _admin_id = state.initialize_user(true, "admin".to_string()).unwrap();
    let user_id = state.initialize_user(true, "user".to_string()).unwrap();
    state
        .verify_user(true, user_id, &"verified".to_string())
        .unwrap();
    assert_eq!(state.is_on_probation(user_id), false);
    let mut restrictions: StrMap<bool> = StrMap::new();
    restrictions.set("posting".to_string(), false);
    state
        .set_probation(true, user_id, 30, "violation".to_string(), restrictions, 0)
        .unwrap();
    assert_eq!(state.is_on_probation(user_id), true);
}

#[test]
fn test_probation_expiry_boundary() {
    let mut state = ContributorReputation::new();
    let user_id = state.initialize_user(true, "user".to_string()).unwrap();
    state
        .set_probation(true, user_id, 1, "violation".to_string(), StrMap::new(), 0)
        .unwrap();
    state.cleanup_expired_probations(86399);
    assert!(state.is_on_probation(user_id));
    state.cleanup_expired_probations(86400);
    assert!(!state.is_on_probation(user_id));
}
