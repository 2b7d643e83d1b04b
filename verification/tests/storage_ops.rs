use contributor_reputation::state::ContributorReputation;
use contributor_reputation::strmap::StrMap;
use contributor_reputation::types::Analytics;
use contributor_reputation::types::CredentialToken;
use contributor_reputation::types::Dispute;
use contributor_reputation::types::DisputeStatus;
use contributor_reputation::types::ProbationStatus;
use contributor_reputation::types::RecoveryPlan;
use contributor_reputation::types::Reputation;
use contributor_reputation::types::User;

fn create_test_user(id: u64, name: &str) -> User {
    User {
        id,
        name: name.to_string(),
        verified: false,
        expertise_areas: StrMap::new(),
    }
}

fn create_test_reputation(user_id: u64, subject: &str, score: u32) -> Reputation {
    Reputation {
        user_id,
        subject: subject.to_string(),
        score,
    }
}

fn create_test_credential(token_id: u64, user_id: u64) -> CredentialToken {
    CredentialToken {
        token_id,
        user_id,
        issued_at: 0,
    }
}

fn create_test_dispute(dispute_id: u64, user_id: u64) -> Dispute {
    Dispute {
        id: dispute_id,
        user_id,
        subject: "test_subject".to_string(),
        original_score: 80,
        disputed_score: 60,
        evidence: "test_evidence".to_string(),
        status: DisputeStatus::Pending,
        created_at: 0,
        resolved_at: None,
        resolver: None,
    }
}

fn create_test_recovery_plan(user_id: u64) -> RecoveryPlan {
    RecoveryPlan {
        user_id,
        target_score: 75,
        milestones: StrMap::new(),
        created_at: 0,
        deadline: 30 * 86400,
        progress: StrMap::new(),
        completed: false,
    }
}

fn create_test_analytics(key: &str) -> Analytics {
    Analytics {
        key: key.to_string(),
        data: StrMap::new(),
        trends: StrMap::new(),
        last_updated: 0,
    }
}

#[test]
fn test_increment_user_id() {
    let mut state = ContributorReputation::new();
    let id1 = state.increment_user_id();
    let id2 = state.increment_user_id();
    assert_eq!(id2, id1 + 1);
}

#[test]
fn test_get_next_token_id() {
    let state = ContributorReputation::new();
    let token_id = state.get_next_token_id();
    assert!(token_id > 0);
}

#[test]
fn test_increment_token_id() {
    let mut state = ContributorReputation::new();
    let id1 = state.increment_token_id();
    let id2 = state.increment_token_id();
    assert_eq!(id2, id1 + 1);
}

#[test]
fn test_increment_dispute_id() {
    let mut state = ContributorReputation::new();
    let id1 = state.increment_dispute_id();
    let id2 = state.increment_dispute_id();
    assert_eq!(id2, id1 + 1);
}

#[test]
fn test_store_and_get_credential() {
    let mut state = ContributorReputation::new();
    let credential = create_test_credential(1, 1);
    state.store_credential(credential);
    let retrieved = state.get_credential(1).unwrap();
    assert_eq!(retrieved.token_id, 1);
    assert_eq!(retrieved.user_id, 1);
}

#[test]
fn test_get_credential_not_found() {
    let state = ContributorReputation::new();
    let result = state.get_credential(999);
    assert!(result.is_err());
}

#[test]
fn test_get_dispute() {
    let mut state = ContributorReputation::new();
    let dispute = create_test_dispute(1, 1);
    state.store_dispute(dispute);
    let retrieved = state.get_dispute(1).unwrap();
    assert_eq!(retrieved.id, 1);
    assert_eq!(retrieved.user_id, 1);
}

#[test]
fn test_get_dispute_not_found() {
    let state = ContributorReputation::new();
    let result = state.get_dispute(999);
    assert!(result.is_err());
}

#[test]
fn test_store_and_get_user_disputes() {
    let mut state = ContributorReputation::new();
    let dispute_ids = vec![1u64, 2, 3];
    state.store_user_disputes(1, dispute_ids);
    let retrieved = state.get_user_disputes(1);
    assert_eq!(retrieved.len(), 3);
    assert!(retrieved.contains(&1));
    assert!(retrieved.contains(&2));
    assert!(retrieved.contains(&3));
}

#[test]
fn test_get_user_disputes_empty() {
    let state = ContributorReputation::new();
    let disputes = state.get_user_disputes(999);
    assert_eq!(disputes.len(), 0);
}

#[test]
fn test_store_and_get_recovery_plan() {
    let mut state = ContributorReputation::new();
    let plan = create_test_recovery_plan(1);
    state.store_recovery_plan(plan);
    let retrieved = state.get_recovery_plan(1).unwrap();
    assert_eq!(retrieved.user_id, 1);
    assert_eq!(retrieved.target_score, 75);
    assert_eq!(retrieved.created_at, 0);
}

#[test]
fn test_get_recovery_plan_not_found() {
    let state = ContributorReputation::new();
    let result = state.get_recovery_plan(999);
    assert!(result.is_err());
}

#[test]
fn test_get_analytics() {
    let mut state = ContributorReputation::new();
    let analytics = create_test_analytics("test_key");
    state.store_analytics(analytics);
    let retrieved = state.get_analytics(&"test_key".to_string());
    assert!(retrieved.is_some());
    assert_eq!(retrieved.unwrap().key, "test_key".to_string());
    let non_existent = state.get_analytics(&"non_existent".to_string());
    assert!(non_existent.is_none());
}

#[test]
fn test_user_exists() {
    let mut state = ContributorReputation::new();
    let user = create_test_user(1, "Alice");
    assert!(!state.user_exists(1));
    state.store_user(user);
    assert!(state.user_exists(1));
    assert!(!state.user_exists(999));
}

#[test]
fn test_reputation_exists() {
    let mut state = ContributorReputation::new();
    let reputation = create_test_reputation(1, "math", 85);
    assert!(!state.reputation_exists(1, &"math".to_string()));
    state.store_reputation(reputation);
    assert!(state.reputation_exists(1, &"math".to_string()));
    assert!(!state.reputation_exists(1, &"science".to_string()));
    assert!(!state.reputation_exists(999, &"math".to_string()));
}

#[test]
fn test_dispute_exists() {
    let mut state = ContributorReputation::new();
    let dispute = create_test_dispute(1, 1);
    assert!(!state.dispute_exists(1));
    state.store_dispute(dispute);
    assert!(state.dispute_exists(1));
    assert!(!state.dispute_exists(999));
}

#[test]
fn test_get_all_user_ids() {
    let mut state = ContributorReputation::new();
    let user_ids = state.get_all_user_ids();
    assert_eq!(user_ids.len(), 0);
    state.store_user(create_test_user(1, "Alice"));
    state.store_user(create_test_user(2, "Bob"));
    state.store_user(create_test_user(3, "Charlie"));
    state.set_next_user_id(4);
    let user_ids = state.get_all_user_ids();
    assert_eq!(user_ids.len(), 3);
    assert!(user_ids.contains(&1));
    assert!(user_ids.contains(&2));
    assert!(user_ids.contains(&3));
}

#[test]
fn test_get_all_dispute_ids() {
    let mut state = ContributorReputation::new();
    let dispute_ids = state.get_all_dispute_ids();
    assert_eq!(dispute_ids.len(), 0);
    state.store_dispute(create_test_dispute(1, 1));
    state.store_dispute(create_test_dispute(2, 2));
    state.store_dispute(create_test_dispute(3, 1));
    state.set_next_dispute_id(4);
    let dispute_ids = state.get_all_dispute_ids();
    assert_eq!(dispute_ids.len(), 3);
    assert!(dispute_ids.contains(&1));
    assert!(dispute_ids.contains(&2));
    assert!(dispute_ids.contains(&3));
}

#[test]
fn test_cleanup_expired_probations() {
    let mut state = ContributorReputation::new();
    let current_time: u64 = 10000;
    state.store_user(create_test_user(1, "Alice"));
    state.store_user(create_test_user(2, "Bob"));
    state.set_next_user_id(3);
    let expired_probation = ProbationStatus {
        user_id: 1,
        active: true,
        start_date: 1000,
        end_date: 5000,
        reason: "Test violation".to_string(),
        restrictions: StrMap::new(),
    };
    let active_probation = ProbationStatus {
        user_id: 2,
        active: true,
        start_date: current_time,
        end_date: current_time + 1000,
        reason: "Another violation".to_string(),
        restrictions: StrMap::new(),
    };
    state.store_probation_status(expired_probation);
    state.store_probation_status(active_probation);
    state.cleanup_expired_probations(current_time);
    let user1_probation = state.get_probation_status(1);
    let user2_probation = state.get_probation_status(2);
    assert!(!user1_probation.active);
    assert!(user2_probation.active);
}

#[test]
fn test_get_all_user_ids_with_gaps() {
    let mut state = ContributorReputation::new();
    state.store_user(create_test_user(1, "Alice"));
    state.store_user(create_test_user(3, "Charlie"));
    state.store_user(create_test_user(5, "Eve"));
    state.set_next_user_id(6);
    let user_ids = state.get_all_user_ids();
    assert_eq!(user_ids.len(), 3);
    assert!(user_ids.contains(&1));
    assert!(user_ids.contains(&3));
    assert!(user_ids.contains(&5));
    assert!(!user_ids.contains(&2));
    assert!(!user_ids.contains(&4));
}

#[test]
fn test_get_all_dispute_ids_with_gaps() {
    let mut state = ContributorReputation::new();
    state.store_dispute(create_test_dispute(1, 1));
    state.store_dispute(create_test_dispute(3, 2));
    state.store_dispute(create_test_dispute(5, 1));
    state.set_next_dispute_id(6);
    let dispute_ids = state.get_all_dispute_ids();
    assert_eq!(dispute_ids.len(), 3);
    assert!(dispute_ids.contains(&1));
    assert!(dispute_ids.contains(&3));
    assert!(dispute_ids.contains(&5));
    assert!(!dispute_ids.contains(&2));
    assert!(!dispute_ids.contains(&4));
}

#[test]
fn test_cleanup_expired_probations_no_users() {
    let mut state = ContributorReputation::new();
    state.cleanup_expired_probations(0);
    assert!(true);
}

#[test]
fn test_cleanup_expired_probations_no_active_probations() {
    let mut state = ContributorReputation::new();
    state.store_user(create_test_user(1, "Alice"));
    state.set_next_user_id(2);
    state.cleanup_expired_probations(0);
    let probation = state.get_probation_status(1);
    assert!(!probation.active);
}

#[test]
fn test_expertise_map_overwrites_equal_key() {
    let mut areas: StrMap<u32> = StrMap::new();
    areas.set("Mathematics".to_string(), 5);
    areas.set("Mathematics".to_string(), 7);
    assert_eq!(areas.len(), 1);
    assert_eq!(*areas.get(&"Mathematics".to_string()).unwrap(), 7);
}

#[test]
fn test_get_all_user_ids_sorted() {
    let mut state = ContributorReputation::new();
    state.store_user(create_test_user(5, "Eve"));
    state.store_user(create_test_user(1, "Alice"));
    state.store_user(create_test_user(3, "Charlie"));
    state.set_next_user_id(6);
    let user_ids = state.get_all_user_ids();
    assert_eq!(user_ids, vec![1u64, 3, 5]);
}
