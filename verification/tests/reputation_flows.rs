use contributor_reputation::state::ContributorReputation;
use contributor_reputation::strmap::StrMap;
use contributor_reputation::types::EntityKind;
use contributor_reputation::types::Error;
use contributor_reputation::types::Reputation;
use contributor_reputation::types::User;

fn registered_verified_credentialed(state: &mut ContributorReputation, name: &str) -> u64 {
    let user_id = state.initialize_user(true, name.to_string()).unwrap();
    state
        .verify_user(true, user_id, &"verified".to_string())
        .unwrap();
    state.mint_credential_token(true, user_id, 0).unwrap();
    user_id
}

#[test]
fn test_update_reputation_for_verified() {
    let mut state = ContributorReputation::new();
    let user_id = state.initialize_user(true, "Alice".to_string()).unwrap();
    state
        .verify_user(true, user_id, &"Valid details".to_string())
        .unwrap();
    state.mint_credential_token(true, user_id, 0).unwrap();
    state
        .update_reputation(true, user_id, "Mathematics".to_string(), 100, 0)
        .unwrap();
    let score = state
        .get_reputation(user_id, &"Mathematics".to_string())
        .unwrap();
    assert_eq!(score, 100);
}

#[test]
fn test_update_reputation_unverified_user() {
    let mut state = ContributorReputation::new();
    let user_id = state.initialize_user(true, "Alice".to_string()).unwrap();
    let r = state.update_reputation(true, user_id, "Mathematics".to_string(), 100, 0);
    assert!(matches!(r, Err(Error::PreconditionNotMet)));
}

#[test]
fn test_get_reputation_non_existent() {
    let mut state = ContributorReputation::new();
    let user_id = state.initialize_user(true, "Alice".to_string()).unwrap();
    let r = state.get_reputation(user_id, &"Mathematics".to_string());
    assert!(matches!(r, Err(Error::NotFound(EntityKind::Reputation))));
}

#[test]
fn test_get_reputation_with_history() {
    let mut state = ContributorReputation::new();
    state.store_user(User {
        id: 1,
        name: "Alice".to_string(),
        verified: false,
        expertise_areas: StrMap::new(),
    });
    state.store_reputation(Reputation {
        user_id: 1,
        subject: "math".to_string(),
        score: 80,
    });
    state.store_reputation(Reputation {
        user_id: 1,
        subject: "science".to_string(),
        score: 75,
    });
    let result = state.get_reputation_with_history(1, &"math".to_string());
    assert!(result.is_ok());
    let (score, history) = result.unwrap();
    assert_eq!(score, 80);
    assert_eq!(history.user_id, 1);
}

#[test]
fn test_calculate_reputation_change() {
    let state = ContributorReputation::new();
    let change = state
        .calculate_reputation_change(1, &"math".to_string(), 1)
        .unwrap();
    assert_eq!(change, 0);
}

#[test]
fn test_calculate_reputation_change_delta() {
    let mut state = ContributorReputation::new();
    let user_id = registered_verified_credentialed(&mut state, "user");
    state
        .update_reputation(true, user_id, "math".to_string(), 70, 0)
        .unwrap();
    state
        .update_reputation(true, user_id, "math".to_string(), 90, 86400)
        .unwrap();
    let change = state
        .calculate_reputation_change(user_id, &"math".to_string(), 1)
        .unwrap();
    assert_eq!(change, 20);
    let clamped = state
        .calculate_reputation_change(user_id, &"math".to_string(), 5)
        .unwrap();
    assert_eq!(clamped, 20);
    state
        .update_reputation(true, user_id, "math".to_string(), 60, 2 * 86400)
        .unwrap();
    let drop = state
        .calculate_reputation_change(user_id, &"math".to_string(), 1)
        .unwrap();
    assert_eq!(drop, -30);
}

#[test]
fn test_calculate_reputation_change_single_entry() {
    let mut state = ContributorReputation::new();
    let user_id = registered_verified_credentialed(&mut state, "user");
    state
        .update_reputation(true, user_id, "math".to_string(), 70, 0)
        .unwrap();
    let change = state
        .calculate_reputation_change(user_id, &"math".to_string(), 1)
        .unwrap();
    assert_eq!(change, 0);
}

#[test]
fn test_reputation_trends() {
    let mut state = ContributorReputation::new();
    let _admin_id = state.initialize_user(true, "admin".to_string()).unwrap();
    let user_id = state.initialize_user(true, "user".to_string()).unwrap();
    state
        .verify_user(true, user_id, &"verified".to_string())
        .unwrap();
    state.mint_credential_token(true, user_id, 0).unwrap();
    let mut expertise_areas: StrMap<u32> = StrMap::new();
    expertise_areas.set("math".to_string(), 75);
    state
        .update_expertise_areas(true, user_id, expertise_areas)
        .unwrap();
    let mut now: u64 = 0;
    state
        .update_reputation(true, user_id, "math".to_string(), 75, now)
        .unwrap();
    now += 86400;
    state
        .update_reputation(true, user_id, "math".to_string(), 80, now)
        .unwrap();
    now += 86400;
    state
        .update_reputation(true, user_id, "math".to_string(), 85, now)
        .unwrap();
    let trends = state.get_reputation_trends(user_id, &"math".to_string(), 7, now);
    assert!(trends.len() > 0);
    let prediction = state
        .predict_reputation_development(user_id, &"math".to_string(), 30, now)
        .unwrap();
    assert!(prediction > 0);
    let expertise = state.get_expertise_areas(user_id).unwrap();
    assert!(expertise.len() > 0);
    let final_reputation = state
        .get_reputation(user_id, &"math".to_string())
        .unwrap();
    assert_eq!(final_reputation, 85);
}

#[test]
fn test_trends_window_filters_old_entries() {
    let mut state = ContributorReputation::new();
    let user_id = registered_verified_credentialed(&mut state, "user");
    state
        .update_reputation(true, user_id, "math".to_string(), 40, 0)
        .unwrap();
    let now: u64 = 10 * 86400;
    state
        .update_reputation(true, user_id, "math".to_string(), 50, now)
        .unwrap();
    let trends = state.get_reputation_trends(user_id, &"math".to_string(), 5, now);
    assert_eq!(trends.len(), 1);
    assert_eq!(trends[0].score, 50);
    assert_eq!(trends[0].timestamp, now);
    let wide = state.get_reputation_trends(user_id, &"math".to_string(), 30, now);
    assert_eq!(wide.len(), 2);
    assert_eq!(wide[0].score, 40);
    assert_eq!(wide[1].score, 50);
}

#[test]
fn test_predict_linear_projection() {
    let mut state = ContributorReputation::new();
    let user_id = registered_verified_credentialed(&mut state, "user");
    state
        .update_reputation(true, user_id, "math".to_string(), 75, 0)
        .unwrap();
    state
        .update_reputation(true, user_id, "math".to_string(), 80, 86400)
        .unwrap();
    state
        .update_reputation(true, user_id, "math".to_string(), 85, 2 * 86400)
        .unwrap();
    let prediction = state
        .predict_reputation_development(user_id, &"math".to_string(), 30, 2 * 86400)
        .unwrap();
    assert_eq!(prediction, 85 + (85 - 75) * 30 / 2);
}

#[test]
fn test_predict_declining_clamps_at_zero() {
    let mut state = ContributorReputation::new();
    let user_id = registered_verified_credentialed(&mut state, "user");
    state
        .update_reputation(true, user_id, "math".to_string(), 100, 0)
        .unwrap();
    state
        .update_reputation(true, user_id, "math".to_string(), 90, 2 * 86400)
        .unwrap();
    let prediction = state
        .predict_reputation_development(user_id, &"math".to_string(), 30, 2 * 86400)
        .unwrap();
    assert_eq!(prediction, 0);
}

#[test]
fn test_predict_single_point_returns_last_score() {
    let mut state = ContributorReputation::new();
    let user_id = registered_verified_credentialed(&mut state, "user");
    state
        .update_reputation(true, user_id, "math".to_string(), 55, 0)
        .unwrap();
    let prediction = state
        .predict_reputation_development(user_id, &"math".to_string(), 30, 0)
        .unwrap();
    assert_eq!(prediction, 55);
}

#[test]
fn test_predict_no_history_fails() {
    let state = ContributorReputation::new();
    let r = state.predict_reputation_development(1, &"math".to_string(), 30, 0);
    assert!(matches!(r, Err(Error::NotFound(EntityKind::Reputation))));
}
