use contributor_reputation::state::ContributorReputation;
use contributor_reputation::strmap::StrMap;

fn registered_verified_credentialed(state: &mut ContributorReputation, name: &str) -> u64 {
    let user_id = state.initialize_user(true, name.to_string()).unwrap();
    state
        .verify_user(true, user_id, &"verified".to_string())
        .unwrap();
    state.mint_credential_token(true, user_id, 0).unwrap();
    user_id
}

#[test]
fn test_analytics_generation() {
    let mut state = ContributorReputation::new();
    let _admin_id = state.initialize_user(true, "admin".to_string()).unwrap();
    let user_id = state.initialize_user(true, "user".to_string()).unwrap();
    state
        .verify_user(true, user_id, &"verified".to_string())
        .unwrap();
    state.mint_credential_token(true, user_id, 0).unwrap();
    let mut expertise_areas: StrMap<u32> = StrMap::new();
    expertise_areas.set("math".to_string(), 85);
    state
        .update_expertise_areas(true, user_id, expertise_areas)
        .unwrap();
    state
        .update_reputation(true, user_id, "math".to_string(), 85, 0)
        .unwrap();
    let analytics = state.generate_user_analytics(user_id, 30, 0).unwrap();
    assert!(analytics.data.len() > 0);
    let platform_analytics = state.calculate_platform_analytics(0);
    assert!(platform_analytics.data.len() > 0);
}

#[test]
fn test_domain_expertise_mapping() {
    let mut state = ContributorReputation::new();
    let _admin_id = state.initialize_user(true, "admin".to_string()).unwrap();
    let user_id = state.initialize_user(true, "user".to_string()).unwrap();
    state
        .verify_user(true, user_id, &"verified".to_string())
        .unwrap();
    state.mint_credential_token(true, user_id, 0).unwrap();
    let mut expertise_areas: StrMap<u32> = StrMap::new();
    expertise_areas.set("math".to_string(), 85);
    expertise_areas.set("science".to_string(), 90);
    state
        .update_expertise_areas(true, user_id, expertise_areas)
        .unwrap();
    state
        .update_reputation(true, user_id, "math".to_string(), 85, 0)
        .unwrap();
    state
        .update_reputation(true, user_id, "science".to_string(), 90, 0)
        .unwrap();
    let domain_expertise = state.generate_domain_expertise(&"math".to_string());
    assert!(domain_expertise.total_contributors >= 1);
    assert!(domain_expertise.average_score > 0);
}

#[test]
fn test_platform_analytics() {
    let mut state = ContributorReputation::new();
    let _admin_id = state.initialize_user(true, "admin".to_string()).unwrap();
    let user1_id = state.initialize_user(true, "user1".to_string()).unwrap();
    let user2_id = state.initialize_user(true, "user2".to_string()).unwrap();
    state
        .verify_user(true, user1_id, &"verified".to_string())
        .unwrap();
    state
        .verify_user(true, user2_id, &"verified".to_string())
        .unwrap();
    state.mint_credential_token(true, user1_id, 0).unwrap();
    state.mint_credential_token(true, user2_id, 0).unwrap();
    state
        .update_reputation(true, user1_id, "math".to_string(), 85, 0)
        .unwrap();
    state
        .update_reputation(true, user2_id, "science".to_string(), 90, 0)
        .unwrap();
    state
        .update_reputation(true, user2_id, "math".to_string(), 80, 0)
        .unwrap();
    let platform_analytics = state.calculate_platform_analytics(0);
    assert!(platform_analytics.data.len() > 0);
    let mut user1_expertise: StrMap<u32> = StrMap::new();
    user1_expertise.set("math".to_string(), 85);
    state
        .update_expertise_areas(true, user1_id, user1_expertise)
        .unwrap();
    let mut user2_expertise: StrMap<u32> = StrMap::new();
    user2_expertise.set("science".to_string(), 90);
    user2_expertise.set("math".to_string(), 80);
    state
        .update_expertise_areas(true, user2_id, user2_expertise)
        .unwrap();
    let benchmark = state
        .generate_peer_benchmark(user1_id, &"math".to_string())
        .unwrap();
    assert!(benchmark.rank > 0);
}

#[test]
fn test_user_analytics_exact_values() {
    let mut state = ContributorReputation::new();
    let user_id = registered_verified_credentialed(&mut state, "user");
    state
        .update_reputation(true, user_id, "math".to_string(), 80, 0)
        .unwrap();
    state
        .update_reputation(true, user_id, "science".to_string(), 90, 86400)
        .unwrap();
    let a = state.generate_user_analytics(user_id, 30, 86400).unwrap();
    assert_eq!(a.key, format!("user_{}", user_id));
    assert_eq!(a.last_updated, 86400);
    assert_eq!(*a.data.get(&"total_updates".to_string()).unwrap(), 2);
    assert_eq!(*a.data.get(&"average_score".to_string()).unwrap(), 85);
    assert_eq!(*a.trends.get(&"score_trend".to_string()).unwrap(), 10);
}

#[test]
fn test_platform_analytics_exact_values() {
    let mut state = ContributorReputation::new();
    let user1_id = registered_verified_credentialed(&mut state, "user1");
    let user2_id = registered_verified_credentialed(&mut state, "user2");
    state
        .update_reputation(true, user1_id, "math".to_string(), 85, 0)
        .unwrap();
    state
        .update_reputation(true, user2_id, "science".to_string(), 90, 0)
        .unwrap();
    state
        .update_reputation(true, user2_id, "math".to_string(), 80, 0)
        .unwrap();
    let a = state.calculate_platform_analytics(50);
    assert_eq!(a.key, "platform".to_string());
    assert_eq!(a.last_updated, 50);
    assert_eq!(*a.data.get(&"total_users".to_string()).unwrap(), 2);
    assert_eq!(*a.data.get(&"total_updates".to_string()).unwrap(), 3);
    assert_eq!(*a.data.get(&"average_score".to_string()).unwrap(), 85);
    assert_eq!(a.trends.len(), 0);
}

#[test]
fn test_domain_expertise_exact_average() {
    let mut state = ContributorReputation::new();
    let user1_id = registered_verified_credentialed(&mut state, "user1");
    let user2_id = registered_verified_credentialed(&mut state, "user2");
    state
        .update_reputation(true, user1_id, "math".to_string(), 80, 0)
        .unwrap();
    state
        .update_reputation(true, user2_id, "math".to_string(), 90, 0)
        .unwrap();
    let d = state.generate_domain_expertise(&"math".to_string());
    assert_eq!(d.subject, "math".to_string());
    assert_eq!(d.total_contributors, 2);
    assert_eq!(d.average_score, 85);
    let empty = state.generate_domain_expertise(&"poetry".to_string());
    assert_eq!(empty.total_contributors, 0);
    assert_eq!(empty.average_score, 0);
}

#[test]
fn test_peer_benchmark_ranks_and_ties() {
    let mut state = ContributorReputation::new();
    let user1_id = registered_verified_credentialed(&mut state, "user1");
    let user2_id = registered_verified_credentialed(&mut state, "user2");
    let user3_id = registered_verified_credentialed(&mut state, "user3");
    state
        .update_reputation(true, user1_id, "math".to_string(), 85, 0)
        .unwrap();
    state
        .update_reputation(true, user2_id, "math".to_string(), 85, 0)
        .unwrap();
    state
        .update_reputation(true, user3_id, "math".to_string(), 90, 0)
        .unwrap();
    let b3 = state
        .generate_peer_benchmark(user3_id, &"math".to_string())
        .unwrap();
    assert_eq!(b3.rank, 1);
    assert_eq!(b3.total_peers, 3);
    let b1 = state
        .generate_peer_benchmark(user1_id, &"math".to_string())
        .unwrap();
    assert_eq!(b1.rank, 2);
    assert_eq!(b1.score, 85);
    let b2 = state
        .generate_peer_benchmark(user2_id, &"math".to_string())
        .unwrap();
    assert_eq!(b2.rank, 3);
}
