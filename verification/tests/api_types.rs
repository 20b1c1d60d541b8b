use tee_guardian::api::{HealthResponse, NodeStatus};
use tee_guardian::coordinator::CoordinatorState;

#[test]
fn test_node_status_display() {
    assert_eq!(NodeStatus::Bootstrapping.to_string(), "BOOTSTRAPPING");
    assert_eq!(NodeStatus::Learner.to_string(), "LEARNER");
    assert_eq!(NodeStatus::Follower.to_string(), "FOLLOWER");
    assert_eq!(NodeStatus::Candidate.to_string(), "CANDIDATE");
    assert_eq!(NodeStatus::Leader.to_string(), "LEADER");
}

#[test]
fn test_node_status_methods() {
    assert!(NodeStatus::Leader.is_leader());
    assert!(!NodeStatus::Follower.is_leader());

    assert!(NodeStatus::Bootstrapping.is_bootstrapping());
    assert!(!NodeStatus::Leader.is_bootstrapping());

    assert!(NodeStatus::Leader.in_cluster());
    assert!(NodeStatus::Follower.in_cluster());
    assert!(NodeStatus::Learner.in_cluster());
    assert!(!NodeStatus::Bootstrapping.in_cluster());
}

#[test]
fn candidate_is_in_cluster_and_default_is_bootstrapping() {
    assert!(NodeStatus::Candidate.in_cluster());
    assert_eq!(NodeStatus::default(), NodeStatus::Bootstrapping);
}

#[test]
fn test_health_response_is_leader() {
    let health = HealthResponse {
        node_id: 123,
        status: NodeStatus::Leader,
        term: 5,
        cluster_size: 3,
        trusted_peers: vec![456, 789],
    };
    assert!(health.is_leader());
    assert!(!health.is_bootstrapping());
    assert!(health.in_cluster());
}

#[test]
fn test_health_response_is_bootstrapping() {
    let health = HealthResponse {
        node_id: 123,
        status: NodeStatus::Bootstrapping,
        term: 0,
        cluster_size: 0,
        trusted_peers: vec![456, 789],
    };
    assert!(!health.is_leader());
    assert!(health.is_bootstrapping());
    assert!(!health.in_cluster());
}

#[test]
fn test_health_response_ready_for_bootstrap() {
    let ready = HealthResponse {
        node_id: 123,
        status: NodeStatus::Bootstrapping,
        term: 0,
        cluster_size: 0,
        trusted_peers: vec![456, 789],
    };
    assert!(ready.ready_for_bootstrap(2));
    assert!(!ready.ready_for_bootstrap(3));

    let in_cluster = HealthResponse {
        node_id: 123,
        status: NodeStatus::Follower,
        term: 5,
        cluster_size: 3,
        trusted_peers: vec![456, 789],
    };
    assert!(!in_cluster.ready_for_bootstrap(2));

    let not_enough = HealthResponse {
        node_id: 123,
        status: NodeStatus::Bootstrapping,
        term: 0,
        cluster_size: 0,
        trusted_peers: vec![456],
    };
    assert!(!not_enough.ready_for_bootstrap(2));
}

#[test]
fn test_health_response_is_mutually_ready() {
    let health = HealthResponse {
        node_id: 123,
        status: NodeStatus::Bootstrapping,
        term: 0,
        cluster_size: 0,
        trusted_peers: vec![456, 789],
    };

    assert!(health.is_mutually_ready(456, 2));
    assert!(!health.is_mutually_ready(999, 2));
    assert!(!health.is_mutually_ready(456, 3));
}

#[test]
fn bootstrapping_with_cluster_size_is_not_ready() {
    let h = HealthResponse {
        node_id: 1,
        status: NodeStatus::Bootstrapping,
        term: 0,
        cluster_size: 1,
        trusted_peers: vec![2, 3],
    };
    assert!(!h.ready_for_bootstrap(2));
    assert!(!h.is_mutually_ready(2, 2));
}

#[test]
fn test_coordinator_state_display() {
    assert_eq!(CoordinatorState::WaitingForPeers.to_string(), "WAITING_FOR_PEERS");
    assert_eq!(CoordinatorState::CheckingCluster.to_string(), "CHECKING_CLUSTER");
    assert_eq!(CoordinatorState::CoordinatingBootstrap.to_string(), "COORDINATING_BOOTSTRAP");
    assert_eq!(CoordinatorState::Bootstrapping.to_string(), "BOOTSTRAPPING");
    assert_eq!(CoordinatorState::WaitingForBootstrap { deadline: 0 }.to_string(), "WAITING_FOR_BOOTSTRAP");
    assert_eq!(CoordinatorState::Joining { deadline: 0 }.to_string(), "JOINING");
    assert_eq!(CoordinatorState::ClusterActive.to_string(), "CLUSTER_ACTIVE");
}

#[test]
fn test_health_response_helpers() {
    let bootstrapping = HealthResponse {
        node_id: 123,
        status: NodeStatus::Bootstrapping,
        term: 0,
        cluster_size: 0,
        trusted_peers: vec![456, 789],
    };

    assert!(bootstrapping.is_bootstrapping());
    assert!(!bootstrapping.in_cluster());
    assert!(bootstrapping.ready_for_bootstrap(2));
    assert!(bootstrapping.is_mutually_ready(456, 2));
    assert!(!bootstrapping.is_mutually_ready(999, 2));

    let leader = HealthResponse {
        node_id: 123,
        status: NodeStatus::Leader,
        term: 5,
        cluster_size: 3,
        trusted_peers: vec![456, 789],
    };

    assert!(leader.is_leader());
    assert!(leader.in_cluster());
    assert!(!leader.ready_for_bootstrap(2));
}
