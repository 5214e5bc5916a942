use veritas_core::agent::{GoalOrientedAgent, GoalRequest};
use veritas_core::compliance::{ComplianceMonitor, GDPRGuard};
use veritas_core::meta_logic::{MetaLogicEngine, TruthValue};
use veritas_core::security::{AuditLogger, Role, UserContext, RBAC};
use veritas_core::swarm::{DistributedSwarm, SwarmRequest};
use veritas_core::traffic::{Tier, TieredRateLimiter};

#[test]
fn test_initialization() {
    let engine = MetaLogicEngine::new();
    assert!(engine.systems.contains_key("CLASSICAL"));
    assert!(engine.systems.contains_key("PARACONSISTENT"));
}

#[test]
fn test_classical_query() {
    let mut engine = MetaLogicEngine::new();
    let result = engine.query("Is A = A?");
    assert_eq!(result.answer, TruthValue::TRUE);
}

#[test]
fn test_paradox() {
    let mut engine = MetaLogicEngine::new();
    let result = engine.query("This statement is false");
    assert_eq!(result.answer, TruthValue::IMAGINARY);
    assert!(result.golden_key_used);
}

#[test]
fn each_query_appends_one_dialectic_triad() {
    let mut engine = MetaLogicEngine::new();
    assert_eq!(engine.dialectic_history.len(), 0);
    engine.query("Is A = A?");
    assert_eq!(engine.dialectic_history.len(), 1);
    engine.query("This statement is false");
    assert_eq!(engine.dialectic_history.len(), 2);
}

#[test]
fn execute_assigns_contiguous_step_ids() {
    let agent = GoalOrientedAgent::new();
    let result = agent.execute(&GoalRequest { goal: "Verify purchase with 10% discount".to_string() });
    for (i, step) in result.steps.iter().enumerate() {
        assert_eq!(step.step_id as usize, i + 1);
    }
}

#[test]
fn undecidable_questions_fall_to_the_tetralemma() {
    let mut engine = MetaLogicEngine::new();
    // classical logic balks at the negation, no incompleteness limit
    // appears, and the tetralemma's third corner answers
    let result = engine.query("it is and it is not raining");
    assert_eq!(result.answer, TruthValue::BOTH);
    assert!(!result.golden_key_used);
    assert!(result.godel_limit.is_none());
}

#[test]
fn negation_swaps_the_square_of_values() {
    let engine = MetaLogicEngine::new();
    assert_eq!(engine.negate_value(&TruthValue::TRUE), TruthValue::FALSE);
    assert_eq!(engine.negate_value(&TruthValue::BOTH), TruthValue::NEITHER);
    assert_eq!(engine.negate_value(&TruthValue::IMAGINARY), TruthValue::UNDEFINED);
}

#[test]
fn test_rbac_admin_override() {
    let rbac = RBAC::new();
    let user = UserContext {
        user_id: "admin1".to_string(),
        roles: vec![Role::Admin],
        auth_token: "valid".to_string(),
    };
    assert!(rbac.authorize(&user, Role::Auditor));
}

#[test]
fn rbac_refuses_a_role_the_caller_lacks() {
    let rbac = RBAC::new();
    let user = UserContext {
        user_id: "viewer9".to_string(),
        roles: vec![Role::Viewer],
        auth_token: "valid".to_string(),
    };
    assert!(rbac.authorize(&user, Role::Viewer));
    assert!(!rbac.authorize(&user, Role::Auditor));
}

#[test]
fn test_audit_log_format() {
    let logger = AuditLogger::new();
    let user = UserContext {
        user_id: "viewer1".to_string(),
        roles: vec![Role::Viewer],
        auth_token: "valid".to_string(),
    };
    let entry = logger.log("AccessDashboard", &user);
    assert!(entry.contains("[ENCRYPTED-AES256]"));
    assert!(entry.contains("viewer1"));
}

#[test]
fn audit_signature_depends_on_the_message() {
    let logger = AuditLogger::new();
    let a = logger.sign("AccessDashboard");
    let b = logger.sign("AccessDashboard");
    let c = logger.sign("DeleteEverything");
    assert_eq!(a, "deadbb35");
    assert_eq!(a, b);
    assert_ne!(a, c);
}

#[test]
fn test_pii_sanitization() {
    let guard = GDPRGuard::new();
    let input = "user@example.com";
    let clean = guard.sanitize(input);
    assert!(clean.contains("REDACTED"));
}

#[test]
fn sanitization_replaces_every_marker_and_keeps_the_rest() {
    let guard = GDPRGuard::new();
    assert_eq!(guard.sanitize("a@b@c"), "a[REDACTED_EMAIL]b[REDACTED_EMAIL]c");
    assert_eq!(guard.sanitize("no personal data"), "no personal data");
}

#[test]
fn compliance_monitor_reports_green() {
    let monitor = ComplianceMonitor::new();
    assert!(monitor.gdpr_compliant);
    assert!(monitor.soc2_ready);
    assert_eq!(monitor.check_status(), "ALL_SYSTEMS_COMPLIANT");
}

#[test]
fn test_swarm() {
    let mut swarm = DistributedSwarm::new();
    swarm.pre_warm();
    assert_eq!(swarm.warm_pool.available_agents, 50);
    assert_eq!(swarm.warm_pool.status, "READY");

    let req = SwarmRequest { agent_count: 100, regions: vec!["us-west".to_string()] };
    let status = swarm.launch(&req);
    assert_eq!(status.active_agents, 100);
    assert!(status.region_health.iter().any(|(region, _)| region == "us-west"));
}

#[test]
fn test_replenish() {
    let mut swarm = DistributedSwarm::new();
    swarm.pre_warm();
    swarm.kill_agents(40);  // leaves 10, below the threshold of 20
    assert_eq!(swarm.warm_pool.available_agents, 50);  // healed back to full
    assert_eq!(swarm.warm_pool.status, "REPLENISHED");
}

#[test]
fn killing_few_agents_does_not_replenish() {
    let mut swarm = DistributedSwarm::new();
    swarm.pre_warm();
    let added = swarm.kill_agents(10);  // leaves 40, above the threshold
    assert_eq!(added, 0);
    assert_eq!(swarm.warm_pool.available_agents, 40);
}

#[test]
fn launch_throughput_scales_with_the_fleet() {
    let swarm = DistributedSwarm::new();
    let status = swarm.launch(&SwarmRequest { agent_count: 1000, regions: vec![] });
    assert!(status.throughput_tps_milli >= 1_500_000);
    assert!(status.throughput_tps_milli < 5_000_000);
    assert_eq!(status.completed_tasks, 0);
}

#[test]
fn rate_limiter_serves_strictly_by_tier() {
    let mut limiter = TieredRateLimiter::new(10);
    limiter.enqueue("starter-1".to_string(), Tier::Starter);
    limiter.enqueue("sov-1".to_string(), Tier::Sovereign);
    limiter.enqueue("ent-1".to_string(), Tier::Enterprise);
    limiter.enqueue("sov-2".to_string(), Tier::Sovereign);
    assert_eq!(limiter.next(), Some("sov-1".to_string()));
    assert_eq!(limiter.next(), Some("sov-2".to_string()));
    assert_eq!(limiter.next(), Some("ent-1".to_string()));
    assert_eq!(limiter.next(), Some("starter-1".to_string()));
    assert_eq!(limiter.next(), None);
}

#[test]
fn rate_limiter_respects_the_concurrency_cap() {
    let mut limiter = TieredRateLimiter::new(1);
    limiter.enqueue("a".to_string(), Tier::Sovereign);
    limiter.enqueue("b".to_string(), Tier::Sovereign);
    assert_eq!(limiter.next(), Some("a".to_string()));
    // the grid is saturated until a slot is released
    assert_eq!(limiter.next(), None);
    limiter.release();
    assert_eq!(limiter.next(), Some("b".to_string()));
}
