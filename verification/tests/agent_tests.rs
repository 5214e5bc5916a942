use veritas_core::agent::{
    classify_goal, step_outcome, GoalOrientedAgent, GoalRequest, PageState, StepStatus,
    PAGE_STATE_COUNT,
};
use veritas_core::world::WorldModel;

#[test]
fn test_agent_planning() {
    let agent = GoalOrientedAgent::new();
    let req = GoalRequest { goal: "Verify purchase with 10% discount".to_string() };
    let result = agent.execute(&req);
    assert!(result.success);
    assert!(result.steps.len() >= 4);
    let has_discount = result.steps.iter().any(|s| s.action.contains("SAVE10"));
    assert!(has_discount);
}

#[test]
fn goal_classification_follows_the_keywords() {
    assert_eq!(classify_goal("Please LOG IN... login now"), PageState::Dashboard);
    assert_eq!(classify_goal("complete the Purchase"), PageState::Checkout);
    assert_eq!(classify_goal("go to checkout"), PageState::Checkout);
    assert_eq!(classify_goal("browse around"), PageState::ProductListing);
}

#[test]
fn shortest_path_to_checkout_has_three_steps() {
    let agent = GoalOrientedAgent::new();
    let path = agent.find_path(PageState::Home, &PageState::Checkout).unwrap();
    assert_eq!(path.len(), 3);
    assert_eq!(path[0].0, "click_product");
    assert_eq!(path[0].1, PageState::ProductDetail);
    assert_eq!(path[1].0, "add_to_cart");
    assert_eq!(path[1].1, PageState::Cart);
    assert_eq!(path[2].0, "checkout");
    assert_eq!(path[2].1, PageState::Checkout);
}

#[test]
fn shortest_path_to_dashboard_goes_through_login() {
    let agent = GoalOrientedAgent::new();
    let path = agent.find_path(PageState::Home, &PageState::Dashboard).unwrap();
    // Home -> Login -> Dashboard beats the four-step product route
    assert_eq!(path.len(), 2);
    assert_eq!(path[1].1, PageState::Dashboard);
}

#[test]
fn path_to_the_start_itself_is_empty() {
    let agent = GoalOrientedAgent::new();
    let path = agent.find_path(PageState::Home, &PageState::Home).unwrap();
    assert!(path.is_empty());
}

#[test]
fn unreachable_target_yields_one_failed_step_and_no_success() {
    // a world model whose cart has no checkout edge: Checkout is
    // unreachable from Home
    let mut m = WorldModel::with_states(PAGE_STATE_COUNT);
    m.add_edge(0, "click_product", 2);
    m.add_edge(2, "add_to_cart", 3);
    let agent = GoalOrientedAgent::with_model(m, PageState::Home);
    let result = agent.execute(&GoalRequest { goal: "finish the checkout".to_string() });
    assert!(!result.success);
    assert_eq!(result.steps.len(), 2);
    let failed: Vec<_> =
        result.steps.iter().filter(|s| s.status == StepStatus::Failed).collect();
    assert_eq!(failed.len(), 1);
    assert_eq!(failed[0].action, "Error");
}

#[test]
fn trace_success_means_every_step_completed() {
    let agent = GoalOrientedAgent::new();
    let ok = agent.execute(&GoalRequest { goal: "log in to my account".to_string() });
    assert!(ok.success);
    assert!(ok.steps.iter().all(|s| s.status == StepStatus::Completed));
    assert!(ok.steps.len() >= 1);

    let mut m = WorldModel::with_states(PAGE_STATE_COUNT);
    m.add_edge(0, "search", 1);
    let agent2 = GoalOrientedAgent::with_model(m, PageState::Home);
    let bad = agent2.execute(&GoalRequest { goal: "login".to_string() });
    assert!(!bad.success);
    assert!(!bad.steps.iter().all(|s| s.status == StepStatus::Completed));
}

#[test]
fn reachable_goal_records_one_step_per_planned_action() {
    let agent = GoalOrientedAgent::new();
    let result = agent.execute(&GoalRequest { goal: "just browsing".to_string() });
    // start step plus the single planned "search" action
    assert!(result.success);
    assert_eq!(result.steps.len(), 2);
    assert_eq!(result.steps[0].action, "Start Session");
    assert_eq!(result.steps[1].action, "search");
}

#[test]
fn step_outcomes_follow_the_gating_rules() {
    assert_eq!(step_outcome(false, true, false), StepStatus::Pending);
    assert_eq!(step_outcome(true, true, false), StepStatus::Completed);
    assert_eq!(step_outcome(true, false, true), StepStatus::Completed);
    assert_eq!(step_outcome(true, false, false), StepStatus::Failed);
}

#[test]
fn world_model_bfs_reports_unreachable_targets() {
    let mut m = WorldModel::with_states(3);
    m.add_edge(0, "go", 1);
    m.add_edge(1, "back", 0);
    assert!(m.find_path(0, 1).is_some());
    assert!(m.find_path(0, 2).is_none());
    let cycle_path = m.find_path(0, 0).unwrap();
    assert!(cycle_path.is_empty());
}

#[test]
fn world_model_bfs_finds_the_minimum_edge_count() {
    // two routes to state 3: a direct edge and a two-step detour
    let mut m = WorldModel::with_states(4);
    m.add_edge(0, "detour_a", 1);
    m.add_edge(1, "detour_b", 3);
    m.add_edge(0, "direct", 3);
    let path = m.find_path(0, 3).unwrap();
    assert_eq!(path.len(), 1);
    assert_eq!(path[0].action, "direct");
}
