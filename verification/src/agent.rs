use vstd::prelude::*;
use crate::strutil::{contains_seq, contains_substring, lower_chars, to_ascii_lower};
use crate::world::{is_path, PathStep, WorldModel};

verus! {

/// The named application states of the default world model.
#[derive(Clone, Copy, Debug, PartialEq, Eq, Structural)]
pub enum PageState {
    Home,
    ProductListing,
    ProductDetail,
    Cart,
    Checkout,
    Login,
    Dashboard,
}

/// Number of states in the default world model.
pub const PAGE_STATE_COUNT: usize = 7;

impl PageState {
    /// The state's index in the world model.
    pub open spec fn spec_index(self) -> int {
        match self {
            PageState::Home => 0,
            PageState::ProductListing => 1,
            PageState::ProductDetail => 2,
            PageState::Cart => 3,
            PageState::Checkout => 4,
            PageState::Login => 5,
            PageState::Dashboard => 6,
        }
    }

    /// The state's index in the world model.
    pub fn index(self) -> (r: usize)
        ensures
            r == self.spec_index(),
            r < PAGE_STATE_COUNT,
    {
        match self {
            PageState::Home => 0,
            PageState::ProductListing => 1,
            PageState::ProductDetail => 2,
            PageState::Cart => 3,
            PageState::Checkout => 4,
            PageState::Login => 5,
            PageState::Dashboard => 6,
        }
    }

    /// The state with a given index.
    pub fn of_index(i: usize) -> (r: PageState)
        requires
            i < PAGE_STATE_COUNT,
        ensures
            r.spec_index() == i,
    {
        if i == 0 {
            PageState::Home
        } else if i == 1 {
            PageState::ProductListing
        } else if i == 2 {
            PageState::ProductDetail
        } else if i == 3 {
            PageState::Cart
        } else if i == 4 {
            PageState::Checkout
        } else if i == 5 {
            PageState::Login
        } else {
            PageState::Dashboard
        }
    }

    /// The state's display name.
    pub fn name(self) -> (r: String)
        ensures
            self is Home ==> r@ == "Home"@,
            self is ProductListing ==> r@ == "ProductListing"@,
            self is ProductDetail ==> r@ == "ProductDetail"@,
            self is Cart ==> r@ == "Cart"@,
            self is Checkout ==> r@ == "Checkout"@,
            self is Login ==> r@ == "Login"@,
            self is Dashboard ==> r@ == "Dashboard"@,
    {
        match self {
            PageState::Home => String::from_str("Home"),
            PageState::ProductListing => String::from_str("ProductListing"),
            PageState::ProductDetail => String::from_str("ProductDetail"),
            PageState::Cart => String::from_str("Cart"),
            PageState::Checkout => String::from_str("Checkout"),
            PageState::Login => String::from_str("Login"),
            PageState::Dashboard => String::from_str("Dashboard"),
        }
    }
}

/// A goal execution request.
#[derive(Debug)]
pub struct GoalRequest {
    pub goal: String,
}

/// Outcome of one execution step.
#[derive(Clone, Copy, Debug, PartialEq, Eq, Structural)]
pub enum StepStatus {
    Pending,
    Completed,
    Failed,
}

/// One entry of the execution trace, appended in order and never
/// rewritten.
#[derive(Debug)]
pub struct AgentStep {
    pub step_id: u32,
    pub action: String,
    pub observation: String,
    pub reasoning: String,
    pub duration_ms: u64,
    pub status: StepStatus,
}

/// The full outcome of a goal execution: the trace, an overall
/// success flag, and bookkeeping.
#[derive(Debug)]
pub struct GoalResult {
    pub success: bool,
    pub goal_id: String,
    pub steps: Vec<AgentStep>,
    pub audit_log_url: String,
    pub total_duration_ms: u64,
}

/// Relies on uuid's `Uuid::new_v4`: a freshly generated random
/// identifier, rendered in its canonical text form. Nothing is
/// promised of the value.
#[verifier::external_body]
fn new_goal_id() -> String {
    uuid::Uuid::new_v4().to_string()
}

/// Relies on rand's `Rng::gen_range`: the simulated step duration is
/// drawn from [100, 500).
#[verifier::external_body]
fn random_duration_ms() -> (r: u64)
    ensures
        100 <= r < 500,
{
    rand::Rng::gen_range(&mut rand::thread_rng(), 100u64..500u64)
}

/// The target state a goal classifies to: login goals aim for the
/// dashboard, purchase and checkout goals aim for checkout, anything
/// else for the product listing.
pub open spec fn classify_spec(goal: Seq<char>) -> PageState {
    let lower = lower_chars(goal);
    if contains_seq(lower, "login"@) {
        PageState::Dashboard
    } else if contains_seq(lower, "purchase"@) || contains_seq(lower, "checkout"@) {
        PageState::Checkout
    } else {
        PageState::ProductListing
    }
}

/// Classifies a goal string into its target state by keyword, case
/// insensitively. A pluggable policy: the rest of the agent only
/// needs some target state.
pub fn classify_goal(goal: &str) -> (r: PageState)
    ensures
        r == classify_spec(goal@),
{
    let lower = to_ascii_lower(goal);
    if contains_substring(lower.as_str(), "login") {
        PageState::Dashboard
    } else if contains_substring(lower.as_str(), "purchase") || contains_substring(
        lower.as_str(),
        "checkout",
    ) {
        PageState::Checkout
    } else {
        PageState::ProductListing
    }
}

/// The states a plan of action pairs passes through, as indices.
pub open spec fn plan_states(plan: Seq<(String, PageState)>) -> Seq<int> {
    Seq::new(plan.len(), |k: int| plan[k].1.spec_index())
}

/// How many steps of a plan land on the checkout page.
pub open spec fn checkout_entries(plan: Seq<(String, PageState)>) -> int
    decreases plan.len(),
{
    if plan.len() == 0 {
        0
    } else {
        checkout_entries(plan.drop_last()) + (if plan.last().1 is Checkout {
            1int
        } else {
            0int
        })
    }
}

/// The goal asks for a discount to be applied.
pub open spec fn wants_discount_spec(goal: Seq<char>) -> bool {
    contains_seq(lower_chars(goal), "discount"@)
}

/// Some walk of the model leads from `start` to `target`.
pub open spec fn spec_reachable(g: Seq<Seq<int>>, start: int, target: int) -> bool {
    exists|q: Seq<int>| #[trigger] is_path(g, start, q, target)
}

/// The status an execution step earns from one attempt: wait while
/// the page is unstable, complete once the target was resolved
/// (directly or by healing), and fail when even healing found
/// nothing.
pub fn step_outcome(observer_stable: bool, locate_found: bool, healed: bool) -> (r: StepStatus)
    ensures
        r == (if !observer_stable {
            StepStatus::Pending
        } else if locate_found || healed {
            StepStatus::Completed
        } else {
            StepStatus::Failed
        }),
{
    if !observer_stable {
        StepStatus::Pending
    } else if locate_found || healed {
        StepStatus::Completed
    } else {
        StepStatus::Failed
    }
}

/// Sequences multi-step goals: classifies the goal, plans a shortest
/// action path through the world model, and records every attempted
/// action in an append-only trace.
pub struct GoalOrientedAgent {
    pub world_model: WorldModel,
    pub start_state: PageState,
}

impl GoalOrientedAgent {
    /// The agent is usable: its model is well formed and covers every
    /// named state.
    pub open spec fn wf(self) -> bool {
        &&& self.world_model.wf()
        &&& self.world_model.n() == PAGE_STATE_COUNT
    }

    /// The default agent: the standard storefront world model,
    /// starting at the home page. The model holds exactly the
    /// thirteen transitions stated here and never changes afterwards.
    pub fn new() -> (r: GoalOrientedAgent)
        ensures
            r.wf(),
            r.start_state == PageState::Home,
            r.world_model.edges@[0]@.len() == 3,
            r.world_model.edges@[1]@.len() == 2,
            r.world_model.edges@[2]@.len() == 2,
            r.world_model.edges@[3]@.len() == 2,
            r.world_model.edges@[4]@.len() == 2,
            r.world_model.edges@[5]@.len() == 1,
            r.world_model.edges@[6]@.len() == 1,
            r.world_model.has_labeled_edge(0, "click_product"@, 2),
            r.world_model.has_labeled_edge(0, "click_login"@, 5),
            r.world_model.has_labeled_edge(0, "search"@, 1),
            r.world_model.has_labeled_edge(1, "click_product"@, 2),
            r.world_model.has_labeled_edge(1, "filter"@, 1),
            r.world_model.has_labeled_edge(2, "add_to_cart"@, 3),
            r.world_model.has_labeled_edge(2, "back"@, 1),
            r.world_model.has_labeled_edge(3, "checkout"@, 4),
            r.world_model.has_labeled_edge(3, "remove_item"@, 3),
            r.world_model.has_labeled_edge(4, "apply_discount"@, 4),
            r.world_model.has_labeled_edge(4, "complete_purchase"@, 6),
            r.world_model.has_labeled_edge(5, "submit_credentials"@, 6),
            r.world_model.has_labeled_edge(6, "logout"@, 0),
    {
        let mut m = WorldModel::with_states(PAGE_STATE_COUNT);
        m.add_edge(0, "click_product", 2);
        m.add_edge(0, "click_login", 5);
        m.add_edge(0, "search", 1);
        m.add_edge(1, "click_product", 2);
        m.add_edge(1, "filter", 1);
        m.add_edge(2, "add_to_cart", 3);
        m.add_edge(2, "back", 1);
        m.add_edge(3, "checkout", 4);
        m.add_edge(3, "remove_item", 3);
        m.add_edge(4, "apply_discount", 4);
        m.add_edge(4, "complete_purchase", 6);
        m.add_edge(5, "submit_credentials", 6);
        m.add_edge(6, "logout", 0);
        GoalOrientedAgent { world_model: m, start_state: PageState::Home }
    }

    /// An agent over a caller-built world model.
    pub fn with_model(world_model: WorldModel, start_state: PageState) -> (r: GoalOrientedAgent)
        requires
            world_model.wf(),
            world_model.n() == PAGE_STATE_COUNT,
        ensures
            r.wf(),
            r.world_model == world_model,
            r.start_state == start_state,
    {
        GoalOrientedAgent { world_model, start_state }
    }

    /// Plans a shortest action path between two named states: each
    /// returned pair is an action and the state it reaches, following
    /// labelled edges of the model; no walk of the model is shorter,
    /// and `None` means the target is unreachable.
    pub fn find_path(&self, start: PageState, target: &PageState) -> (r: Option<
        Vec<(String, PageState)>,
    >)
        requires
            self.wf(),
        ensures
            (r is Some) == spec_reachable(
                self.world_model.targets(),
                start.spec_index(),
                target.spec_index(),
            ),
            r matches Some(p) ==> {
                &&& p@.len() < PAGE_STATE_COUNT
                &&& is_path(
                    self.world_model.targets(),
                    start.spec_index(),
                    plan_states(p@),
                    target.spec_index(),
                )
                &&& forall|k: int|
                    0 <= k < p@.len() ==> self.world_model.has_labeled_edge(
                        if k == 0 { start.spec_index() } else { p@[k - 1].1.spec_index() },
                        (#[trigger] p@[k]).0@,
                        p@[k].1.spec_index(),
                    )
                &&& (p@.len() == 0 ==> start == *target)
                &&& (p@.len() > 0 ==> p@.last().1 == *target)
                &&& forall|q: Seq<int>|
                    is_path(
                        self.world_model.targets(),
                        start.spec_index(),
                        q,
                        target.spec_index(),
                    ) ==> q.len() >= p@.len()
            },
    {
        let si = start.index();
        let ti = target.index();
        let ghost g = self.world_model.targets();
        match self.world_model.find_path(si, ti) {
            Some(path) => {
                proof {
                    assert(spec_reachable(g, si as int, ti as int)) by {
                        assert(is_path(g, si as int, WorldModel::states_of(path@), ti as int));
                    }
                }
                let mut out: Vec<(String, PageState)> = Vec::new();
                let mut k: usize = 0;
                while k < path.len()
                    invariant
                        self.wf(),
                        g == self.world_model.targets(),
                        k <= path@.len(),
                        out@.len() == k,
                        si == start.spec_index(),
                        self.world_model.labeled_path_ok(si as int, path@),
                        forall|m: int|
                            0 <= m < path@.len() ==> (#[trigger] path@[m]).state
                                < PAGE_STATE_COUNT,
                        forall|m: int|
                            0 <= m < k ==> (#[trigger] out@[m]).0@ == path@[m].action@
                                && out@[m].1.spec_index() == path@[m].state as int,
                    decreases path@.len() - k,
                {
                    proof {
                        assert(self.world_model.has_labeled_edge(
                            if k == 0 { si as int } else { path@[k - 1].state as int },
                            path@[k as int].action@,
                            path@[k as int].state as int,
                        ));
                    }
                    let st = PageState::of_index(path[k].state);
                    out.push((path[k].action.clone(), st));
                    k = k + 1;
                }
                proof {
                    assert(plan_states(out@) =~= WorldModel::states_of(path@));
                    if path@.len() > 0 {
                        assert(out@.last().1.spec_index() == path@.last().state as int);
                        assert(out@.last().1.spec_index() == ti as int);
                        assert(out@.last().1 == *target) by {
                            let s = out@.last().1;
                            assert(s.spec_index() == target.spec_index());
                        }
                    }
                    assert forall|k2: int| 0 <= k2 < out@.len() implies self
                        .world_model
                        .has_labeled_edge(
                        if k2 == 0 { start.spec_index() } else { out@[k2 - 1].1.spec_index() },
                        (#[trigger] out@[k2]).0@,
                        out@[k2].1.spec_index(),
                    ) by {
                        assert(self.world_model.has_labeled_edge(
                            if k2 == 0 { si as int } else { path@[k2 - 1].state as int },
                            path@[k2].action@,
                            path@[k2].state as int,
                        ));
                    }
                }
                Some(out)
            },
            None => None,
        }
    }

    /// Executes a goal: classifies it, plans the shortest path, and
    /// synthesises the execution trace.
    ///
    /// The trace opens with a session-start step; a reachable target
    /// yields one completed step per planned action (plus a discount
    /// entry when the goal asks for one at checkout), an unreachable
    /// target yields exactly one failed step and no silent success.
    /// The overall flag is true exactly when every step completed,
    /// which happens exactly when the target was reachable.
    #[verifier::rlimit(100)]
    pub fn execute(&self, request: &GoalRequest) -> (r: GoalResult)
        requires
            self.wf(),
        ensures
            r.success == spec_reachable(
                self.world_model.targets(),
                self.start_state.spec_index(),
                classify_spec(request.goal@).spec_index(),
            ),
            r.success == (forall|i: int|
                0 <= i < r.steps@.len() ==> (#[trigger] r.steps@[i]).status is Completed),
            !r.success ==> r.steps@.len() == 2 && r.steps@[0].status is Completed && r.steps@[1].status
                is Failed,
            r.steps@.len() >= 1,
            // the trace is append-only with contiguous step ids
            forall|i: int| 0 <= i < r.steps@.len() ==> (#[trigger] r.steps@[i]).step_id == i + 1,
            // trace completeness: one opening step, one step per
            // planned action of a shortest plan, and one discount
            // entry per checkout the plan passes when the goal asks
            // for one
            r.success ==> exists|plan: Seq<(String, PageState)>|
                {
                    &&& #[trigger] is_path(
                        self.world_model.targets(),
                        self.start_state.spec_index(),
                        plan_states(plan),
                        classify_spec(request.goal@).spec_index(),
                    )
                    &&& (forall|q: Seq<int>|
                        is_path(
                            self.world_model.targets(),
                            self.start_state.spec_index(),
                            q,
                            classify_spec(request.goal@).spec_index(),
                        ) ==> q.len() >= plan.len())
                    &&& r.steps@.len() == 1 + plan.len() + (if wants_discount_spec(request.goal@) {
                        checkout_entries(plan)
                    } else {
                        0int
                    })
                    &&& wants_discount_spec(request.goal@) && checkout_entries(plan) > 0
                        ==> exists|i: int|
                        0 <= i < r.steps@.len() && (#[trigger] r.steps@[i]).action@
                            == "Input 'SAVE10'"@
                },
    {
        let target = classify_goal(request.goal.as_str());
        let goal_id = new_goal_id();
        let wants_discount = {
            let lower = to_ascii_lower(request.goal.as_str());
            contains_substring(lower.as_str(), "discount")
        };
        let mut steps: Vec<AgentStep> = Vec::new();
        let mut total_duration: u64 = 10;
        let mut step_counter: u32 = 2;
        steps.push(AgentStep {
            step_id: 1,
            action: String::from_str("Start Session"),
            observation: String::from_str("Landed on Homepage"),
            reasoning: String::from_str("Initial state"),
            duration_ms: 10,
            status: StepStatus::Completed,
        });
        match self.find_path(self.start_state, &target) {
            Some(path) => {
                let mut k: usize = 0;
                while k < path.len()
                    invariant
                        k <= path@.len(),
                        path@.len() < PAGE_STATE_COUNT,
                        steps@.len() >= 1,
                        steps@.len() == 1 + k + (if wants_discount {
                            checkout_entries(path@.take(k as int))
                        } else {
                            0int
                        }),
                        0 <= checkout_entries(path@.take(k as int)) <= k,
                        total_duration <= 10 + 600 * (k as int),
                        step_counter == steps@.len() + 1,
                        forall|i: int|
                            0 <= i < steps@.len() ==> (#[trigger] steps@[i]).status is Completed,
                        forall|i: int|
                            0 <= i < steps@.len() ==> (#[trigger] steps@[i]).step_id == i + 1,
                        wants_discount && checkout_entries(path@.take(k as int)) > 0
                            ==> exists|i: int|
                            0 <= i < steps@.len() && (#[trigger] steps@[i]).action@
                                == "Input 'SAVE10'"@,
                    decreases path@.len() - k,
                {
                    let ghost steps_pre = steps@;
                    proof {
                        assert(path@.take(k + 1).drop_last() =~= path@.take(k as int));
                        assert(path@.take(k + 1).last() == path@[k as int]);
                    }
                    let duration = random_duration_ms();
                    total_duration = total_duration + duration;
                    let next_state = path[k].1;
                    let mut observation = String::from_str("Transitioned to ");
                    observation.append(next_state.name().as_str());
                    steps.push(AgentStep {
                        step_id: step_counter,
                        action: path[k].0.clone(),
                        observation,
                        reasoning: String::from_str("Navigating along the planned path"),
                        duration_ms: duration,
                        status: StepStatus::Completed,
                    });
                    step_counter = step_counter + 1;
                    if next_state.index() == 4 && wants_discount {
                        steps.push(AgentStep {
                            step_id: step_counter,
                            action: String::from_str("Input 'SAVE10'"),
                            observation: String::from_str("Discount -10% applied"),
                            reasoning: String::from_str("Goal Requirement: Discount"),
                            duration_ms: 100,
                            status: StepStatus::Completed,
                        });
                        step_counter = step_counter + 1;
                        total_duration = total_duration + 100;
                        proof {
                            let last = steps@.len() - 1;
                            assert(steps@[last].action@ == "Input 'SAVE10'"@);
                        }
                    }
                    k = k + 1;
                    proof {
                        assert(forall|i: int|
                            0 <= i < steps_pre.len() ==> steps@[i] == steps_pre[i]);
                        if wants_discount && checkout_entries(path@.take(k as int)) > 0
                            && !(path@[k - 1].1 is Checkout) {
                            let i0 = choose|i: int|
                                0 <= i < steps_pre.len() && (#[trigger] steps_pre[i]).action@
                                    == "Input 'SAVE10'"@;
                            assert(steps@[i0].action@ == "Input 'SAVE10'"@);
                        }
                    }
                }
                proof {
                    assert(path@.take(path@.len() as int) =~= path@);
                }
                let mut audit_log_url = String::from_str("s3://veritas-logs/");
                audit_log_url.append(goal_id.as_str());
                audit_log_url.append("/replay.mp4");
                proof {
                    assert(is_path(
                        self.world_model.targets(),
                        self.start_state.spec_index(),
                        plan_states(path@),
                        classify_spec(request.goal@).spec_index(),
                    ));
                    assert(steps@.len() == 1 + path@.len() + (if wants_discount_spec(
                        request.goal@,
                    ) {
                        checkout_entries(path@)
                    } else {
                        0int
                    }));
                }
                GoalResult {
                    success: true,
                    goal_id,
                    steps,
                    audit_log_url,
                    total_duration_ms: total_duration,
                }
            },
            None => {
                steps.push(AgentStep {
                    step_id: step_counter,
                    action: String::from_str("Error"),
                    observation: String::from_str("Could not find path"),
                    reasoning: String::from_str("Target state unreachable"),
                    duration_ms: 0,
                    status: StepStatus::Failed,
                });
                let mut audit_log_url = String::from_str("s3://veritas-logs/");
                audit_log_url.append(goal_id.as_str());
                audit_log_url.append("/replay.mp4");
                GoalResult {
                    success: false,
                    goal_id,
                    steps,
                    audit_log_url,
                    total_duration_ms: total_duration,
                }
            },
        }
    }
}

} // verus!
