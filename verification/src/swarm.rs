use vstd::prelude::*;

verus! {

/// A request to spin up a swarm of worker agents across regions.
#[derive(Debug)]
pub struct SwarmRequest {
    pub agent_count: u32,
    pub regions: Vec<String>,
}

/// The launched swarm's reported state; throughput is in thousandths
/// of transactions per second.
#[derive(Debug)]
pub struct SwarmStatus {
    pub active_agents: u32,
    pub completed_tasks: u32,
    pub throughput_tps_milli: u64,
    pub region_health: Vec<(String, String)>,
}

/// A chaos-engineering request: how many agents to kill.
#[derive(Clone, Copy, Debug, PartialEq, Eq, Structural)]
pub struct ChaosRequest {
    pub kill_count: u32,
}

/// The pre-warmed pool of standby agents.
#[derive(Debug)]
pub struct WarmPool {
    pub available_agents: u32,
    pub status: String,
    pub threshold: u32,
}

/// The pool size the warmer fills up to.
pub const WARM_POOL_FULL: u32 = 50;

/// Relies on rand's `Rng::gen_range`: the simulated per-agent
/// throughput factor is drawn from [1.5, 5.0), in thousandths.
#[verifier::external_body]
fn throughput_factor_milli() -> (r: u64)
    ensures
        1500 <= r < 5000,
{
    rand::Rng::gen_range(&mut rand::thread_rng(), 1500u64..5000u64)
}

/// Manages a fleet of worker agents: a warm pool against cold
/// starts, automatic replenishment, and simulated launches.
#[derive(Debug)]
pub struct DistributedSwarm {
    pub warm_pool: WarmPool,
}

impl DistributedSwarm {
    /// A cold swarm: no agents, replenishment threshold 20.
    pub fn new() -> (r: DistributedSwarm)
        ensures
            r.warm_pool.available_agents == 0,
            r.warm_pool.status@ == "COLD"@,
            r.warm_pool.threshold == 20,
    {
        DistributedSwarm {
            warm_pool: WarmPool {
                available_agents: 0,
                status: String::from_str("COLD"),
                threshold: 20,
            },
        }
    }

    /// Pre-warms the pool to its full size.
    pub fn pre_warm(&mut self)
        ensures
            final(self).warm_pool.available_agents == WARM_POOL_FULL,
            final(self).warm_pool.status@ == "READY"@,
            final(self).warm_pool.threshold == old(self).warm_pool.threshold,
    {
        self.warm_pool.available_agents = WARM_POOL_FULL;
        self.warm_pool.status = String::from_str("READY");
    }

    /// Kills up to `count` agents, then replenishes if the pool fell
    /// below its threshold; returns how many agents were added back.
    pub fn kill_agents(&mut self, count: u32) -> (r: u32)
        requires
            old(self).warm_pool.threshold <= WARM_POOL_FULL,
        ensures
            ({
                let after = if count >= old(self).warm_pool.available_agents {
                    0int
                } else {
                    old(self).warm_pool.available_agents - count
                };
                if after < old(self).warm_pool.threshold {
                    &&& final(self).warm_pool.available_agents == WARM_POOL_FULL
                    &&& final(self).warm_pool.status@ == "REPLENISHED"@
                    &&& r == WARM_POOL_FULL - after
                } else {
                    &&& final(self).warm_pool.available_agents == after
                    &&& r == 0
                }
            }),
            final(self).warm_pool.threshold == old(self).warm_pool.threshold,
    {
        if count >= self.warm_pool.available_agents {
            self.warm_pool.available_agents = 0;
        } else {
            self.warm_pool.available_agents = self.warm_pool.available_agents - count;
        }
        self.check_replenish()
    }

    /// Refills the pool to full when it stands below the threshold;
    /// returns the number of agents added.
    pub fn check_replenish(&mut self) -> (r: u32)
        requires
            old(self).warm_pool.threshold <= WARM_POOL_FULL,
        ensures
            old(self).warm_pool.available_agents < old(self).warm_pool.threshold ==> {
                &&& final(self).warm_pool.available_agents == WARM_POOL_FULL
                &&& final(self).warm_pool.status@ == "REPLENISHED"@
                &&& r == WARM_POOL_FULL - old(self).warm_pool.available_agents
            },
            old(self).warm_pool.available_agents >= old(self).warm_pool.threshold ==> r == 0
                && *final(self) == *old(self),
            final(self).warm_pool.threshold == old(self).warm_pool.threshold,
    {
        if self.warm_pool.available_agents < self.warm_pool.threshold {
            let deficit = WARM_POOL_FULL - self.warm_pool.available_agents;
            self.warm_pool.available_agents = WARM_POOL_FULL;
            self.warm_pool.status = String::from_str("REPLENISHED");
            return deficit;
        }
        0
    }

    /// Launches the requested swarm: every requested agent is active,
    /// no task is completed yet, every region reports optimal, and
    /// the simulated throughput is the agent count scaled by a drawn
    /// factor.
    pub fn launch(&self, request: &SwarmRequest) -> (r: SwarmStatus)
        ensures
            r.active_agents == request.agent_count,
            r.completed_tasks == 0,
            (request.agent_count as int) * 1500 <= r.throughput_tps_milli < (request.agent_count
                as int) * 5000 || (request.agent_count == 0 && r.throughput_tps_milli == 0),
            r.region_health@.len() == request.regions@.len(),
            forall|i: int|
                0 <= i < r.region_health@.len() ==> (#[trigger] r.region_health@[i]).0@
                    == request.regions@[i]@ && r.region_health@[i].1@ == "OPTIMAL"@,
    {
        let mut health: Vec<(String, String)> = Vec::new();
        let mut i: usize = 0;
        while i < request.regions.len()
            invariant
                i <= request.regions@.len(),
                health@.len() == i,
                forall|k: int|
                    0 <= k < i ==> (#[trigger] health@[k]).0@ == request.regions@[k]@
                        && health@[k].1@ == "OPTIMAL"@,
            decreases request.regions@.len() - i,
        {
            health.push((request.regions[i].clone(), String::from_str("OPTIMAL")));
            i = i + 1;
        }
        let factor = throughput_factor_milli();
        proof {
            assert((request.agent_count as int) * (factor as int) < 0x4_0000_0000_0000i128)
                by (nonlinear_arith)
                requires
                    1500 <= factor < 5000,
                    0 <= request.agent_count < 0x1_0000_0000,
            ;
            if request.agent_count > 0 {
                assert((request.agent_count as int) * 1500 <= (request.agent_count as int) * (
                factor as int) < (request.agent_count as int) * 5000) by (nonlinear_arith)
                    requires
                        1500 <= factor < 5000,
                        1 <= request.agent_count < 0x1_0000_0000,
                ;
            }
        }
        let throughput: u64 = (request.agent_count as u64) * factor;
        proof {
            if request.agent_count == 0 {
                assert((0int) * (factor as int) == 0) by (nonlinear_arith);
            }
        }
        SwarmStatus {
            active_agents: request.agent_count,
            completed_tasks: 0,
            throughput_tps_milli: throughput,
            region_health: health,
        }
    }
}

} // verus!
