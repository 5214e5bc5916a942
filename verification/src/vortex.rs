use vstd::prelude::*;
use crate::strutil::{dec_chars, u64_to_string};

verus! {

/// The self-healing department.
#[derive(Debug)]
pub struct BiologyDepartment {
    pub status: String,
}

impl BiologyDepartment {
    pub fn new() -> (r: BiologyDepartment)
        ensures
            r.status@ == "OFFLINE"@,
    {
        BiologyDepartment { status: String::from_str("OFFLINE") }
    }

    /// Brings the department online.
    pub fn initialize(&mut self)
        ensures
            final(self).status@ == "ONLINE"@,
    {
        self.status = String::from_str("ONLINE");
    }
}

/// The neural-network department.
#[derive(Debug)]
pub struct IntelligenceDepartment {
    pub status: String,
}

impl IntelligenceDepartment {
    pub fn new() -> (r: IntelligenceDepartment)
        ensures
            r.status@ == "OFFLINE"@,
    {
        IntelligenceDepartment { status: String::from_str("OFFLINE") }
    }

    /// Brings the department online.
    pub fn initialize(&mut self)
        ensures
            final(self).status@ == "ONLINE"@,
    {
        self.status = String::from_str("ONLINE");
    }
}

/// The high-frequency trading department.
#[derive(Debug)]
pub struct OmegaDepartment {
    pub status: String,
}

impl OmegaDepartment {
    pub fn new() -> (r: OmegaDepartment)
        ensures
            r.status@ == "OFFLINE"@,
    {
        OmegaDepartment { status: String::from_str("OFFLINE") }
    }

    /// Brings the department online.
    pub fn initialize(&mut self)
        ensures
            final(self).status@ == "ONLINE"@,
    {
        self.status = String::from_str("ONLINE");
    }
}

/// The engine's control state: departments, a running flag and a
/// cycle counter. Driving the cycle loop is the caller's concern;
/// this state machine only decides and records.
#[derive(Debug)]
pub struct VortexAI {
    pub biology: BiologyDepartment,
    pub intelligence: IntelligenceDepartment,
    pub omega: OmegaDepartment,
    pub is_running: bool,
    pub cycles: u64,
}

impl VortexAI {
    pub fn new() -> (r: VortexAI)
        ensures
            r.biology.status@ == "OFFLINE"@,
            r.intelligence.status@ == "OFFLINE"@,
            r.omega.status@ == "OFFLINE"@,
            !r.is_running,
            r.cycles == 0,
    {
        VortexAI {
            biology: BiologyDepartment::new(),
            intelligence: IntelligenceDepartment::new(),
            omega: OmegaDepartment::new(),
            is_running: false,
            cycles: 0,
        }
    }

    /// Starts the engine: a stopped engine comes online with every
    /// department initialised; a running engine is left alone.
    pub fn start(&mut self)
        ensures
            final(self).is_running,
            !old(self).is_running ==> final(self).biology.status@ == "ONLINE"@
                && final(self).intelligence.status@ == "ONLINE"@
                && final(self).omega.status@ == "ONLINE"@,
            old(self).is_running ==> *final(self) == *old(self),
            final(self).cycles == old(self).cycles,
    {
        if self.is_running {
            return ;
        }
        self.is_running = true;
        self.biology.initialize();
        self.intelligence.initialize();
        self.omega.initialize();
    }

    /// Halts the engine.
    pub fn stop(&mut self)
        ensures
            !final(self).is_running,
            final(self).cycles == old(self).cycles,
    {
        self.is_running = false;
    }

    /// One heartbeat of the cycle loop: counts a cycle while running,
    /// saturating at the counter's maximum; says whether to go on.
    pub fn tick(&mut self) -> (r: bool)
        ensures
            r == old(self).is_running,
            final(self).is_running == old(self).is_running,
            old(self).is_running && old(self).cycles < u64::MAX ==> final(self).cycles == old(self).cycles + 1,
            !old(self).is_running ==> final(self).cycles == old(self).cycles,
    {
        if !self.is_running {
            return false;
        }
        if self.cycles < 0xffff_ffff_ffff_ffffu64 {
            self.cycles = self.cycles + 1;
        }
        true
    }

    /// The status line: running state and cycle count.
    pub fn get_status(&self) -> (r: String)
        ensures
            r@ == "Vortex AI Status: "@ + (if self.is_running {
                "RUNNING"@
            } else {
                "STOPPED"@
            }) + " | Cycles: "@ + dec_chars(self.cycles as nat),
    {
        let mut r = String::from_str("Vortex AI Status: ");
        r.append(if self.is_running { "RUNNING" } else { "STOPPED" });
        r.append(" | Cycles: ");
        r.append(u64_to_string(self.cycles).as_str());
        r
    }
}

} // verus!
