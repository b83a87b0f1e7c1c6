//! Configuration for the development-only process orchestrator. The
//! orchestrator itself launches and supervises local processes, which is
//! operating-system work outside this library; only its configuration value
//! lives here.

use vstd::prelude::*;

verus! {

/// Configures a process orchestrator: where executable images live, and the
/// inclusive range of ports it may allocate.
#[derive(Debug, PartialEq, Eq)]
pub struct ProcessOrchestratorConfig {
    /// The directory in which the orchestrator should look for executable
    /// images.
    pub image_dir: String,
    /// The first port it may allocate.
    pub port_range_start: i32,
    /// The last port it may allocate.
    pub port_range_end: i32,
}

impl ProcessOrchestratorConfig {
    /// Whether the configured port range is nonempty.
    pub fn has_ports(&self) -> (r: bool)
        ensures
            r == (self.port_range_start <= self.port_range_end),
    {
        self.port_range_start <= self.port_range_end
    }
}

} // verus!
