//! Runtime configuration: where to listen, which status binary to run
//! and how long to wait for it, and the switches that shape a scrape.

use vstd::prelude::*;
use vstd::string::*;

verus! {

/// The settings a scrape runs under.
pub struct Args {
    /// Address the metrics endpoint listens on.
    pub listen_address: String,
    /// Port the metrics endpoint listens on.
    pub port: u16,
    /// Path to the status binary to invoke.
    pub smbstatus_path: String,
    /// How long to wait for the status binary, in milliseconds.
    pub smbstatus_timeout: u64,
    /// Skip the per-process metrics to save resources.
    pub disable_process_metrics: bool,
    /// Expect cluster-style `node:pid` process ids.
    pub cluster_mode: bool,
}

impl Default for Args {
    /// The stock settings: listen everywhere on port 9922, run
    /// `smbstatus` with a five-second timeout, gather per-process
    /// metrics, no cluster mode.
    fn default() -> (r: Args)
        ensures
            r.listen_address@ == "0.0.0.0"@,
            r.port == 9922,
            r.smbstatus_path@ == "smbstatus"@,
            r.smbstatus_timeout == 5000,
            !r.disable_process_metrics,
            !r.cluster_mode,
    {
        Args {
            listen_address: String::from_str("0.0.0.0"),
            port: 9922,
            smbstatus_path: String::from_str("smbstatus"),
            smbstatus_timeout: 5000,
            disable_process_metrics: false,
            cluster_mode: false,
        }
    }
}

} // verus!
