//! What can be asked for on the command line.

use vstd::prelude::*;

verus! {

pub struct Cli {
    pub command: Command,
}

#[allow(inconsistent_fields)]
pub enum Command {
    /// Connect this machine to a console.
    Login { remote: Option<String>, url: Option<String>, no_browser: bool },
    /// Forget the key of a console.
    Logout { remote: Option<String> },
    /// Give a console another local name.
    Rename { old_name: String, new_name: String },
    /// Whose keys are kept, and which console is the default.
    Whoami { remote: Option<String>, default: Option<String> },
    /// Set up the boxes.
    Link,
    /// Connect an outside provider.
    Connect { provider: String },
    /// Deploy a commit.
    Deploy { env: Option<String>, git_ref: Option<String> },
    /// Run a container image on the cloud.
    Launch {
        image: String,
        port: u16,
        name: Option<String>,
        env: Vec<String>,
        size: String,
        domain: Option<String>,
        gpu: Option<String>,
        remote: Option<String>,
    },
    /// The GPUs that can be deployed on.
    Gpus { remote: Option<String> },
    /// The logs of a GPU workload.
    GpuLogs { id: String, remote: Option<String> },
    /// Remove a GPU workload.
    GpuRm { id: String, remote: Option<String> },
    /// The logs of an app's pods.
    Logs {
        env: Option<String>,
        target: Option<String>,
        app: Option<String>,
        follow: bool,
        since: Option<String>,
        previous: bool,
        lines: u32,
    },
    /// The recent deploys.
    Deploys { env: Option<String>, limit: usize },
    /// What is deployed.
    Status { env: Option<String> },
    /// Run a command in a pod of its own.
    Run { env: Option<String>, cmd: Vec<String> },
    /// Restart the pods.
    Restart { env: Option<String> },
    /// Open the environment's address.
    Open { env: Option<String> },
    /// Look at the whole chain of a deploy.
    Doctor { env: Option<String> },
    /// The names of settings and secrets.
    Config { env: Option<String> },
}

} // verus!
