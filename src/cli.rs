//! The commands of the command-line interface, as parsed arguments.

use vstd::prelude::*;

verus! {

/// How results are printed.
#[derive(Debug, Clone, Copy, PartialEq, Eq)]
pub enum OutputFormat {
    Human,
    Json,
}

/// A parsed command line.
#[derive(Debug, Clone)]
pub struct Cli {
    pub output: OutputFormat,
    pub config: Option<String>,
    pub command: Commands,
}

/// The commands.
#[derive(Debug, Clone)]
pub enum Commands {
    /// Workspace management.
    Workspace { action: WorkspaceAction },
    /// Run a command with the workspace environment.
    Run { command: Vec<String> },
    /// Show the workspace status.
    Status,
    /// List all workspaces.
    List,
    /// Remove orphaned containers (only list them unless forced).
    Cleanup { force: bool },
    /// Show the logs of a service.
    Logs { service: String, tail: Option<usize>, follow: bool },
    /// Restart a service.
    Restart { service: String },
    /// Stop a service without removing it.
    Stop { service: String },
    /// Start a stopped service.
    Start { service: String },
    /// Run a command in a service container.
    ContainerExec { service: String, command: Vec<String> },
    /// Write a shell completion script.
    Completion { shell: String, dir: Option<String> },
    /// Hand the arguments to the version-control executable.
    Jj(Vec<String>),
}

/// The workspace operations.
#[derive(Debug, Clone)]
pub enum WorkspaceAction {
    /// Create a workspace with its infrastructure.
    Add { destination: String, revision: Option<String> },
    /// Remove a workspace and tear its infrastructure down.
    Forget { workspace: String },
}

impl Cli {
    /// Whether results are printed as JSON.
    pub fn is_json(&self) -> (r: bool)
        ensures
            r == (self.output == OutputFormat::Json),
    {
        match self.output {
            OutputFormat::Json => true,
            OutputFormat::Human => false,
        }
    }
}

} // verus!
