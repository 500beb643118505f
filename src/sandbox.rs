//! The interface of the sandbox that materializes a node's artifact.
use crate::error::MemoBuildError;
use crate::graph::Node;
use crate::strmap::StrMap;
use vstd::prelude::*;

verus! {

/// The prepared environment of one step.
#[derive(Debug, Clone)]
pub struct SandboxEnv {
    pub workspace_dir: String,
    pub env_vars: StrMap,
}

/// Outcome of running one step.
#[derive(Debug, Clone)]
pub struct ExecResult {
    pub exit_code: i32,
    pub stdout: Vec<u8>,
    pub stderr: Vec<u8>,
}

/// A place where build steps run.
pub trait Sandbox {
    fn prepare(&self, node: &Node) -> Result<SandboxEnv, MemoBuildError>;

    fn execute(&self, env: &SandboxEnv, node: &Node) -> Result<ExecResult, MemoBuildError>;

    fn cleanup(&self, env: &SandboxEnv) -> Result<(), MemoBuildError>;
}

} // verus!
