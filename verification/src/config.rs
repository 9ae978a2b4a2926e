//! Settings that the rules of the library read.

use vstd::prelude::*;

verus! {

/// How a branch takes over its base.
#[derive(Debug, Clone, Copy, PartialEq, Eq, Structural)]
pub enum SyncStrategy {
    Rebase,
    Merge,
}

/// How a branch is pushed.
#[derive(Debug, Clone, Copy, PartialEq, Eq, Structural)]
pub enum PushStrategy {
    Skip,
    Normal,
    ForceWithLease,
}

/// A provider of chat completions.
#[derive(Debug, Clone, Copy, PartialEq, Eq, Structural)]
pub enum LlmProvider {
    DeepSeek,
    OpenAi,
    OpenAiCompatible,
    Custom,
}

/// How far security handling goes without a person.
#[derive(Debug, Clone, Copy, PartialEq, Eq, Structural)]
pub enum ProtectionAutomation {
    Observe,
    Candidate,
}

/// The repository and its remotes.
#[derive(Debug, Clone)]
pub struct RepoConfig {
    pub path: String,
    pub fork: String,
    pub upstream_remote: String,
    pub fork_remote: String,
    pub base_branch: String,
}

/// Limits of automatic conflict resolution on one branch.
#[derive(Debug, Clone)]
pub struct AutoResolveConfig {
    pub enabled: bool,
    pub allowed_paths: Vec<String>,
    pub max_conflict_files: usize,
    pub max_file_bytes: usize,
    pub max_rounds: usize,
    pub require_tests: bool,
}

/// One maintained branch.
///
/// `behavioral_tests` says whether one of the test commands exercises behavior, and is not only a
/// compile check.
#[derive(Debug, Clone)]
pub struct BranchConfig {
    pub name: String,
    pub kind: String,
    pub note: Option<String>,
    pub sync: SyncStrategy,
    pub push: PushStrategy,
    pub tests: Vec<String>,
    pub require_behavioral_tests: bool,
    pub behavioral_tests: bool,
    pub auto_resolve: AutoResolveConfig,
}

impl BranchConfig {
    /// Whether one of the test commands exercises behavior.
    pub fn has_behavioral_tests(&self) -> (r: bool)
        ensures
            r == self.behavioral_tests,
    {
        self.behavioral_tests
    }
}

/// Prompts that replace the default ones.
#[derive(Debug, Clone)]
pub struct PromptConfig {
    pub conflict_system: Option<String>,
    pub conflict_user: Option<String>,
    pub auto_resolve_system: Option<String>,
    pub auto_resolve_user: Option<String>,
    pub sync_summary_system: Option<String>,
    pub sync_summary_user: Option<String>,
}

/// The language model and how it is called.
#[derive(Debug, Clone)]
pub struct LlmConfig {
    pub enabled: bool,
    pub provider: LlmProvider,
    pub base_url: Option<String>,
    pub api_key_env: String,
    pub model: String,
    pub timeout_seconds: u64,
    pub max_retries: u32,
    pub max_prompt_bytes: usize,
    pub prompts: PromptConfig,
}

/// Which notifications are sent.
#[derive(Debug, Clone, Copy)]
pub struct NotifyConfig {
    pub sync_start: bool,
    pub sync_summary: bool,
}

/// Security rules of the project.
#[derive(Debug, Clone)]
pub struct ProtectionConfig {
    pub enabled: bool,
    pub project_name: String,
    pub project_description: String,
    pub profiles: Vec<String>,
    pub automation: ProtectionAutomation,
}

/// All settings.
#[derive(Debug, Clone)]
pub struct Config {
    pub repo: RepoConfig,
    pub branches: Vec<BranchConfig>,
    pub llm: Option<LlmConfig>,
    pub notify: NotifyConfig,
    pub protection: ProtectionConfig,
    pub data_dir: String,
}

} // verus!
