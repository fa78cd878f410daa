//! Plugin categories, behavioural metadata and load-time compatibility checks.
//!
//! Every plugin declares [PluginMetadata] (determinism, side effects, replay
//! safety) so the kernel can decide replay substitution, sandbox routing and
//! execution mode ([PluginExecutionMode]).
use crate::text::{concat, has_prefix, seq_lt, starts_with, str_eq, str_lt, strip_all_prefix, trim, trim_start_matches, trimmed};
use vstd::prelude::*;

verus! {

/// Error returned when plugin creation, lookup or validation fails.
#[derive(Debug)]
pub struct PluginError(pub String);

impl PluginError {
    /// The rendered message: `"Plugin error: "` followed by the detail.
    pub fn message(&self) -> (r: String)
        ensures
            r@ == "Plugin error: "@ + self.0@,
    {
        concat("Plugin error: ", self.0.as_str())
    }
}

/// Compatibility metadata checked when a plugin is loaded.
#[derive(Clone, Debug, Default, PartialEq, Eq)]
pub struct PluginCompatibility {
    /// Plugin API version (e.g. `"0.2"`).
    pub plugin_api_version: String,
    /// Kernel requirement: `">=0.2.0"` or an exact version such as `"0.2.7"`.
    pub kernel_compat: String,
    /// Optional schema hash for strict schema compatibility.
    pub schema_hash: Option<String>,
}

/// The version bound carried by a `">="` requirement.
pub open spec fn min_version_of(req: Seq<char>) -> Seq<char> {
    trimmed(strip_all_prefix(req, ">="@))
}

/// Whether a kernel of version `kernel_version` satisfies the requirement `kernel_compat`.
///
/// An empty kernel version or an empty requirement always passes. A trimmed
/// requirement starting with `>=` passes when the kernel version is not
/// lexicographically smaller than the bound; any other requirement must equal
/// the kernel version exactly.
pub open spec fn compat_satisfied(kernel_compat: Seq<char>, kernel_version: Seq<char>) -> bool {
    let req = trimmed(kernel_compat);
    if kernel_version.len() == 0 || kernel_compat.len() == 0 {
        true
    } else if has_prefix(req, ">="@) {
        !seq_lt(kernel_version, min_version_of(req))
    } else {
        req == kernel_version
    }
}

/// The message of the error for an unsatisfied requirement.
pub open spec fn compat_error_message(kernel_compat: Seq<char>, kernel_version: Seq<char>) -> Seq<
    char,
> {
    if has_prefix(trimmed(kernel_compat), ">="@) {
        "kernel version "@ + kernel_version + " does not meet plugin requirement "@
            + kernel_compat
    } else {
        "kernel version "@ + kernel_version + " does not match plugin kernel_compat "@
            + kernel_compat
    }
}

/// Validates plugin compatibility against the running kernel version.
pub fn validate_plugin_compatibility(compat: &PluginCompatibility, kernel_version: &str) -> (r:
    Result<(), PluginError>)
    ensures
        r is Ok <==> compat_satisfied(compat.kernel_compat@, kernel_version@),
        r matches Err(e) ==> e.0@ == compat_error_message(compat.kernel_compat@, kernel_version@),
{
    if kernel_version.is_empty() {
        return Ok(());
    }
    if compat.kernel_compat.as_str().is_empty() {
        return Ok(());
    }
    let req = trim(compat.kernel_compat.as_str());
    if starts_with(req, ">=") {
        let min = trim(trim_start_matches(req, ">="));
        if str_lt(kernel_version, min) {
            let a = concat("kernel version ", kernel_version);
            let b = concat(a.as_str(), " does not meet plugin requirement ");
            let msg = concat(b.as_str(), compat.kernel_compat.as_str());
            return Err(PluginError(msg));
        }
    } else if !str_eq(req, kernel_version) {
        let a = concat("kernel version ", kernel_version);
        let b = concat(a.as_str(), " does not match plugin kernel_compat ");
        let msg = concat(b.as_str(), compat.kernel_compat.as_str());
        return Err(PluginError(msg));
    }
    Ok(())
}

/// Declared behavioural boundaries of a plugin, used for kernel enforcement.
#[derive(Clone, Debug, PartialEq, Eq)]
pub struct PluginMetadata {
    /// Output is deterministic for the same inputs (no clock, randomness or external I/O).
    pub deterministic: bool,
    /// The plugin may perform side effects (network, disk, state changes).
    pub side_effects: bool,
    /// The plugin is safe to use in replay/verify mode.
    pub replay_safe: bool,
}

/// Default for metadata fields that are absent when decoding (`side_effects`).
pub fn default_true() -> (r: bool)
    ensures
        r,
{
    true
}

impl PluginMetadata {
    pub open spec fn spec_conservative() -> PluginMetadata {
        PluginMetadata { deterministic: false, side_effects: true, replay_safe: false }
    }

    pub open spec fn spec_pure() -> PluginMetadata {
        PluginMetadata { deterministic: true, side_effects: false, replay_safe: true }
    }

    /// Conservative defaults: not deterministic, has side effects, not replay-safe.
    pub fn conservative() -> (m: Self)
        ensures
            m == Self::spec_conservative(),
    {
        PluginMetadata { deterministic: false, side_effects: true, replay_safe: false }
    }

    /// Deterministic, side-effect free and replay-safe (pure compute).
    pub fn pure() -> (m: Self)
        ensures
            m == Self::spec_pure(),
    {
        PluginMetadata { deterministic: true, side_effects: false, replay_safe: true }
    }
}

impl Default for PluginMetadata {
    /// All flags cleared.
    fn default() -> (m: Self)
        ensures
            m == (PluginMetadata { deterministic: false, side_effects: false, replay_safe: false }),
    {
        PluginMetadata { deterministic: false, side_effects: false, replay_safe: false }
    }
}

/// Implemented by every plugin interface so that the kernel can read its metadata.
pub trait HasPluginMetadata {
    /// Behavioural boundaries for kernel enforcement (replay, sandbox).
    /// Without an override a plugin is treated as [PluginMetadata::conservative].
    fn plugin_metadata(&self) -> (m: PluginMetadata)
        default_ensures
            m == PluginMetadata::spec_conservative(),
    {
        PluginMetadata::conservative()
    }
}

/// A plugin may run in replay/verify mode exactly when it is declared replay-safe.
pub fn allow_in_replay(meta: &PluginMetadata) -> (r: bool)
    ensures
        r == meta.replay_safe,
{
    meta.replay_safe
}

/// A plugin is routed through a sandbox exactly when it may have side effects.
pub fn requires_sandbox(meta: &PluginMetadata) -> (r: bool)
    ensures
        r == meta.side_effects,
{
    meta.side_effects
}

/// Execution mode used to isolate a plugin.
#[derive(Clone, Copy, Debug, Eq, Hash, PartialEq)]
pub enum PluginExecutionMode {
    /// Same process, no isolation (pure or trusted plugins).
    InProcess,
    /// Isolated process (subprocess / sandbox).
    IsolatedProcess,
    /// Remote worker or service.
    Remote,
}

impl PluginExecutionMode {
    pub open spec fn name(self) -> Seq<char> {
        match self {
            PluginExecutionMode::InProcess => "in_process"@,
            PluginExecutionMode::IsolatedProcess => "isolated_process"@,
            PluginExecutionMode::Remote => "remote"@,
        }
    }

    /// Stable identifier for serialization and configuration.
    pub fn as_str(self) -> (r: &'static str)
        ensures
            r@ == self.name(),
    {
        match self {
            PluginExecutionMode::InProcess => "in_process",
            PluginExecutionMode::IsolatedProcess => "isolated_process",
            PluginExecutionMode::Remote => "remote",
        }
    }
}

/// Plugins with side effects run isolated; all others run in process.
pub fn route_to_execution_mode(meta: &PluginMetadata) -> (r: PluginExecutionMode)
    ensures
        r == (if meta.side_effects {
            PluginExecutionMode::IsolatedProcess
        } else {
            PluginExecutionMode::InProcess
        }),
{
    if requires_sandbox(meta) {
        PluginExecutionMode::IsolatedProcess
    } else {
        PluginExecutionMode::InProcess
    }
}

/// Standard categories of plugins the kernel recognizes.
#[derive(Clone, Copy, Debug, Eq, Hash, PartialEq)]
pub enum PluginCategory {
    /// Graph node factories.
    Node,
    /// Tool factories.
    Tool,
    /// Memory backends.
    Memory,
    /// LLM implementations.
    LLMAdapter,
    /// Scheduler implementations.
    Scheduler,
}

impl PluginCategory {
    pub open spec fn name(self) -> Seq<char> {
        match self {
            PluginCategory::Node => "node"@,
            PluginCategory::Tool => "tool"@,
            PluginCategory::Memory => "memory"@,
            PluginCategory::LLMAdapter => "llm_adapter"@,
            PluginCategory::Scheduler => "scheduler"@,
        }
    }

    /// Stable identifier for serialization and registry keys.
    pub fn as_str(self) -> (r: &'static str)
        ensures
            r@ == self.name(),
    {
        match self {
            PluginCategory::Node => "node",
            PluginCategory::Tool => "tool",
            PluginCategory::Memory => "memory",
            PluginCategory::LLMAdapter => "llm_adapter",
            PluginCategory::Scheduler => "scheduler",
        }
    }
}

/// Scheduler implementations the kernel can load by plugin type.
pub trait SchedulerPlugin: HasPluginMetadata {
    /// Stable plugin type identifier used for registration and lookup.
    fn plugin_type(&self) -> &str;

    /// Optional human-readable description; empty unless overridden.
    fn description(&self) -> (r: &str)
        default_ensures
            r@.len() == 0,
    {
        proof {
            reveal_strlit("");
        }
        ""
    }
}

} // verus!
