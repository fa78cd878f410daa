//! Where the runtime benchmark baseline lives, and how a benchmark run describes its environment.
use crate::paths::{joined_path, path_join};
use crate::text::concat;
use vstd::prelude::*;

verus! {

/// Baseline document, relative to the repository root.
pub const RUNTIME_BENCHMARK_BASELINE_DOC_PATH: &'static str = "docs/runtime-benchmark-baseline.json";

/// Regression policy recorded with every benchmark report.
pub const REGRESSION_POLICY: &'static str = "manual-review-on-baseline-delta";

/// Environment a benchmark report was produced in.
#[derive(Clone, Debug)]
pub struct RuntimeBenchmarkEnvironment {
    pub crate_version: &'static str,
    pub platform: String,
    pub regression_policy: &'static str,
}

/// The baseline document of a crate whose manifest directory is `manifest_dir`: the
/// repository root is two levels up.
pub fn canonical_runtime_benchmark_baseline_path(manifest_dir: &str) -> (r: String)
    ensures
        r@ == joined_path(joined_path(manifest_dir@, "../../"@), RUNTIME_BENCHMARK_BASELINE_DOC_PATH@),
{
    let root = path_join(manifest_dir, "../../");
    path_join(root.as_str(), RUNTIME_BENCHMARK_BASELINE_DOC_PATH)
}

/// Environment of a run on operating system `os` and architecture `arch`: platform
/// `<os>-<arch>`, under the manual review policy.
pub fn benchmark_environment(crate_version: &'static str, os: &str, arch: &str) -> (r: RuntimeBenchmarkEnvironment)
    ensures
        r.crate_version == crate_version,
        r.platform@ == os@ + "-"@ + arch@,
        r.regression_policy@ == REGRESSION_POLICY@,
{
    let a = concat(os, "-");
    RuntimeBenchmarkEnvironment { crate_version, platform: concat(a.as_str(), arch), regression_policy: REGRESSION_POLICY }
}

} // verus!
