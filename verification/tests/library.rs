use oris_runtime::agent::checkpoint::{AgentAction, AgentCheckpointState, InMemoryAgentSaver};
use oris_runtime::agent::step::{agent_step_next, AgentInvokeResult, AgentStepState, AgentStepValue, AGENT_STEP_ID};
use oris_runtime::hashing::sha256_hex;
use oris_runtime::ids::{generate_span_id, generate_trace_id};
use oris_runtime::kernel::event::{Event, KernelError};
use oris_runtime::kernel::step::Next;
use oris_runtime::runtime::attempt::RetryStrategy;
use oris_runtime::runtime::benchmark::{
    benchmark_environment, canonical_runtime_benchmark_baseline_path, REGRESSION_POLICY,
    RUNTIME_BENCHMARK_BASELINE_DOC_PATH,
};
use oris_runtime::runtime::retry::RetryPolicyConfig;
use oris_runtime::spec::{join_strings, MutationTarget, RiskLevel, SpecCompileError, SpecCompiler, SpecDocument, SpecMutation};

fn lower_hex(s: &str) -> bool {
    s.chars().all(|c| c.is_ascii_digit() || ('a'..='f').contains(&c))
}

#[test]
fn sha256_hex_known_values() {
    assert_eq!(sha256_hex("abc"), "ba7816bf8f01cfea414140de5dae2223b00361a396177a9cb410ff61f20015ad");
    assert_eq!(sha256_hex(""), "e3b0c44298fc1c149afbf4c8996fb92427ae41e4649b934ca495991b7852b855");
}

#[test]
fn generated_ids_have_their_shapes() {
    let trace = generate_trace_id();
    assert_eq!(trace.len(), 32);
    assert!(lower_hex(&trace));
    let span = generate_span_id();
    assert_eq!(span.len(), 16);
    assert!(lower_hex(&span));
    assert_ne!(generate_trace_id(), trace);
}

fn spec_doc(id: &str, intent: &str, strategy: &str, validation: Vec<&str>) -> SpecDocument {
    SpecDocument {
        id: id.to_string(),
        version: "0.1".to_string(),
        intent: intent.to_string(),
        signals: vec!["build-failed".to_string()],
        constraints: Vec::new(),
        mutation: SpecMutation { strategy: strategy.to_string() },
        validation: validation.into_iter().map(String::from).collect(),
    }
}

#[test]
fn spec_compiles_into_a_workspace_mutation() {
    let plan = SpecCompiler::compile(&spec_doc("fix-1", "fix the build", "patch", vec!["cargo-test", "clippy"])).expect("compiles");
    let intent = plan.mutation_intent;
    assert_eq!(intent.id, "spec-fix-1");
    assert_eq!(intent.intent, "fix the build");
    assert!(matches!(intent.target, MutationTarget::WorkspaceRoot));
    assert_eq!(intent.expected_effect, "patch");
    assert_eq!(intent.risk, RiskLevel::Low);
    assert_eq!(intent.signals, vec!["build-failed".to_string()]);
    assert_eq!(intent.spec_id.as_deref(), Some("fix-1"));
    assert_eq!(plan.validation_profile, "cargo-test,clippy");

    let default_profile = SpecCompiler::compile(&spec_doc("x", "y", "z", Vec::new())).expect("compiles");
    assert_eq!(default_profile.validation_profile, "spec-default");
}

#[test]
fn blank_spec_fields_are_invalid_in_order() {
    let message = |doc: SpecDocument| match SpecCompiler::compile(&doc) {
        Err(SpecCompileError::Invalid(m)) => m,
        other => panic!("expected invalid spec, got {:?}", other),
    };
    assert_eq!(message(spec_doc(" ", "", "", Vec::new())), "spec id cannot be empty");
    assert_eq!(message(spec_doc("a", "  ", "", Vec::new())), "spec intent cannot be empty");
    assert_eq!(message(spec_doc("a", "b", "\t", Vec::new())), "spec mutation strategy cannot be empty");
}

#[test]
fn join_strings_matches_slice_join() {
    let items = vec!["a".to_string(), "b".to_string(), "c".to_string()];
    assert_eq!(join_strings(&items, ", "), items.join(", "));
    assert_eq!(join_strings(&Vec::new(), ","), "");
}

#[test]
fn agent_answers_become_state_updates() {
    match agent_step_next(Ok(AgentInvokeResult::Complete("done".to_string()))) {
        Ok(Next::Emit(events)) => {
            assert_eq!(events.len(), 1);
            match &events[0] {
                Event::StateUpdated { step_id, payload: AgentStepValue::Output(o) } => {
                    assert_eq!(step_id.as_deref(), Some(AGENT_STEP_ID));
                    assert_eq!(o, "done");
                }
                other => panic!("unexpected event {:?}", other),
            }
        }
        other => panic!("unexpected step {:?}", other),
    }
    match agent_step_next(Ok(AgentInvokeResult::Interrupt { interrupt_value: "{\"ask\":1}".to_string() })) {
        Ok(Next::Interrupt(info)) => assert!(matches!(info.value, AgentStepValue::InterruptValue(ref v) if v == "{\"ask\":1}")),
        other => panic!("unexpected step {:?}", other),
    }
    match agent_step_next(Err("model down".to_string())) {
        Err(KernelError::Driver(m)) => assert_eq!(m, "model down"),
        other => panic!("unexpected step {:?}", other),
    }
    let state = AgentStepState::default();
    assert!(state.prompt_args.is_empty());
    assert!(state.last_output.is_none());
}

#[test]
fn in_memory_agent_saver_round_trip() {
    let mut saver = InMemoryAgentSaver::new();
    assert!(saver.load("thread-1").is_none());
    let action = AgentAction { tool: "search".to_string(), tool_input: "q".to_string(), log: "l".to_string() };
    let state = AgentCheckpointState {
        steps: vec![(action.clone(), "result".to_string())],
        input_variables: vec![("input".to_string(), "\"checkpoint\"".to_string())],
        pending_actions: vec![AgentAction { tool: "write_file".to_string(), tool_input: "{}".to_string(), log: String::new() }],
    };
    saver.save("thread-1", &state);
    let loaded = saver.load("thread-1").expect("saved state");
    assert_eq!(loaded.steps.len(), 1);
    assert_eq!(loaded.steps[0].0.tool, "search");
    assert_eq!(loaded.input_variables[0].1, "\"checkpoint\"");
    assert_eq!(loaded.pending_actions[0].tool, "write_file");
    assert!(saver.load("thread-2").is_none());

    let replaced = AgentCheckpointState { steps: Vec::new(), input_variables: Vec::new(), pending_actions: Vec::new() };
    saver.save("thread-1", &replaced);
    assert!(saver.load("thread-1").expect("replaced").steps.is_empty());
}

#[test]
fn benchmark_paths_and_environment() {
    assert_eq!(
        canonical_runtime_benchmark_baseline_path("/repo/crates/oris-runtime"),
        "/repo/crates/oris-runtime/../../docs/runtime-benchmark-baseline.json"
    );
    assert_eq!(RUNTIME_BENCHMARK_BASELINE_DOC_PATH, "docs/runtime-benchmark-baseline.json");
    let env = benchmark_environment("0.1.0", "linux", "x86_64");
    assert_eq!(env.platform, "linux-x86_64");
    assert_eq!(env.regression_policy, REGRESSION_POLICY);
    assert_eq!(env.crate_version, "0.1.0");
}

#[test]
fn next_backoff_is_capped() {
    let fixed = RetryPolicyConfig { strategy: RetryStrategy::Fixed, backoff_ms: 100, max_backoff_ms: Some(50), multiplier_bits: None, max_retries: 2 };
    assert_eq!(fixed.next_backoff_ms(9_999), 50);
    let exp = RetryPolicyConfig { strategy: RetryStrategy::Exponential, backoff_ms: 100, max_backoff_ms: Some(1_000), multiplier_bits: Some(2.0f64.to_bits()), max_retries: 2 };
    assert_eq!(exp.next_backoff_ms(400), 400);
    assert_eq!(exp.next_backoff_ms(1_600), 1_000);
    let uncapped = RetryPolicyConfig { max_backoff_ms: None, ..exp };
    assert_eq!(uncapped.next_backoff_ms(1_600), 1_600);
}
