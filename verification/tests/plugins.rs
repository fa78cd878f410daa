use oris_runtime::plugins::{
    allow_in_replay, requires_sandbox, route_to_execution_mode, validate_plugin_compatibility, PluginCategory,
    PluginCompatibility, PluginExecutionMode, PluginMetadata,
};

#[test]
fn plugin_category_as_str() {
    assert_eq!(PluginCategory::Node.as_str(), "node");
    assert_eq!(PluginCategory::Tool.as_str(), "tool");
    assert_eq!(PluginCategory::Memory.as_str(), "memory");
    assert_eq!(PluginCategory::LLMAdapter.as_str(), "llm_adapter");
    assert_eq!(PluginCategory::Scheduler.as_str(), "scheduler");
}

#[test]
fn plugin_category_equality() {
    assert_eq!(PluginCategory::Node, PluginCategory::Node);
    assert_ne!(PluginCategory::Tool, PluginCategory::Memory);
}

#[test]
fn plugin_metadata_conservative() {
    let m = PluginMetadata::conservative();
    assert!(!m.deterministic);
    assert!(m.side_effects);
    assert!(!m.replay_safe);
}

#[test]
fn plugin_metadata_pure() {
    let m = PluginMetadata::pure();
    assert!(m.deterministic);
    assert!(!m.side_effects);
    assert!(m.replay_safe);
}

#[test]
fn allow_in_replay_uses_replay_safe() {
    assert!(allow_in_replay(&PluginMetadata::pure()));
    assert!(!allow_in_replay(&PluginMetadata::conservative()));
}

#[test]
fn requires_sandbox_uses_side_effects() {
    assert!(requires_sandbox(&PluginMetadata::conservative()));
    assert!(!requires_sandbox(&PluginMetadata::pure()));
}

#[test]
fn plugin_execution_mode_as_str() {
    assert_eq!(PluginExecutionMode::InProcess.as_str(), "in_process");
    assert_eq!(PluginExecutionMode::IsolatedProcess.as_str(), "isolated_process");
    assert_eq!(PluginExecutionMode::Remote.as_str(), "remote");
}

#[test]
fn route_to_execution_mode_pure_in_process() {
    assert_eq!(route_to_execution_mode(&PluginMetadata::pure()), PluginExecutionMode::InProcess);
}

#[test]
fn route_to_execution_mode_side_effects_isolated() {
    assert_eq!(route_to_execution_mode(&PluginMetadata::conservative()), PluginExecutionMode::IsolatedProcess);
}

#[test]
fn validate_plugin_compatibility_empty_ok() {
    let c = PluginCompatibility::default();
    assert!(validate_plugin_compatibility(&c, "0.2.7").is_ok());
    assert!(validate_plugin_compatibility(&c, "").is_ok());
}

#[test]
fn validate_plugin_compatibility_exact_match() {
    let c = PluginCompatibility {
        plugin_api_version: "0.2".into(),
        kernel_compat: "0.2.7".into(),
        schema_hash: None,
    };
    assert!(validate_plugin_compatibility(&c, "0.2.7").is_ok());
    assert!(validate_plugin_compatibility(&c, "0.2.8").is_err());
}

#[test]
fn validate_plugin_compatibility_gte() {
    let c = PluginCompatibility {
        plugin_api_version: "0.2".into(),
        kernel_compat: ">=0.2.0".into(),
        schema_hash: None,
    };
    assert!(validate_plugin_compatibility(&c, "0.2.7").is_ok());
    assert!(validate_plugin_compatibility(&c, "0.2.0").is_ok());
    assert!(validate_plugin_compatibility(&c, "0.1.9").is_err());
}

#[test]
fn plugin_compatibility_error_names_versions() {
    let c = PluginCompatibility {
        plugin_api_version: "0.2".into(),
        kernel_compat: ">=0.3.0".into(),
        schema_hash: None,
    };
    let err = validate_plugin_compatibility(&c, "0.2.9").unwrap_err();
    assert!(err.message().contains("0.2.9"));
}

#[test]
fn plugin_metadata_default_is_conservative_flags_off() {
    let m = PluginMetadata::default();
    assert!(!m.deterministic);
    assert!(!m.side_effects);
    assert!(!m.replay_safe);
}
