use oris_runtime::graph::plugin::{GraphError, NodePlugin, NodePluginRegistry};
use serde_json::Value;
use std::sync::Arc;

/// A plugin whose configuration must carry a string `prefix`.
struct EchoPlugin {
    kind: &'static str,
}

impl NodePlugin for EchoPlugin {
    type Node = String;

    fn plugin_type(&self) -> &str {
        self.kind
    }

    fn create_node(&self, name: &str, config: &Value) -> Result<String, GraphError> {
        match config.get("prefix").and_then(Value::as_str) {
            Some(prefix) => Ok(format!("{}: {} from plugin", name, prefix)),
            None => Err(GraphError::CompilationError(format!(
                "Invalid config for plugin '{}': missing field `prefix`",
                self.kind
            ))),
        }
    }
}

fn json(text: &str) -> Value {
    serde_json::from_str(text).expect("valid json")
}

fn build_registry() -> NodePluginRegistry<EchoPlugin> {
    let mut registry = NodePluginRegistry::new();
    registry.register_plugin(EchoPlugin { kind: "echo" }).expect("register plugin");
    registry
}

#[test]
fn registry_rejects_duplicate_plugin_types() {
    let mut registry = NodePluginRegistry::<EchoPlugin>::new();
    registry.register_plugin(EchoPlugin { kind: "echo" }).expect("first register");
    let err = match registry.register_plugin(EchoPlugin { kind: "echo" }) {
        Ok(_) => panic!("duplicate register should fail"),
        Err(err) => err,
    };
    assert!(matches!(err, GraphError::CompilationError(_)));
    match err {
        GraphError::CompilationError(m) => assert_eq!(m, "Plugin type 'echo' is already registered"),
    }
    assert_eq!(registry.plugin_types(), vec!["echo".to_string()]);
}

#[test]
fn registry_validates_typed_config_at_runtime() {
    let registry = build_registry();
    let err = match registry.create_node("broken", "echo", &json(r#"{"unknown": true}"#)) {
        Ok(_) => panic!("invalid config should fail"),
        Err(err) => err,
    };
    assert!(matches!(err, GraphError::CompilationError(_)));
}

#[test]
fn registered_plugins_build_nodes_and_list_in_order() {
    let mut registry = build_registry();
    registry.register_plugin_arc(Arc::new(EchoPlugin { kind: "alpha" })).expect("register alpha");
    registry.register_plugin(EchoPlugin { kind: "mid" }).expect("register mid");
    assert!(registry.contains("alpha"));
    assert!(registry.contains("echo"));
    assert!(!registry.contains("zeta"));
    assert_eq!(registry.plugin_types(), vec!["alpha".to_string(), "echo".to_string(), "mid".to_string()]);
    let node = registry.create_node("echo-node", "echo", &json(r#"{"prefix": "hello"}"#)).expect("node");
    assert_eq!(node, "echo-node: hello from plugin");
    match registry.create_node("x", "missing", &json("{}")) {
        Err(GraphError::CompilationError(m)) => assert_eq!(m, "Plugin type 'missing' is not registered"),
        Ok(_) => panic!("unregistered type should fail"),
    }
    let empty: NodePluginRegistry<EchoPlugin> = Default::default();
    assert!(empty.plugin_types().is_empty());
}
