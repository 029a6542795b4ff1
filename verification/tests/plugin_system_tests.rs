use liscov_core::plugin_system::{
    DispatchOutcome, ErrorHandling, PluginInfo, PluginManagerConfig, PluginRegistry, RegistryError,
};
use liscov_core::tts::plugin_info;

fn info(id: &str, deps: &[&str]) -> PluginInfo {
    PluginInfo {
        id: id.to_string(),
        name: format!("{} plugin", id),
        version: "1.0.0".to_string(),
        description: "Test plugin".to_string(),
        author: "Test".to_string(),
        enabled: true,
        dependencies: deps.iter().map(|d| d.to_string()).collect(),
    }
}

#[test]
fn plugin_manager_config_default() {
    let c = PluginManagerConfig::default();
    assert_eq!(c.execution_timeout_ms, 5000);
    assert!(c.allow_parallel_execution);
    assert_eq!(c.error_handling, ErrorHandling::LogAndContinue);
    assert!(!c.debug_mode);
}

#[test]
fn plugin_registry_starts_empty() {
    let r = PluginRegistry::new();
    assert!(r.list_plugins().is_empty());
    assert!(r.dispatch_outcomes().is_empty());
    assert_eq!(r.config(), PluginManagerConfig::default());
}

#[test]
fn plugin_registry_registration_and_dependencies() {
    let mut r = PluginRegistry::new();
    let needs_base = info("child", &["base"]);
    assert_eq!(
        r.validate_dependencies(&needs_base),
        Err(RegistryError::DependencyNotFound { dependency: "base".to_string(), required_by: "child".to_string() })
    );
    assert_eq!(
        r.validate_dependencies(&needs_base).unwrap_err().message(),
        "Dependency not found: base (required by child)"
    );
    r.record_registration(info("base", &[]));
    assert_eq!(r.validate_dependencies(&needs_base), Ok(()));
    r.record_registration(needs_base);
    r.record_registration(info("base", &[]));
    let listed: Vec<String> = r.list_plugins().into_iter().map(|p| p.id).collect();
    assert_eq!(listed, vec!["base".to_string(), "child".to_string()]);
    assert_eq!(r.dispatch_outcomes(), vec![DispatchOutcome::Success, DispatchOutcome::Success]);
}

#[test]
fn plugin_registry_unregistration() {
    let mut r = PluginRegistry::new();
    r.record_registration(info("test-plugin", &[]));
    let taken = r.take_plugin("test-plugin").unwrap();
    assert_eq!(taken.id, "test-plugin");
    assert_eq!(r.dispatch_outcomes(), vec![DispatchOutcome::Skipped]);
    r.forget_plugin("test-plugin");
    assert!(r.dispatch_outcomes().is_empty());
    let missing = r.take_plugin("test-plugin").unwrap_err();
    assert_eq!(missing.message(), "Plugin not found: test-plugin");
}

#[test]
fn test_plugin_info() {
    let info = plugin_info(false);
    assert_eq!(info.id, "tts");
    assert!(!info.enabled);
}
