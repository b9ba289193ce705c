use tbd_cfg::config::{run_apply, ConfigManager, ConfigProvider, ConfigSpec};
use tbd_cfg::errors::ApplyError;
use tbd_cfg::state::{Resource, ResourceStore, StateAdapter};
use tbd_cfg::value::Value;

fn obj(entries: Vec<(&str, Value)>) -> Value {
    Value::Obj(entries.into_iter().map(|(k, v)| (k.to_string(), v)).collect())
}

fn text(s: &str) -> Value {
    Value::Text(s.to_string())
}

fn test_spec() -> ConfigSpec {
    ConfigSpec {
        name: "test-config".to_string(),
        target: "dev".to_string(),
        provider: ConfigProvider::Ansible {
            playbook: "playbook.yml".to_string(),
            inventory: "inventory.yml".to_string(),
        },
        variables: obj(vec![("test", text("value"))]),
    }
}

#[test]
fn test_config_manager() {
    let mut manager = ConfigManager::new(ResourceStore::new());
    // the provider inputs do not exist; the request is still assembled, and
    // the state record is already written when it is handed out
    let request = manager.apply_config(test_spec()).unwrap();
    assert_eq!(request.playbook, "playbook.yml");
    assert_eq!(request.inventory, "inventory.yml");
    assert_eq!(request.variables, obj(vec![("test", text("value"))]));
    let adapter = manager.state_adapter();
    assert!(adapter.get_config(&"test-config".to_string()).is_some());
}

#[test]
fn test_target_mismatch_writes_nothing() {
    let mut manager = ConfigManager::new(ResourceStore::new());
    let r = run_apply(&mut manager, test_spec(), &"prod".to_string(), Value::empty_object());
    match r {
        Err(ApplyError::TargetMismatch { expected, requested }) => {
            assert_eq!(expected, "dev");
            assert_eq!(requested, "prod");
        },
        _ => panic!("a mismatched target must be rejected"),
    }
    let adapter = manager.state_adapter();
    assert!(adapter.get_config(&"test-config".to_string()).is_none());
    assert_eq!(adapter.list_configs().len(), 0);
}

#[test]
fn test_state_written_before_provider_failure() {
    let mut manager = ConfigManager::new(ResourceStore::new());
    let r = run_apply(&mut manager, test_spec(), &"dev".to_string(), Value::empty_object());
    // the Ansible request is handed out for execution; whatever the external
    // tool then reports, exactly one record already stands for the name
    assert!(r.is_ok());
    let failed = tbd_cfg::ansible::interpret_run(tbd_cfg::ansible::ExitReport {
        success: false,
        stdout: "PLAY RECAP".to_string(),
        stderr: "could not open playbook".to_string(),
    });
    assert!(matches!(failed, Err(ApplyError::ExternalTool { .. })));
    let adapter = manager.state_adapter();
    assert_eq!(adapter.list_configs().len(), 1);
    assert!(adapter.get_config(&"test-config".to_string()).is_some());
}

#[test]
fn test_reapply_keeps_one_record() {
    let mut manager = ConfigManager::new(ResourceStore::new());
    let first = run_apply(&mut manager, test_spec(), &"dev".to_string(), Value::empty_object());
    assert!(first.is_ok());
    let mut second_spec = test_spec();
    second_spec.variables = obj(vec![("test", text("other"))]);
    let second = run_apply(&mut manager, second_spec, &"dev".to_string(), Value::empty_object());
    assert!(second.is_ok());
    let adapter = manager.state_adapter();
    assert_eq!(adapter.list_configs().len(), 1);
    assert_eq!(adapter.list_configs()[0], "test-config");
}

#[test]
fn test_shell_provider_stub_fails_loudly() {
    let mut manager = ConfigManager::new(ResourceStore::new());
    let spec = ConfigSpec {
        name: "sh".to_string(),
        target: "dev".to_string(),
        provider: ConfigProvider::Shell { script: "run.sh".to_string() },
        variables: Value::empty_object(),
    };
    let r = run_apply(&mut manager, spec, &"dev".to_string(), Value::empty_object());
    assert_eq!(r.unwrap_err(), ApplyError::ShellNotImplemented);
    // no request was handed out, so nothing can be invoked; the attempt is
    // still recorded
    assert_eq!(manager.state_adapter().list_configs().len(), 1);
}

#[test]
fn test_extra_vars_merged_into_apply() {
    let mut manager = ConfigManager::new(ResourceStore::new());
    let mut spec = test_spec();
    spec.variables = obj(vec![("a", Value::Int(1)), ("b", Value::Int(2))]);
    let extra = obj(vec![("b", Value::Int(3)), ("c", Value::Int(4))]);
    let request = run_apply(&mut manager, spec, &"dev".to_string(), extra).unwrap();
    assert_eq!(request.variables.get(&"a".to_string()), Some(&Value::Int(1)));
    assert_eq!(request.variables.get(&"b".to_string()), Some(&Value::Int(3)));
    assert_eq!(request.variables.get(&"c".to_string()), Some(&Value::Int(4)));
}

#[test]
fn test_state_adapter() {
    let mut adapter = StateAdapter::new(ResourceStore::new());
    let test_state = obj(vec![
        ("name", text("test")),
        ("target", text("dev")),
        ("variables", obj(vec![("key", text("value"))])),
    ]);
    adapter.add_config_state("test-config".to_string(), test_state.clone());

    let retrieved = adapter.get_config(&"test-config".to_string());
    assert!(retrieved.is_some());
    assert_eq!(retrieved.unwrap(), &test_state);

    let configs = adapter.list_configs();
    assert_eq!(configs.len(), 1);
    assert_eq!(configs[0], "test-config");

    adapter.remove_config(&"test-config".to_string()).unwrap();
    assert!(adapter.get_config(&"test-config".to_string()).is_none());
}

#[test]
fn test_remove_missing_config_fails() {
    let mut adapter = StateAdapter::new(ResourceStore::new());
    let r = adapter.remove_config(&"absent".to_string());
    assert_eq!(r, Err(ApplyError::StateStore { id: "absent".to_string() }));
    let msg = ApplyError::StateStore { id: "absent".to_string() }.message();
    assert!(msg.contains("absent"));
}

#[test]
fn test_adapter_ignores_foreign_records() {
    let mut store = ResourceStore::new();
    store.add_resource(Resource::new(
        "other-config".to_string(),
        "another-tool",
        text("foreign"),
    ));
    let adapter = StateAdapter::new(store);
    // a record owned by another subsystem is neither listed nor returned
    assert!(adapter.get_config(&"other-config".to_string()).is_none());
    assert_eq!(adapter.list_configs().len(), 0);
}
