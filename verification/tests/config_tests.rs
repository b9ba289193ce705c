use tbd_cfg::config::{
    check_target, from_document, import_file_name, import_spec, to_document, ConfigProvider,
    ConfigSpec,
};
use tbd_cfg::errors::ApplyError;
use tbd_cfg::value::Value;

fn obj(entries: Vec<(&str, Value)>) -> Value {
    Value::Obj(entries.into_iter().map(|(k, v)| (k.to_string(), v)).collect())
}

fn text(s: &str) -> Value {
    Value::Text(s.to_string())
}

fn ansible_spec(name: &str) -> ConfigSpec {
    ConfigSpec {
        name: name.to_string(),
        target: "dev".to_string(),
        provider: ConfigProvider::Ansible {
            playbook: "playbook.yml".to_string(),
            inventory: "inventory.yml".to_string(),
        },
        variables: obj(vec![("port", Value::Int(80)), ("domain", text("example.com"))]),
    }
}

#[test]
fn test_config_parsing() {
    // the document form of a configuration file for an Ansible provider
    let doc = obj(vec![
        ("name", text("web-config")),
        ("target", text("dev")),
        (
            "provider",
            obj(vec![
                ("type", text("ansible")),
                ("playbook", text("playbook.yml")),
                ("inventory", text("inventory.yml")),
            ]),
        ),
        ("variables", obj(vec![("port", Value::Int(80)), ("domain", text("example.com"))])),
    ]);
    let config = from_document(doc).unwrap();
    assert_eq!(config.name, "web-config");
    assert_eq!(config.target, "dev");
    if let ConfigProvider::Ansible { playbook, inventory } = config.provider {
        assert_eq!(playbook, "playbook.yml".to_string());
        assert_eq!(inventory, "inventory.yml".to_string());
    } else {
        panic!("Wrong provider type parsed");
    }
}

#[test]
fn test_round_trip_ansible() {
    let spec = ansible_spec("web-config");
    let expected = ansible_spec("web-config");
    let parsed = from_document(to_document(spec)).unwrap();
    assert_eq!(parsed, expected);
}

#[test]
fn test_round_trip_shell() {
    let spec = ConfigSpec {
        name: "sh-config".to_string(),
        target: "prod".to_string(),
        provider: ConfigProvider::Shell { script: "run.sh".to_string() },
        variables: Value::empty_object(),
    };
    let expected = ConfigSpec {
        name: "sh-config".to_string(),
        target: "prod".to_string(),
        provider: ConfigProvider::Shell { script: "run.sh".to_string() },
        variables: Value::empty_object(),
    };
    let parsed = from_document(to_document(spec)).unwrap();
    assert_eq!(parsed, expected);
}

#[test]
fn test_from_document_missing_field() {
    let doc = obj(vec![("name", text("x")), ("target", text("dev"))]);
    assert_eq!(from_document(doc), Err(ApplyError::InvalidConfig));
}

#[test]
fn test_from_document_unknown_provider_tag() {
    let doc = obj(vec![
        ("name", text("x")),
        ("target", text("dev")),
        ("provider", obj(vec![("type", text("terraform"))])),
        ("variables", Value::empty_object()),
    ]);
    assert_eq!(from_document(doc), Err(ApplyError::InvalidConfig));
}

#[test]
fn test_from_document_not_an_object() {
    assert_eq!(from_document(Value::Int(3)), Err(ApplyError::InvalidConfig));
}

#[test]
fn test_check_target() {
    let spec = ansible_spec("web-config");
    assert!(check_target(&spec, &"dev".to_string()).is_ok());
    let err = check_target(&spec, &"prod".to_string()).unwrap_err();
    match &err {
        ApplyError::TargetMismatch { expected, requested } => {
            assert_eq!(expected, "dev");
            assert_eq!(requested, "prod");
        },
        _ => panic!("expected a target mismatch"),
    }
    let msg = err.message();
    assert!(msg.contains("dev"));
    assert!(msg.contains("prod"));
}

#[test]
fn test_import_defaults() {
    let spec = import_spec(
        "site.yml".to_string(),
        "hosts".to_string(),
        "imported".to_string(),
    );
    assert_eq!(spec.name, "imported");
    assert_eq!(spec.target, "dev");
    assert_eq!(
        spec.provider,
        ConfigProvider::Ansible { playbook: "site.yml".to_string(), inventory: "hosts".to_string() }
    );
    assert_eq!(spec.variables, Value::empty_object());
    assert_eq!(import_file_name(&"imported".to_string()), "imported.toml");
}
