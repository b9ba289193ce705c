use tbd_cfg::ansible::{
    cleanup_warning, interpret_install_check, interpret_run, interpret_validation, program_name,
    AnsibleWrapper, ExitReport,
};
use tbd_cfg::errors::ApplyError;

#[test]
fn test_wrapper_working_dir() {
    let wrapper = AnsibleWrapper::new();
    assert_eq!(wrapper.working_dir, "/tmp/tbd-cfg");
    assert_eq!(AnsibleWrapper::default().working_dir, "/tmp/tbd-cfg");
    assert_eq!(program_name(), "ansible-playbook");
}

#[test]
fn test_vars_file_path_is_namespaced() {
    let wrapper = AnsibleWrapper::new();
    let a = wrapper.vars_file_path(&"web".to_string());
    let b = wrapper.vars_file_path(&"db".to_string());
    assert_eq!(a, "/tmp/tbd-cfg/vars-web.json");
    assert_eq!(b, "/tmp/tbd-cfg/vars-db.json");
    assert_ne!(a, b);
}

#[test]
fn test_playbook_args() {
    let wrapper = AnsibleWrapper::new();
    let args = wrapper.playbook_args(
        &"play.yml".to_string(),
        &"hosts".to_string(),
        &"/tmp/tbd-cfg/vars-web.json".to_string(),
    );
    assert_eq!(
        args,
        vec![
            "-i".to_string(),
            "hosts".to_string(),
            "--extra-vars".to_string(),
            "@/tmp/tbd-cfg/vars-web.json".to_string(),
            "play.yml".to_string(),
        ]
    );
}

#[test]
fn test_syntax_check_and_version_args() {
    let wrapper = AnsibleWrapper::new();
    assert_eq!(
        wrapper.syntax_check_args(&"play.yml".to_string(), &"hosts".to_string()),
        vec![
            "--syntax-check".to_string(),
            "-i".to_string(),
            "hosts".to_string(),
            "play.yml".to_string(),
        ]
    );
    assert_eq!(wrapper.version_args(), vec!["--version".to_string()]);
}

#[test]
fn test_validate_playbook() {
    // a clean syntax check passes
    let ok = interpret_validation(ExitReport {
        success: true,
        stdout: "playbook: test.yml".to_string(),
        stderr: String::new(),
    });
    assert!(ok.is_ok());
}

#[test]
fn test_validation_failure_carries_diagnostics() {
    let err = interpret_validation(ExitReport {
        success: false,
        stdout: String::new(),
        stderr: "ERROR! unexpected token".to_string(),
    })
    .unwrap_err();
    match &err {
        ApplyError::ExternalTool { stderr, .. } => {
            assert_eq!(stderr, "ERROR! unexpected token");
        },
        _ => panic!("expected an external tool failure"),
    }
    assert!(err.message().contains("ERROR! unexpected token"));
}

#[test]
fn test_run_failure_carries_both_streams() {
    let err = interpret_run(ExitReport {
        success: false,
        stdout: "PLAY RECAP ok=0".to_string(),
        stderr: "fatal: host unreachable".to_string(),
    })
    .unwrap_err();
    let msg = err.message();
    assert!(msg.contains("PLAY RECAP ok=0"));
    assert!(msg.contains("fatal: host unreachable"));
}

#[test]
fn test_install_check() {
    assert!(interpret_install_check(ExitReport {
        success: true,
        stdout: "ansible-playbook [core]".to_string(),
        stderr: String::new(),
    })
    .is_ok());
    assert!(interpret_install_check(ExitReport {
        success: false,
        stdout: String::new(),
        stderr: "command not found".to_string(),
    })
    .is_err());
}

#[test]
fn test_cleanup_warning_is_distinct() {
    assert!(cleanup_warning(true, &"/tmp/tbd-cfg/vars-web.json".to_string()).is_none());
    let warning = cleanup_warning(false, &"/tmp/tbd-cfg/vars-web.json".to_string()).unwrap();
    assert_eq!(
        warning,
        ApplyError::CleanupFailed { path: "/tmp/tbd-cfg/vars-web.json".to_string() }
    );
    assert!(warning.message().contains("/tmp/tbd-cfg/vars-web.json"));
}

#[test]
fn test_cli_command_model() {
    let cli = tbd_cfg::cli::Cli {
        command: tbd_cfg::cli::Commands::Apply {
            config: "config.toml".to_string(),
            target: "dev".to_string(),
            vars: Some("{\"key\":\"value\"}".to_string()),
        },
    };
    match cli.command {
        tbd_cfg::cli::Commands::Apply { config, target, vars } => {
            assert_eq!(config, "config.toml");
            assert_eq!(target, "dev");
            assert_eq!(vars.unwrap(), "{\"key\":\"value\"}");
        },
        _ => panic!("Wrong command parsed"),
    }
}
