use container_runtime::cgroup::CgroupConfig;
use container_runtime::config::{
    config_path, rootfs_path, ConfigError, Linux, LinuxCpu, LinuxMemory, LinuxNamespace,
    LinuxResources, OciConfig, Process, Root,
};
use serde_json::Value;

fn strings(value: Option<&Value>) -> Vec<String> {
    match value {
        Some(Value::Array(items)) => items
            .iter()
            .map(|item| item.as_str().expect("string").to_string())
            .collect(),
        _ => Vec::new(),
    }
}

fn config_from_json(input: &str) -> OciConfig {
    let value: Value = serde_json::from_str(input).expect("valid json");
    let process = &value["process"];
    let root = &value["root"];
    let linux = value.get("linux").map(|linux| Linux {
        namespaces: match linux.get("namespaces") {
            Some(Value::Array(items)) => items
                .iter()
                .map(|item| LinuxNamespace {
                    namespace_type: item["type"].as_str().expect("type").to_string(),
                })
                .collect(),
            _ => Vec::new(),
        },
        resources: linux.get("resources").map(|resources| LinuxResources {
            memory: resources.get("memory").map(|memory| LinuxMemory {
                limit: memory.get("limit").and_then(Value::as_i64),
            }),
            cpu: resources.get("cpu").map(|cpu| LinuxCpu {
                quota: cpu.get("quota").and_then(Value::as_i64),
                period: cpu.get("period").and_then(Value::as_u64),
            }),
        }),
    });
    OciConfig {
        process: Process {
            args: strings(process.get("args")),
            env: strings(process.get("env")),
            cwd: process.get("cwd").and_then(Value::as_str).map(str::to_string),
        },
        root: Root {
            path: root["path"].as_str().expect("root.path").to_string(),
            readonly: root.get("readonly").and_then(Value::as_bool).unwrap_or(false),
        },
        linux,
    }
}

fn parse_config(input: &str) -> Result<OciConfig, ConfigError> {
    let config = config_from_json(input);
    config.validate()?;
    Ok(config)
}

#[test]
fn parses_minimal_config() {
    let config = parse_config(
        r#"{
            "process": {
                "args": ["/bin/sh"],
                "env": ["PATH=/bin"],
                "cwd": "/tmp"
            },
            "root": {
                "path": "rootfs",
                "readonly": true
            }
        }"#,
    )
    .expect("valid config");

    assert_eq!(config.process.args, ["/bin/sh"]);
    assert_eq!(config.process.env, ["PATH=/bin"]);
    assert_eq!(config.process.cwd.as_deref(), Some("/tmp"));
    assert_eq!(config.root.path, "rootfs");
    assert!(config.root.readonly);
    assert!(config.linux.is_none());
}

#[test]
fn rejects_empty_process_args() {
    let error = parse_config(
        r#"{
            "process": { "args": [] },
            "root": { "path": "rootfs" }
        }"#,
    )
    .expect_err("empty args should be rejected");

    assert!(error.message().contains("process.args"));
}

#[test]
fn rejects_empty_root_path() {
    let error = parse_config(
        r#"{
            "process": { "args": ["/bin/sh"] },
            "root": { "path": " " }
        }"#,
    )
    .expect_err("empty root path should be rejected");

    assert!(error.message().contains("root.path"));
}

#[test]
fn takes_namespaces_and_limits_from_the_linux_section() {
    let config = parse_config(
        r#"{
            "process": { "args": ["/bin/sh"] },
            "root": { "path": "rootfs" },
            "linux": {
                "namespaces": [{ "type": "pid" }, { "type": "mount" }],
                "resources": {
                    "memory": { "limit": 268435456 },
                    "cpu": { "quota": 50000 }
                }
            }
        }"#,
    )
    .expect("valid config");

    assert_eq!(config.namespace_types(), ["pid", "mount"]);
    assert_eq!(
        config.cgroup_config(),
        Some(CgroupConfig {
            memory_limit: Some(268435456),
            cpu_quota: Some(50000),
            cpu_period: None,
        })
    );
    assert_eq!(rootfs_path("examples/bundle", &config), "examples/bundle/rootfs");
    assert_eq!(config_path("examples/bundle"), "examples/bundle/config.json");

    let bare = parse_config(r#"{ "process": { "args": ["x"] }, "root": { "path": "r" } }"#)
        .expect("valid config");
    assert!(bare.namespace_types().is_empty());
    assert_eq!(bare.cgroup_config(), None);
}

#[test]
fn root_path_of_only_whitespace_is_empty() {
    assert_eq!(
        parse_config(r#"{ "process": { "args": ["x"] }, "root": { "path": "\t\n" } }"#)
            .unwrap_err(),
        ConfigError::EmptyRootPath
    );
    assert_eq!(
        parse_config(r#"{ "process": { "args": [] }, "root": { "path": "" } }"#).unwrap_err(),
        ConfigError::EmptyArgs
    );
}
