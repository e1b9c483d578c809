use agent_of_empires::containers::{
    batch_container_health, batch_health_args, build_create_args, docker_inspect_running,
    apple_inspect_running, get_container_runtime, parse_batch_running_states, runtime_binary, truncate_id,
    ContainerConfig, ContainerRuntimeName, DockerContainer, DockerError, VolumeMount,
};

#[test]
fn test_container_generate_name_short_id() {
    let name = DockerContainer::generate_name("abc");
    assert_eq!(name, "aoe-sandbox-abc");
}

#[test]
fn test_container_generate_name_long_id() {
    let name = DockerContainer::generate_name("abcdefghijklmnop");
    assert_eq!(name, "aoe-sandbox-abcdefgh");
}

#[test]
fn test_container_exec_command() {
    let container = DockerContainer::new("test1234567890ab", "ubuntu:latest", None);
    let cmd = container.exec_command(None, "my-agent");
    assert_eq!(cmd, "docker exec -it aoe-sandbox-test1234 my-agent");
}

#[test]
fn test_anonymous_volumes_in_create_args() {
    let container = DockerContainer::new("test1234567890ab", "alpine:latest", None);
    let config = ContainerConfig {
        working_dir: "/workspace/myproject".to_string(),
        volumes: vec![],
        anonymous_volumes: vec![
            "/workspace/myproject/target".to_string(),
            "/workspace/myproject/node_modules".to_string(),
        ],
        environment: vec![],
        cpu_limit: None,
        memory_limit: None,
        port_mappings: vec![],
    };

    let args = container.build_create_args(&config);

    let v_positions: Vec<usize> = args
        .iter()
        .enumerate()
        .filter(|(_, a)| *a == "-v")
        .map(|(i, _)| i)
        .collect();

    let volume_values: Vec<&str> = v_positions.iter().map(|&i| args[i + 1].as_str()).collect();

    assert!(volume_values.contains(&"/workspace/myproject/target"));
    assert!(volume_values.contains(&"/workspace/myproject/node_modules"));
}

#[test]
fn test_no_anonymous_volumes_when_empty() {
    let container = DockerContainer::new("test1234567890ab", "alpine:latest", None);
    let config = ContainerConfig {
        working_dir: "/workspace".to_string(),
        volumes: vec![],
        anonymous_volumes: vec![],
        environment: vec![],
        cpu_limit: None,
        memory_limit: None,
        port_mappings: vec![],
    };

    let args = container.build_create_args(&config);

    assert!(!args.contains(&"-v".to_string()));
}

fn sample_config() -> ContainerConfig {
    ContainerConfig {
        working_dir: "/workspace/proj".to_string(),
        volumes: vec![
            VolumeMount {
                host_path: "/home/u/proj".to_string(),
                container_path: "/workspace/proj".to_string(),
                read_only: false,
            },
            VolumeMount {
                host_path: "/home/u/.ssh".to_string(),
                container_path: "/root/.ssh".to_string(),
                read_only: true,
            },
        ],
        anonymous_volumes: vec![],
        environment: vec![("A".to_string(), "1".to_string())],
        cpu_limit: Some("2".to_string()),
        memory_limit: Some("4g".to_string()),
        port_mappings: vec!["8080:80".to_string()],
    }
}

#[test]
fn create_args_exact_layout() {
    let args = build_create_args("box", "img:1", &sample_config());
    let expected: Vec<String> = [
        "run", "-d", "--name", "box", "-w", "/workspace/proj", "-v", "/home/u/proj:/workspace/proj",
        "-v", "/home/u/.ssh:/root/.ssh:ro", "-p", "8080:80", "-e", "A=1", "--cpus", "2", "-m", "4g",
        "img:1", "sleep", "infinity",
    ]
    .iter()
    .map(|s| s.to_string())
    .collect();
    assert_eq!(args, expected);
}

#[test]
fn runtime_binary_follows_configuration() {
    assert_eq!(runtime_binary(None), "docker");
    assert_eq!(runtime_binary(Some(ContainerRuntimeName::Docker)), "docker");
    assert_eq!(runtime_binary(Some(ContainerRuntimeName::AppleContainer)), "container");
}

#[test]
fn apple_exec_command_wraps_in_shell() {
    let c = DockerContainer::new("abcdefgh12", "img", Some(ContainerRuntimeName::AppleContainer));
    assert_eq!(
        c.exec_command(Some("-e X=1"), "echo 'hi'"),
        "container exec -it -e X=1 aoe-sandbox-abcdefgh sh -c 'echo '\\''hi'\\'''"
    );
}

#[test]
fn truncate_id_counts_characters() {
    assert_eq!(truncate_id("ééééé", 3), "ééé");
    assert_eq!(truncate_id("ab", 8), "ab");
}

#[test]
fn batch_listing_keeps_only_sandboxes() {
    let out = "aoe-sandbox-a\trunning\nother-aoe-sandbox-b\trunning\naoe-sandbox-c\texited\nnotab\n\t\n";
    let states = parse_batch_running_states(out, "aoe-sandbox-");
    assert_eq!(
        states,
        vec![("aoe-sandbox-a".to_string(), true), ("aoe-sandbox-c".to_string(), false)]
    );
}

#[test]
fn batch_health_only_for_docker() {
    let docker = get_container_runtime(None);
    let apple = get_container_runtime(Some(ContainerRuntimeName::AppleContainer));
    let args = batch_health_args(&docker).unwrap();
    assert_eq!(args[3], "name=aoe-sandbox-");
    assert!(batch_health_args(&apple).is_none());
    assert_eq!(batch_container_health(&docker, Some("aoe-sandbox-x\trunning\n")).len(), 1);
    assert!(batch_container_health(&docker, None).is_empty());
    assert!(batch_container_health(&apple, Some("aoe-sandbox-x\trunning\n")).is_empty());
}

#[test]
fn docker_inspect_reads_true() {
    assert!(docker_inspect_running(true, " true\n"));
    assert!(!docker_inspect_running(true, "false"));
    assert!(!docker_inspect_running(false, "true"));
}

#[test]
fn queries_per_runtime() {
    let d = DockerContainer::from_session_id("0123456789", None);
    assert_eq!(d.exists_args(), vec!["container", "inspect", "aoe-sandbox-01234567"]);
    assert_eq!(
        d.is_running_args(),
        vec!["container", "inspect", "-f", "{{.State.Running}}", "aoe-sandbox-01234567"]
    );
    let a = DockerContainer::from_session_id("0123456789", Some(ContainerRuntimeName::AppleContainer));
    assert_eq!(a.exists_args(), vec!["logs", "aoe-sandbox-01234567"]);
    assert_eq!(a.is_running_args(), vec!["inspect", "aoe-sandbox-01234567"]);
}

#[test]
fn is_running_reads_each_runtime() {
    let d = DockerContainer::from_session_id("s", None);
    assert!(matches!(d.is_running(true, b"true\n", "true\n"), Ok(true)));
    assert!(matches!(d.is_running(false, b"true", "true"), Ok(false)));
    let a = DockerContainer::from_session_id("s", Some(ContainerRuntimeName::AppleContainer));
    let json = br#"[{"status":"running"}]"#;
    assert!(matches!(a.is_running(true, json, ""), Ok(true)));
    let stopped = br#"[{"status":"stopped"}]"#;
    assert!(matches!(a.is_running(true, stopped, ""), Ok(false)));
    assert!(matches!(a.is_running(true, b"[]", ""), Ok(false)));
    assert!(matches!(a.is_running(true, b"not json", ""), Err(DockerError::CommandFailed(_))));
}

#[test]
fn create_refuses_existing_container() {
    let d = DockerContainer::new("sess", "img", None);
    match d.create(&sample_config(), true) {
        Err(DockerError::ContainerAlreadyExists(n)) => assert_eq!(n, "aoe-sandbox-sess"),
        _ => panic!("expected ContainerAlreadyExists"),
    }
    let args = d.create(&sample_config(), false).ok().unwrap();
    assert_eq!(args[0], "run");
}

#[test]
fn apple_status_must_be_the_string_running() {
    assert_eq!(apple_inspect_running(br#"[{"status":"running"}]"#), Ok(true));
    assert_eq!(apple_inspect_running(br#"[{"status":"stopped"}]"#), Ok(false));
    assert_eq!(apple_inspect_running(br#"[{"status":1}]"#), Ok(false));
    assert_eq!(apple_inspect_running(br#"[{"state":"running"}]"#), Ok(false));
    assert_eq!(apple_inspect_running(br#"{"0":{"status":"running"}}"#), Ok(true));
    assert!(apple_inspect_running(b"{").is_err());
}
