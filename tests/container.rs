use dangerzone_rust::{ContainerError, ContainerRunner, ContainerRuntime};

#[test]
fn test_new_container_runner() {
    let runner = ContainerRunner::new("test-container".to_string());
    assert_eq!(runner.container_name(), "test-container");
    assert_eq!(runner.runtime(), ContainerRuntime::Podman);
}

#[test]
fn test_with_runtime() {
    let runner =
        ContainerRunner::with_runtime("test-container".to_string(), ContainerRuntime::Docker);
    assert_eq!(runner.runtime(), ContainerRuntime::Docker);
}

#[test]
fn test_runtime_command() {
    assert_eq!(ContainerRuntime::Podman.command(), "podman");
    assert_eq!(ContainerRuntime::Docker.command(), "docker");
}

#[test]
fn test_invalid_container_name() {
    let runner = ContainerRunner::new("".to_string());
    let result = runner.run_arguments("alpine:latest", &["echo", "test"], &[]);
    assert!(matches!(result, Err(ContainerError::InvalidName(_))));
}

#[test]
fn test_library_exports() {
    let _: fn() -> Result<ContainerRunner, ContainerError> =
        || Ok(ContainerRunner::new("test-container".to_string()));
}

#[test]
fn run_arguments_order() {
    let runner = ContainerRunner::new("box".to_string());
    let args = runner
        .run_arguments("img:1", &["/usr/bin/python3", "-m", "conv"], &["-e", "DEBUG=1"])
        .unwrap();
    assert_eq!(
        args,
        vec!["run", "-i", "--rm", "--name", "box", "-e", "DEBUG=1", "img:1", "/usr/bin/python3", "-m", "conv"]
    );
}

#[test]
fn empty_name_message() {
    let runner = ContainerRunner::with_runtime(String::new(), ContainerRuntime::Docker);
    assert_eq!(
        runner.run_arguments("img", &[], &[]).unwrap_err(),
        ContainerError::InvalidName("Container name cannot be empty".to_string())
    );
}

#[test]
fn detect_prefers_podman() {
    assert_eq!(ContainerRuntime::detect(true, true).unwrap(), ContainerRuntime::Podman);
    assert_eq!(ContainerRuntime::detect(true, false).unwrap(), ContainerRuntime::Podman);
    assert_eq!(ContainerRuntime::detect(false, true).unwrap(), ContainerRuntime::Docker);
    assert_eq!(
        ContainerRuntime::detect(false, false).unwrap_err(),
        ContainerError::ExecutionFailed("No container runtime (podman or docker) found".to_string())
    );
}

#[test]
fn auto_runtime_runner() {
    let runner = ContainerRunner::with_auto_runtime("c".to_string(), false, true).unwrap();
    assert_eq!(runner.runtime(), ContainerRuntime::Docker);
    assert_eq!(runner.container_name(), "c");
    assert!(matches!(
        ContainerRunner::with_auto_runtime("c".to_string(), false, false),
        Err(ContainerError::ExecutionFailed(_))
    ));
}
