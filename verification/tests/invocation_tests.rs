use agent_supervisor::invocation::{build_args, command_display};

#[test]
fn args_without_project_path() {
    let args = build_args(
        &"workspace_snap_agent.py".to_string(),
        &"/tmp/layout.json".to_string(),
        &None,
    );
    assert_eq!(
        args,
        vec![
            "workspace_snap_agent.py".to_string(),
            "--config".to_string(),
            "/tmp/layout.json".to_string(),
        ]
    );
}

#[test]
fn args_with_project_path() {
    let args = build_args(
        &"workspace_snap_agent.py".to_string(),
        &"/tmp/layout.json".to_string(),
        &Some("/home/u/proj".to_string()),
    );
    assert_eq!(
        args,
        vec![
            "workspace_snap_agent.py".to_string(),
            "--config".to_string(),
            "/tmp/layout.json".to_string(),
            "--project-path".to_string(),
            "/home/u/proj".to_string(),
        ]
    );
}

#[test]
fn command_line_without_project_path() {
    let args = build_args(
        &"workspace_snap_agent.py".to_string(),
        &"/tmp/layout.json".to_string(),
        &None,
    );
    let line = command_display(&"python3".to_string(), &args);
    assert_eq!(line, "python3 workspace_snap_agent.py --config /tmp/layout.json");
}

#[test]
fn command_line_with_project_path() {
    let args = build_args(
        &"workspace_snap_agent.py".to_string(),
        &"/tmp/layout.json".to_string(),
        &Some("/home/u/proj".to_string()),
    );
    let line = command_display(&"python3".to_string(), &args);
    assert_eq!(
        line,
        "python3 workspace_snap_agent.py --config /tmp/layout.json --project-path /home/u/proj"
    );
}

#[test]
fn command_display_of_bare_executable() {
    let line = command_display(&"python".to_string(), &Vec::new());
    assert_eq!(line, "python");
}
