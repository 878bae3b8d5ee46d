use agent_supervisor::locator::{resolve, CheckedLocation, ProbedLocation};

fn known(path: &str, exists: bool) -> ProbedLocation {
    ProbedLocation::Known { path: path.to_string(), exists }
}

#[test]
fn resource_in_first_location_only() {
    let probes = vec![
        known("/res/agent.py", true),
        known("/exe/agent.py", false),
        known("agent.py", false),
    ];
    assert_eq!(resolve(probes).unwrap(), "/res/agent.py");
}

#[test]
fn resource_in_second_location_only() {
    let probes = vec![
        known("/res/agent.py", false),
        known("/exe/agent.py", true),
        known("agent.py", false),
    ];
    assert_eq!(resolve(probes).unwrap(), "/exe/agent.py");
}

#[test]
fn resource_in_third_location_only() {
    let probes = vec![
        known("/res/agent.py", false),
        known("/exe/agent.py", false),
        known("agent.py", true),
    ];
    assert_eq!(resolve(probes).unwrap(), "agent.py");
}

#[test]
fn earlier_location_wins_over_later() {
    let probes = vec![
        known("/res/agent.py", false),
        known("/exe/agent.py", true),
        known("agent.py", true),
    ];
    assert_eq!(resolve(probes).unwrap(), "/exe/agent.py");
}

#[test]
fn missing_everywhere_lists_all_three_locations() {
    let probes = vec![
        known("/res/agent.py", false),
        known("/exe/agent.py", false),
        known("agent.py", false),
    ];
    let err = resolve(probes).unwrap_err();
    assert_eq!(err.checked.len(), 3);
    assert!(matches!(
        &err.checked[0],
        CheckedLocation::At { path } if path == "/res/agent.py"
    ));
    assert!(matches!(
        &err.checked[1],
        CheckedLocation::At { path } if path == "/exe/agent.py"
    ));
    assert!(matches!(
        &err.checked[2],
        CheckedLocation::At { path } if path == "agent.py"
    ));
}

#[test]
fn undetermined_location_is_skipped_and_marked() {
    let probes = vec![
        known("/res/agent.py", false),
        ProbedLocation::Undetermined,
        known("agent.py", false),
    ];
    let err = resolve(probes).unwrap_err();
    assert_eq!(err.checked.len(), 3);
    assert!(matches!(&err.checked[1], CheckedLocation::Undetermined));
}

#[test]
fn not_found_description_lists_locations_in_order() {
    let probes = vec![
        known("/res/agent.py", false),
        ProbedLocation::Undetermined,
        known("agent.py", false),
    ];
    let err = resolve(probes).unwrap_err();
    assert_eq!(
        err.description("agent.py"),
        "Resource 'agent.py' not found. Checked: /res/agent.py, unknown, agent.py"
    );
}

#[test]
fn undetermined_location_does_not_abort_the_search() {
    let probes = vec![
        ProbedLocation::Undetermined,
        known("/exe/agent.py", true),
        known("agent.py", false),
    ];
    assert_eq!(resolve(probes).unwrap(), "/exe/agent.py");
}

#[test]
fn no_probed_locations_fails_with_empty_list() {
    let err = resolve(Vec::new()).unwrap_err();
    assert_eq!(err.checked.len(), 0);
}
