use agent_supervisor::discovery::{
    default_interpreter, select_interpreter, unix_candidates, windows_candidates, Discovery,
};

fn names(list: &[&str]) -> Vec<String> {
    list.iter().map(|s| s.to_string()).collect()
}

#[test]
fn first_accepting_candidate_is_selected() {
    let candidates = names(&["python3", "python"]);
    let chosen = select_interpreter(&candidates, &vec![true, true], "python".to_string());
    assert_eq!(chosen, "python3");
}

#[test]
fn later_candidate_is_selected_when_earlier_probes_fail() {
    let candidates = names(&["py.exe", "python.exe", "python3.exe"]);
    let chosen = select_interpreter(&candidates, &vec![false, true, true], "python".to_string());
    assert_eq!(chosen, "python.exe");
}

#[test]
fn all_probes_failing_yields_the_fallback_name() {
    let candidates = names(&["python3", "python"]);
    let chosen = select_interpreter(&candidates, &vec![false, false], "python".to_string());
    assert_eq!(chosen, "python");
}

#[test]
fn no_candidates_yields_the_fallback_name() {
    let chosen = select_interpreter(&Vec::new(), &Vec::new(), "python".to_string());
    assert_eq!(chosen, "python");
}

#[test]
fn discovery_machine_stops_at_first_success() {
    let mut d = Discovery::new(names(&["py.exe", "python.exe", "python3.exe"]), "python".to_string());
    assert_eq!(d.pending().unwrap(), "py.exe");
    assert!(d.record(false).is_none());
    assert_eq!(d.pending().unwrap(), "python.exe");
    let chosen = d.record(true).unwrap();
    assert_eq!(chosen, "python.exe");
}

#[test]
fn discovery_machine_exhausts_to_fallback() {
    let mut d = Discovery::new(names(&["python3", "python"]), "python".to_string());
    assert_eq!(d.pending().unwrap(), "python3");
    assert!(d.record(false).is_none());
    assert_eq!(d.pending().unwrap(), "python");
    assert!(d.record(false).is_none());
    assert!(d.pending().is_none());
    assert_eq!(d.exhausted_fallback(), "python");
}

#[test]
fn platform_candidate_lists_are_in_documented_order() {
    let windows: Vec<String> = windows_candidates();
    assert_eq!(windows, names(&["py.exe", "python.exe", "python3.exe"]));
    let unix: Vec<String> = unix_candidates();
    assert_eq!(unix, names(&["python3", "python"]));
    assert_eq!(default_interpreter(), "python");
}
