use live_data::gate::{Admission, AdmissionGates, GateError};

fn names(list: &[&str]) -> Vec<String> {
    list.iter().map(|s| s.to_string()).collect()
}

#[test]
fn new_gates_are_free() {
    let gates = AdmissionGates::new(&names(&["A", "B"]));
    assert_eq!(gates.is_held("A"), Some(false));
    assert_eq!(gates.is_held("B"), Some(false));
    assert_eq!(gates.is_held("C"), None);
}

#[test]
fn second_acquire_is_busy_until_release() {
    let mut gates = AdmissionGates::new(&names(&["A", "B"]));
    assert_eq!(gates.try_acquire("A"), Ok(Admission::Admitted));
    assert_eq!(gates.try_acquire("A"), Ok(Admission::Busy));
    assert_eq!(gates.try_acquire("A"), Ok(Admission::Busy));
    assert_eq!(gates.is_held("A"), Some(true));
    assert_eq!(gates.release("A"), Ok(()));
    assert_eq!(gates.is_held("A"), Some(false));
    assert_eq!(gates.try_acquire("A"), Ok(Admission::Admitted));
}

#[test]
fn gates_of_different_nodes_are_independent() {
    let mut gates = AdmissionGates::new(&names(&["A", "B"]));
    assert_eq!(gates.try_acquire("A"), Ok(Admission::Admitted));
    assert_eq!(gates.try_acquire("B"), Ok(Admission::Admitted));
    assert_eq!(gates.release("B"), Ok(()));
    assert_eq!(gates.try_acquire("A"), Ok(Admission::Busy));
    assert_eq!(gates.try_acquire("B"), Ok(Admission::Admitted));
}

#[test]
fn unknown_node_has_no_gate() {
    let mut gates = AdmissionGates::new(&names(&["A"]));
    assert_eq!(gates.try_acquire("B"), Err(GateError::UnknownNode));
    assert_eq!(gates.release("B"), Err(GateError::UnknownNode));
    assert_eq!(gates.is_held("A"), Some(false));
}

#[test]
fn release_of_a_free_gate_leaves_it_free() {
    let mut gates = AdmissionGates::new(&names(&["A"]));
    assert_eq!(gates.release("A"), Ok(()));
    assert_eq!(gates.try_acquire("A"), Ok(Admission::Admitted));
    assert_eq!(gates.try_acquire("A"), Ok(Admission::Busy));
}
