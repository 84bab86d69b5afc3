use simulabra::model::python::{sim_subclass_answer, sim_subclass_test};

#[test]
fn the_subclass_test_is_python_code() {
    assert_eq!(sim_subclass_test("Agent", "Wolf"), "issubclass(Wolf, sim.Agent)");
    assert_eq!(sim_subclass_test("", ""), "issubclass(, sim.)");
}

#[test]
fn a_test_that_could_not_be_run_counts_as_no() {
    assert!(sim_subclass_answer(Some(true)));
    assert!(!sim_subclass_answer(Some(false)));
    assert!(!sim_subclass_answer(None));
}
