use soroban_debug::breakpoint::BreakpointManager;
use soroban_debug::state::DebugState;

#[test]
fn registered_names_break_and_removed_ones_do_not() {
    let mut m = BreakpointManager::new();
    assert!(!m.should_break("transfer"));
    m.add("transfer");
    m.add("mint");
    assert!(m.should_break("transfer"));
    assert!(m.should_break("mint"));
    assert!(!m.should_break("Transfer"));
    assert!(!m.should_break("burn"));
    m.remove("transfer");
    assert!(!m.should_break("transfer"));
    assert!(m.should_break("mint"));
}

#[test]
fn add_is_idempotent_and_remove_of_absent_is_a_no_op() {
    let mut m = BreakpointManager::new();
    m.add("f");
    m.add("f");
    m.remove("f");
    assert!(!m.should_break("f"));
    m.remove("never");
    assert!(!m.should_break("never"));
}

#[test]
fn debug_state_records_the_latest_function() {
    let mut s = DebugState::new();
    assert_eq!(s.current_function(), None);
    s.set_current_function("first".to_string());
    s.set_current_function("second".to_string());
    assert_eq!(s.current_function(), Some(&"second".to_string()));
}
