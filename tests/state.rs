use roa::state::{Applied, Call, EventUpdate, StateMachine, Update, FIXED_STEP_NS};

fn two_states() -> StateMachine<&'static str> {
    let mut m = StateMachine::new();
    m.push_state("G");
    m.push_state("P");
    m
}

#[test]
fn update_reaches_state_above_after_nothing() {
    let mut m = two_states();
    let mut pass = m.begin_update(10);
    assert_eq!(pass.next_call(), Some(Call::Update(0)));
    pass.record(Update::Nothing);
    assert_eq!(pass.next_call(), Some(Call::Update(1)));
    pass.record(Update::Nothing);
    assert_eq!(pass.next_call(), None);
    assert!(m.finish_update(pass).is_none());
    assert_eq!(m.stack_size(), 2);
}

#[test]
fn update_halt_skips_state_above() {
    let mut m = two_states();
    let mut pass = m.begin_update(10);
    assert_eq!(pass.next_call(), Some(Call::Update(0)));
    pass.record(Update::Halt);
    assert_eq!(pass.next_call(), None);
    assert!(m.finish_update(pass).is_none());
    assert_eq!(m.stack_size(), 2);
}

#[test]
fn fixed_steps_run_before_the_next_state() {
    let mut m = two_states();
    let mut pass = m.begin_update(2 * FIXED_STEP_NS + 5);
    assert_eq!(pass.step(), FIXED_STEP_NS);
    assert_eq!(pass.elapsed(), 2 * FIXED_STEP_NS + 5);
    pass.record(Update::Nothing);
    assert_eq!(pass.next_call(), Some(Call::FixedUpdate(0)));
    pass.record(Update::Nothing);
    assert_eq!(pass.next_call(), Some(Call::FixedUpdate(0)));
    pass.record(Update::Nothing);
    assert_eq!(pass.next_call(), Some(Call::Update(1)));
    pass.record(Update::Nothing);
    assert_eq!(pass.next_call(), None);
    m.finish_update(pass);
    // 5 ns are left over for the next frame: one more step is not reached.
    let mut next = m.begin_update(FIXED_STEP_NS - 5);
    next.record(Update::Nothing);
    assert_eq!(next.next_call(), Some(Call::Update(1)));
    m.finish_update(next);
    // Now exactly one step is accumulated; one more nanosecond exceeds it.
    let mut last = m.begin_update(1);
    assert_eq!(last.next_call(), Some(Call::Update(0)));
    last.record(Update::Nothing);
    assert_eq!(last.next_call(), Some(Call::FixedUpdate(0)));
}

#[test]
fn mutation_from_fixed_update_is_applied_after_the_pass() {
    let mut m = two_states();
    let mut pass = m.begin_update(FIXED_STEP_NS + 1);
    pass.record(Update::Nothing);
    assert_eq!(pass.next_call(), Some(Call::FixedUpdate(0)));
    pass.record(Update::Push("Q"));
    assert_eq!(pass.next_call(), None);
    assert!(matches!(m.finish_update(pass), Some(Applied::Pushed)));
    assert_eq!(m.stack_size(), 3);
    assert_eq!(*m.state(2), "Q");
}

#[test]
fn empty_stack_updates_nothing() {
    let mut m: StateMachine<u8> = StateMachine::new();
    let pass = m.update();
    assert_eq!(pass.next_call(), None);
    assert!(m.finish_update(pass).is_none());
}

#[test]
fn clock_driven_update_starts_at_bottom() {
    let mut m = two_states();
    let pass = m.update();
    assert_eq!(pass.next_call(), Some(Call::Update(0)));
}

#[test]
fn draw_goes_bottom_to_top() {
    let m = two_states();
    // G (index 0) is drawn strictly before P (index 1), which paints on top.
    assert_eq!(m.draw_order(), vec![0, 1]);
    let mut three = two_states();
    three.push_state("Q");
    assert_eq!(three.draw_order(), vec![0, 1, 2]);
    let empty: StateMachine<u8> = StateMachine::new();
    assert!(empty.draw_order().is_empty());
}

#[test]
fn handle_update_mutates_the_stack() {
    let mut m = two_states();
    assert!(matches!(m.handle_update(Update::Swap("S")), Applied::Swapped(Some("P"))));
    assert_eq!(*m.state(1), "S");
    assert!(matches!(m.handle_update(Update::Pop), Applied::Popped(Some("S"))));
    assert!(matches!(m.handle_update(Update::Nothing), Applied::Ignored));
    assert!(matches!(m.handle_update(Update::Halt), Applied::Ignored));
    assert_eq!(m.stack_size(), 1);
    assert!(matches!(m.handle_update(Update::Pop), Applied::Popped(Some("G"))));
    assert!(matches!(m.handle_update(Update::Pop), Applied::Popped(None)));
    assert_eq!(m.pop_state(), None);
    assert!(matches!(m.handle_update(Update::Push("N")), Applied::Pushed));
    assert_eq!(m.stack_size(), 1);
    *m.state_mut(0) = "M";
    assert_eq!(*m.state(0), "M");
}

#[test]
fn input_passes_on_bottom_to_top() {
    let mut m = two_states();
    let mut pass = m.process_input(1u32);
    assert_eq!(pass.next_state(), Some(0));
    assert_eq!(*pass.event(), 1);
    pass.record(EventUpdate::PassOn(2));
    assert_eq!(pass.next_state(), Some(1));
    assert_eq!(*pass.event(), 2);
    pass.record(EventUpdate::Update(Update::Pop));
    assert_eq!(pass.next_state(), None);
    assert!(matches!(m.finish_input(pass), Some(Applied::Popped(Some("P")))));
    assert_eq!(m.stack_size(), 1);
}

#[test]
fn input_halt_and_misuse_stop_the_event() {
    let mut m = two_states();
    let mut pass = m.process_input(1u32);
    pass.record(EventUpdate::Halt);
    assert_eq!(pass.next_state(), None);
    assert!(!pass.rejected());
    assert!(m.finish_input(pass).is_none());

    let mut pass = m.process_input(1u32);
    pass.record(EventUpdate::Update(Update::Nothing));
    assert_eq!(pass.next_state(), None);
    assert!(pass.rejected());
    assert!(m.finish_input(pass).is_none());
    assert_eq!(m.stack_size(), 2);
}
