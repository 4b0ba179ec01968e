use roa::movement::{AccelerationWrite, Movement, MovementCommand, MovementSystem, MOVE_ACCELERATION};
use roa::physics::PhysicsSystem;

#[test]
fn last_command_on_an_axis_wins() {
    let mut m = Movement::new();
    m.send(MovementCommand::Left);
    m.send(MovementCommand::Right);
    let mut sys = MovementSystem::new();
    let w = sys.run(&mut m);
    assert_eq!(w, AccelerationWrite { x: Some(64), y: None });
    assert!(m.receiver().is_empty());
}

#[test]
fn each_command_writes_its_axis() {
    let sys = MovementSystem::new();
    let cases = [
        (MovementCommand::Up, AccelerationWrite { x: None, y: Some(64) }),
        (MovementCommand::Down, AccelerationWrite { x: None, y: Some(-64) }),
        (MovementCommand::Left, AccelerationWrite { x: Some(-64), y: None }),
        (MovementCommand::Right, AccelerationWrite { x: Some(64), y: None }),
    ];
    for (c, expected) in cases {
        assert_eq!(sys.resolve(&vec![c]), expected);
    }
    assert_eq!(MOVE_ACCELERATION, 64);
}

#[test]
fn axes_are_independent_and_never_accumulate() {
    let sys = MovementSystem::new();
    let cmds = vec![
        MovementCommand::Right,
        MovementCommand::Up,
        MovementCommand::Right,
        MovementCommand::Right,
        MovementCommand::Down,
        MovementCommand::Left,
    ];
    assert_eq!(sys.resolve(&cmds), AccelerationWrite { x: Some(-64), y: Some(-64) });
}

#[test]
fn empty_queue_writes_nothing() {
    let mut m = Movement::new();
    let mut sys = MovementSystem::new();
    assert_eq!(sys.run(&mut m), AccelerationWrite { x: None, y: None });
}

#[test]
fn one_right_command_gives_full_thrust() {
    let mut m = Movement::new();
    m.send(MovementCommand::Right);
    assert_eq!(m.receiver().len(), 1);
    let drained = m.drain();
    assert_eq!(drained.len(), 1);
    assert!(m.receiver().is_empty());
    let w = MovementSystem::new().resolve(&drained);
    assert_eq!(w.x, Some(64));
    assert_eq!(w.y, None);
    let _physics = PhysicsSystem::new();
}
