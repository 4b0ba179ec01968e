//! Directional movement commands and the system that turns them into
//! acceleration.

use vstd::prelude::*;

verus! {

/// Magnitude, in units per second squared, that a command writes into one
/// axis of an entity's acceleration.
pub const MOVE_ACCELERATION: i32 = 64;

/// A directional command sent to an entity by input handling.
#[derive(Clone, Copy, Debug, PartialEq, Eq, Structural)]
pub enum MovementCommand {
    Up,
    Down,
    Left,
    Right,
}

/// The axis of acceleration that a command writes.
#[derive(Clone, Copy, Debug, PartialEq, Eq, Structural)]
pub enum Axis {
    Horizontal,
    Vertical,
}

pub open spec fn axis_of(c: MovementCommand) -> Axis {
    match c {
        MovementCommand::Up | MovementCommand::Down => Axis::Vertical,
        MovementCommand::Left | MovementCommand::Right => Axis::Horizontal,
    }
}

/// The value a command writes into its axis.
pub open spec fn value_of(c: MovementCommand) -> int {
    match c {
        MovementCommand::Up | MovementCommand::Right => MOVE_ACCELERATION as int,
        MovementCommand::Down | MovementCommand::Left => -MOVE_ACCELERATION,
    }
}

/// What a sequence of commands, processed in order, leaves in one axis:
/// the value of the last command on that axis, or nothing if none touched it.
pub open spec fn last_write(cmds: Seq<MovementCommand>, axis: Axis) -> Option<int>
    decreases cmds.len(),
{
    if cmds.len() == 0 {
        None
    } else if axis_of(cmds.last()) == axis {
        Some(value_of(cmds.last()))
    } else {
        last_write(cmds.drop_last(), axis)
    }
}

/// The per-entity inbound command queue, oldest command first.
pub struct Movement {
    queue: Vec<MovementCommand>,
}

impl View for Movement {
    type V = Seq<MovementCommand>;

    closed spec fn view(&self) -> Seq<MovementCommand> {
        self.queue@
    }
}

impl Movement {
    /// An entity's movement component with nothing queued.
    pub fn new() -> (r: Movement)
        ensures
            r@ == Seq::<MovementCommand>::empty(),
    {
        Movement { queue: Vec::new() }
    }

    /// Enqueues a command behind those already waiting.
    pub fn send(&mut self, c: MovementCommand)
        ensures
            final(self)@ == old(self)@.push(c),
    {
        self.queue.push(c);
    }

    /// The commands waiting to be processed, oldest first.
    pub fn receiver(&self) -> (r: &Vec<MovementCommand>)
        ensures
            r@ == self@,
    {
        &self.queue
    }

    /// Takes every waiting command, oldest first, leaving the queue empty.
    pub fn drain(&mut self) -> (r: Vec<MovementCommand>)
        ensures
            r@ == old(self)@,
            final(self)@ == Seq::<MovementCommand>::empty(),
    {
        let mut taken: Vec<MovementCommand> = Vec::new();
        std::mem::swap(&mut taken, &mut self.queue);
        taken
    }
}

/// The axes of an entity's acceleration that one movement pass overwrites,
/// with the value written; `None` leaves the axis as it was.
#[derive(Clone, Copy, Debug, PartialEq, Eq, Structural)]
pub struct AccelerationWrite {
    pub x: Option<i32>,
    pub y: Option<i32>,
}

pub open spec fn as_int(o: Option<i32>) -> Option<int> {
    match o {
        Some(v) => Some(v as int),
        None => None,
    }
}

/// The write that a sequence of commands amounts to.
pub open spec fn write_of(cmds: Seq<MovementCommand>, w: AccelerationWrite) -> bool {
    &&& as_int(w.x) == last_write(cmds, Axis::Horizontal)
    &&& as_int(w.y) == last_write(cmds, Axis::Vertical)
}

/// Drains movement queues into acceleration writes.
pub struct MovementSystem {}

impl MovementSystem {
    pub fn new() -> (r: MovementSystem) {
        MovementSystem {  }
    }

    /// Processes the commands in order; each overwrites its axis, so the last
    /// command on an axis decides it.
    pub fn resolve(&self, cmds: &Vec<MovementCommand>) -> (r: AccelerationWrite)
        ensures
            write_of(cmds@, r),
    {
        let mut x: Option<i32> = None;
        let mut y: Option<i32> = None;
        let mut i: usize = 0;
        while i < cmds.len()
            invariant
                i <= cmds.len(),
                as_int(x) == last_write(cmds@.take(i as int), Axis::Horizontal),
                as_int(y) == last_write(cmds@.take(i as int), Axis::Vertical),
            decreases cmds.len() - i,
        {
            let c = cmds[i];
            proof {
                assert(cmds@.take(i + 1).drop_last() =~= cmds@.take(i as int));
            }
            match c {
                MovementCommand::Up => y = Some(MOVE_ACCELERATION),
                MovementCommand::Down => y = Some(-MOVE_ACCELERATION),
                MovementCommand::Left => x = Some(-MOVE_ACCELERATION),
                MovementCommand::Right => x = Some(MOVE_ACCELERATION),
            }
            i = i + 1;
        }
        proof {
            assert(cmds@.take(cmds@.len() as int) =~= cmds@);
        }
        AccelerationWrite { x, y }
    }

    /// One tick for one entity: drains its queue without blocking and returns
    /// the acceleration write the drained commands amount to. An empty queue
    /// writes nothing.
    pub fn run(&mut self, m: &mut Movement) -> (r: AccelerationWrite)
        ensures
            write_of(old(m)@, r),
            final(m)@ == Seq::<MovementCommand>::empty(),
    {
        let cmds = m.drain();
        self.resolve(&cmds)
    }
}

/// A command overwrites its axis: whatever was processed before it, the axis
/// ends up holding exactly that command's value.
pub proof fn law_last_command_wins(earlier: Seq<MovementCommand>, c: MovementCommand)
    ensures
        last_write(earlier.push(c), axis_of(c)) == Some(value_of(c)),
{
    assert(earlier.push(c).last() == c);
}

/// Commands never accumulate: an axis holds nothing or one command's value,
/// which is plus or minus the fixed magnitude.
pub proof fn law_writes_never_accumulate(cmds: Seq<MovementCommand>, axis: Axis)
    ensures
        last_write(cmds, axis) == None::<int> || last_write(cmds, axis) == Some(
            MOVE_ACCELERATION as int,
        ) || last_write(cmds, axis) == Some(-MOVE_ACCELERATION),
    decreases cmds.len(),
{
    if cmds.len() > 0 && axis_of(cmds.last()) != axis {
        law_writes_never_accumulate(cmds.drop_last(), axis);
    }
}

/// Commands on one axis leave the other axis alone.
pub proof fn law_axes_independent(cmds: Seq<MovementCommand>, c: MovementCommand, axis: Axis)
    requires
        axis_of(c) != axis,
    ensures
        last_write(cmds.push(c), axis) == last_write(cmds, axis),
{
    assert(cmds.push(c).drop_last() =~= cmds);
}

} // verus!
