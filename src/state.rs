//! The game-state stack and its per-frame protocols.
//!
//! States are held in push order: index 0 is the bottom (oldest), the last
//! index the top (newest). The stack never calls into a state itself. Each
//! protocol is a pass that names the next call to make; the driver makes it
//! and records the state's answer, and stack mutations that the answers ask
//! for are applied once the pass is finished.

use vstd::prelude::*;

verus! {

/// Fixed-step length: 1666 ms, in nanoseconds.
pub const FIXED_STEP_NS: u64 = 1666000000;

/// What a state asks of the stack after an update.
pub enum Update<S> {
    Nothing,
    Halt,
    Push(S),
    Pop,
    Swap(S),
}

/// What a state answers to an input event.
pub enum EventUpdate<S, E> {
    /// Hand this (possibly replaced) event to the next state.
    PassOn(E),
    /// Ask for a stack mutation; stops the event.
    Update(Update<S>),
    /// Stop the event here.
    Halt,
}

/// What applying a mutation did; popped states are handed back so that they
/// can be torn down, and a pushed state is the new top, to be set up.
pub enum Applied<S> {
    Pushed,
    Popped(Option<S>),
    Swapped(Option<S>),
    /// A `Nothing` or `Halt` reached the stack: a protocol misuse, dropped.
    Ignored,
}

/// A call the driver of a pass makes on the state at the given index.
#[derive(Clone, Copy, Debug, PartialEq, Eq, Structural)]
pub enum Call {
    Update(usize),
    FixedUpdate(usize),
}

pub open spec fn is_mutation<S>(u: Update<S>) -> bool {
    match u {
        Update::Nothing | Update::Halt => false,
        _ => true,
    }
}

/// The stack after a mutation is applied.
pub open spec fn apply_spec<S>(stack: Seq<S>, u: Update<S>) -> Seq<S> {
    match u {
        Update::Push(s) => stack.push(s),
        Update::Pop => if stack.len() > 0 {
            stack.drop_last()
        } else {
            stack
        },
        Update::Swap(s) => if stack.len() > 0 {
            stack.drop_last().push(s)
        } else {
            stack.push(s)
        },
        _ => stack,
    }
}

/// The state that a pop hands back.
pub open spec fn top_of<S>(stack: Seq<S>) -> Option<S> {
    if stack.len() > 0 {
        Some(stack.last())
    } else {
        None
    }
}

/// What `handle_update` reports for a mutation on a stack.
pub open spec fn applied_spec<S>(stack: Seq<S>, u: Update<S>, a: Applied<S>) -> bool {
    match u {
        Update::Push(_) => a is Pushed,
        Update::Pop => a == Applied::Popped(top_of(stack)),
        Update::Swap(_) => a == Applied::Swapped(top_of(stack)),
        _ => a is Ignored,
    }
}

/// The first update call of a frame on a stack of `count` states.
pub open spec fn first_call(count: nat) -> Option<Call> {
    if count > 0 {
        Some(Call::Update(0))
    } else {
        None
    }
}

pub open spec fn call_index(c: Call) -> nat {
    match c {
        Call::Update(i) => i as nat,
        Call::FixedUpdate(i) => i as nat,
    }
}

/// Where an update pass goes after state `i` answered `Nothing`: one more
/// fixed step for it while the accumulator exceeds the step (the step is
/// taken off first), else the update of the state above, else the end.
pub open spec fn resume(i: nat, acc: nat, step: nat, count: nat) -> (Option<Call>, nat) {
    if acc > step {
        (Some(Call::FixedUpdate(i as usize)), (acc - step) as nat)
    } else if i + 1 < count {
        (Some(Call::Update((i + 1) as usize)), acc)
    } else {
        (None, acc)
    }
}

/// The plain contents of an update pass.
pub struct UpdatePassView<S> {
    pub next: Option<Call>,
    pub elapsed: nat,
    pub accumulator: nat,
    pub step: nat,
    pub count: nat,
    pub pending: Option<Update<S>>,
}

/// One frame of the update protocol.
pub struct UpdatePass<S> {
    next: Option<Call>,
    elapsed: u64,
    accumulator: u64,
    step: u64,
    count: usize,
    pending: Option<Update<S>>,
}

impl<S> View for UpdatePass<S> {
    type V = UpdatePassView<S>;

    closed spec fn view(&self) -> UpdatePassView<S> {
        UpdatePassView {
            next: self.next,
            elapsed: self.elapsed as nat,
            accumulator: self.accumulator as nat,
            step: self.step as nat,
            count: self.count as nat,
            pending: self.pending,
        }
    }
}

/// The pass after the state named by `p.next` answered `r`. `Nothing` moves
/// on (see `resume`); `Halt` ends the pass with no mutation; anything else is
/// queued as the pass's mutation and ends it, so that states above the one
/// that asked are not updated this frame.
pub open spec fn record_spec<S>(p: UpdatePassView<S>, r: Update<S>) -> UpdatePassView<S> {
    match r {
        Update::Nothing => {
            let (next, acc) = resume(call_index(p.next.unwrap()), p.accumulator, p.step, p.count);
            UpdatePassView { next, accumulator: acc, ..p }
        },
        Update::Halt => UpdatePassView { next: None, ..p },
        _ => UpdatePassView { next: None, pending: Some(r), ..p },
    }
}

impl<S> UpdatePass<S> {
    /// The call to make next, or `None` when the frame's updates are done.
    pub fn next_call(&self) -> (r: Option<Call>)
        ensures
            r == self@.next,
    {
        self.next
    }

    /// The elapsed time, in nanoseconds, to hand to each state's `update`.
    pub fn elapsed(&self) -> (r: u64)
        ensures
            r == self@.elapsed,
    {
        self.elapsed
    }

    /// The fixed step, in nanoseconds, to hand to each `fixed_update`.
    pub fn step(&self) -> (r: u64)
        ensures
            r == self@.step,
    {
        self.step
    }

    /// Records the answer of the call named by `next_call`.
    pub fn record(&mut self, r: Update<S>)
        requires
            old(self)@.next is Some,
        ensures
            final(self)@ == record_spec(old(self)@, r),
    {
        let i = match self.next {
            Some(Call::Update(i)) => i,
            Some(Call::FixedUpdate(i)) => i,
            None => 0,
        };
        match r {
            Update::Nothing => {
                if self.accumulator > self.step {
                    self.accumulator = self.accumulator - self.step;
                    self.next = Some(Call::FixedUpdate(i));
                } else if i < self.count && i + 1 < self.count {
                    self.next = Some(Call::Update(i + 1));
                } else {
                    self.next = None;
                }
            },
            Update::Halt => {
                self.next = None;
            },
            _ => {
                self.next = None;
                self.pending = Some(r);
            },
        }
    }
}

/// The plain contents of an input pass.
pub struct InputPassView<S, E> {
    pub next: Option<nat>,
    pub event: E,
    pub count: nat,
    pub pending: Option<Update<S>>,
    pub rejected: bool,
}

/// One input event routed through the stack, bottom to top.
pub struct InputPass<S, E> {
    next: Option<usize>,
    event: E,
    count: usize,
    pending: Option<Update<S>>,
    rejected: bool,
}

impl<S, E> View for InputPass<S, E> {
    type V = InputPassView<S, E>;

    closed spec fn view(&self) -> InputPassView<S, E> {
        InputPassView {
            next: match self.next {
                Some(i) => Some(i as nat),
                None => None,
            },
            event: self.event,
            count: self.count as nat,
            pending: self.pending,
            rejected: self.rejected,
        }
    }
}

/// The input pass after the state at `p.next` answered `r`. `PassOn` replaces
/// the event and moves to the state above; `Update` with a mutation queues it
/// and stops; `Update` with `Nothing` or `Halt` is a misuse: it is dropped,
/// marked, and stops; `Halt` stops.
pub open spec fn input_record_spec<S, E>(p: InputPassView<S, E>, r: EventUpdate<S, E>) -> InputPassView<S, E> {
    match r {
        EventUpdate::PassOn(e) => {
            let i = p.next.unwrap();
            InputPassView {
                next: if i + 1 < p.count {
                    Some((i + 1) as nat)
                } else {
                    None
                },
                event: e,
                ..p
            }
        },
        EventUpdate::Update(u) => if is_mutation(u) {
            InputPassView { next: None, pending: Some(u), ..p }
        } else {
            InputPassView { next: None, rejected: true, ..p }
        },
        EventUpdate::Halt => InputPassView { next: None, ..p },
    }
}

impl<S, E> InputPass<S, E> {
    /// Index of the state to hand the event to next, or `None` when done.
    pub fn next_state(&self) -> (r: Option<usize>)
        ensures
            match r {
                Some(i) => self@.next == Some(i as nat),
                None => self@.next is None,
            },
    {
        self.next
    }

    /// The event as it stands: the one the pass started with, or the last
    /// replacement.
    pub fn event(&self) -> (r: &E)
        ensures
            *r == self@.event,
    {
        &self.event
    }

    /// Whether a state answered with `Update(Nothing)` or `Update(Halt)`.
    pub fn rejected(&self) -> (r: bool)
        ensures
            r == self@.rejected,
    {
        self.rejected
    }

    /// Records the answer of the state named by `next_state`.
    pub fn record(&mut self, r: EventUpdate<S, E>)
        requires
            old(self)@.next is Some,
        ensures
            final(self)@ == input_record_spec(old(self)@, r),
    {
        let i = match self.next {
            Some(i) => i,
            None => 0,
        };
        match r {
            EventUpdate::PassOn(e) => {
                self.event = e;
                if i < self.count && i + 1 < self.count {
                    self.next = Some(i + 1);
                } else {
                    self.next = None;
                }
            },
            EventUpdate::Update(u) => {
                self.next = None;
                match u {
                    Update::Nothing | Update::Halt => {
                        self.rejected = true;
                    },
                    _ => {
                        self.pending = Some(u);
                    },
                }
            },
            EventUpdate::Halt => {
                self.next = None;
            },
        }
    }
}

/// Relies on time::precise_time_ns: a reading of the crate's steady
/// high-resolution counter, in nanoseconds from an unspecified epoch. Nothing
/// is assumed of the value.
pub assume_specification[ time::precise_time_ns ]() -> u64;

/// The plain contents of a state stack.
pub struct StateMachineView<S> {
    pub stack: Seq<S>,
    /// Time not yet consumed by fixed steps, in nanoseconds.
    pub accumulator: nat,
    /// Last clock reading, in nanoseconds.
    pub last_time: nat,
    pub step: nat,
}

/// The stack of game states.
pub struct StateMachine<S> {
    stack: Vec<S>,
    last_tick: u64,
    last_time: u64,
    fixed_duration: u64,
}

impl<S> View for StateMachine<S> {
    type V = StateMachineView<S>;

    closed spec fn view(&self) -> StateMachineView<S> {
        StateMachineView {
            stack: self.stack@,
            accumulator: self.last_tick as nat,
            last_time: self.last_time as nat,
            step: self.fixed_duration as nat,
        }
    }
}

pub open spec fn saturating_sum(a: nat, b: nat) -> nat {
    if a + b > u64::MAX {
        u64::MAX as nat
    } else {
        a + b
    }
}

/// The pass that starts a frame's updates.
pub open spec fn start_spec<S>(m: StateMachineView<S>, elapsed: nat) -> UpdatePassView<S> {
    UpdatePassView {
        next: first_call(m.stack.len()),
        elapsed,
        accumulator: saturating_sum(m.accumulator, elapsed),
        step: m.step,
        count: m.stack.len(),
        pending: None,
    }
}

/// The pass that starts routing an event.
pub open spec fn input_start_spec<S, E>(m: StateMachineView<S>, e: E) -> InputPassView<S, E> {
    InputPassView {
        next: if m.stack.len() > 0 {
            Some(0)
        } else {
            None
        },
        event: e,
        count: m.stack.len(),
        pending: None,
        rejected: false,
    }
}

impl<S> StateMachine<S> {
    /// The fixed step is positive, so every fixed-step loop ends, and the
    /// counts fit the machine's integers.
    pub open spec fn wf(&self) -> bool {
        &&& self@.step > 0
        &&& self@.accumulator <= u64::MAX
        &&& self@.last_time <= u64::MAX
        &&& self@.stack.len() <= usize::MAX
    }

    /// An empty stack with the default fixed step; the clock is read once to
    /// start measuring frames.
    pub fn new() -> (r: StateMachine<S>)
        ensures
            r@.stack == Seq::<S>::empty(),
            r@.accumulator == 0,
            r@.step == FIXED_STEP_NS,
            r.wf(),
    {
        StateMachine {
            stack: Vec::new(),
            last_tick: 0,
            last_time: time::precise_time_ns(),
            fixed_duration: FIXED_STEP_NS,
        }
    }

    pub fn stack_size(&self) -> (r: usize)
        ensures
            r == self@.stack.len(),
    {
        self.stack.len()
    }

    /// The state at index `i` (0 is the bottom).
    pub fn state(&self, i: usize) -> (r: &S)
        requires
            i < self@.stack.len(),
        ensures
            *r == self@.stack[i as int],
    {
        &self.stack[i]
    }

    /// The state at index `i`, to call into.
    pub fn state_mut(&mut self, i: usize) -> (r: &mut S)
        requires
            i < old(self)@.stack.len(),
            old(self).wf(),
        ensures
            final(self).wf(),
            *r == old(self)@.stack[i as int],
            final(self)@ == (StateMachineView {
                stack: old(self)@.stack.update(i as int, *final(r)),
                ..old(self)@
            }),
    {
        &mut self.stack[i]
    }

    /// Puts a state on top. The caller sets it up.
    pub fn push_state(&mut self, state: S)
        requires
            old(self).wf(),
        ensures
            final(self).wf(),
            final(self)@ == (StateMachineView { stack: old(self)@.stack.push(state), ..old(self)@ }),
    {
        self.stack.push(state);
        let _size = self.stack.len();
    }

    /// Removes the top state and hands it back for teardown; an empty stack
    /// stays empty.
    pub fn pop_state(&mut self) -> (r: Option<S>)
        requires
            old(self).wf(),
        ensures
            final(self).wf(),
            r == top_of(old(self)@.stack),
            final(self)@ == (StateMachineView {
                stack: apply_spec(old(self)@.stack, Update::<S>::Pop),
                ..old(self)@
            }),
    {
        self.stack.pop()
    }

    /// Applies a stack mutation: `Push` pushes, `Pop` pops, `Swap` pops then
    /// pushes. `Nothing` and `Halt` change nothing and are reported as
    /// ignored.
    pub fn handle_update(&mut self, u: Update<S>) -> (r: Applied<S>)
        requires
            old(self).wf(),
        ensures
            final(self).wf(),
            final(self)@ == (StateMachineView { stack: apply_spec(old(self)@.stack, u), ..old(self)@ }),
            applied_spec(old(self)@.stack, u, r),
    {
        match u {
            Update::Push(state) => {
                self.push_state(state);
                Applied::Pushed
            },
            Update::Pop => Applied::Popped(self.pop_state()),
            Update::Swap(state) => {
                let old = self.pop_state();
                self.push_state(state);
                Applied::Swapped(old)
            },
            _ => Applied::Ignored,
        }
    }

    /// Starts a frame's updates with the given elapsed time, which is added
    /// to the fixed-step accumulator (saturating).
    pub fn begin_update(&mut self, elapsed: u64) -> (r: UpdatePass<S>)
        requires
            old(self).wf(),
        ensures
            final(self).wf(),
            r@ == start_spec(old(self)@, elapsed as nat),
            final(self)@ == old(self)@,
    {
        let accumulator = if self.last_tick > u64::MAX - elapsed {
            u64::MAX
        } else {
            self.last_tick + elapsed
        };
        UpdatePass {
            next: if self.stack.len() > 0 {
                Some(Call::Update(0))
            } else {
                None
            },
            elapsed,
            accumulator,
            step: self.fixed_duration,
            count: self.stack.len(),
            pending: None,
        }
    }

    /// Starts a frame's updates, measuring the time elapsed since the last
    /// reading of the clock (none if the clock reads earlier than before).
    pub fn update(&mut self) -> (r: UpdatePass<S>)
        requires
            old(self).wf(),
        ensures
            final(self).wf(),
            r@ == start_spec(old(self)@, r@.elapsed),
            r@.elapsed == (if final(self)@.last_time >= old(self)@.last_time {
                final(self)@.last_time - old(self)@.last_time
            } else {
                0
            }),
            final(self)@.stack == old(self)@.stack,
            final(self)@.accumulator == old(self)@.accumulator,
            final(self)@.step == old(self)@.step,
    {
        let now = time::precise_time_ns();
        let elapsed = if now >= self.last_time {
            now - self.last_time
        } else {
            0
        };
        self.last_time = now;
        self.begin_update(elapsed)
    }

    /// Ends a frame's updates: keeps what the fixed steps left of the
    /// accumulator and applies the mutation the pass queued, if any.
    pub fn finish_update(&mut self, pass: UpdatePass<S>) -> (r: Option<Applied<S>>)
        requires
            old(self).wf(),
        ensures
            final(self).wf(),
            final(self)@.accumulator == pass@.accumulator,
            final(self)@.step == old(self)@.step,
            final(self)@.last_time == old(self)@.last_time,
            match pass@.pending {
                None => r is None && final(self)@.stack == old(self)@.stack,
                Some(u) => match r {
                    Some(a) => final(self)@.stack == apply_spec(old(self)@.stack, u)
                        && applied_spec(old(self)@.stack, u, a),
                    None => false,
                },
            },
    {
        self.last_tick = pass.accumulator;
        match pass.pending {
            Some(u) => Some(self.handle_update(u)),
            None => None,
        }
    }

    /// Starts routing an event through the states, bottom to top.
    pub fn process_input<E>(&self, e: E) -> (r: InputPass<S, E>)
        ensures
            r@ == input_start_spec(self@, e),
    {
        InputPass {
            next: if self.stack.len() > 0 {
                Some(0)
            } else {
                None
            },
            event: e,
            count: self.stack.len(),
            pending: None,
            rejected: false,
        }
    }

    /// Ends routing an event: applies the mutation the pass queued, if any.
    pub fn finish_input<E>(&mut self, pass: InputPass<S, E>) -> (r: Option<Applied<S>>)
        requires
            old(self).wf(),
        ensures
            final(self).wf(),
            final(self)@.accumulator == old(self)@.accumulator,
            final(self)@.step == old(self)@.step,
            final(self)@.last_time == old(self)@.last_time,
            match pass@.pending {
                None => r is None && final(self)@.stack == old(self)@.stack,
                Some(u) => match r {
                    Some(a) => final(self)@.stack == apply_spec(old(self)@.stack, u)
                        && applied_spec(old(self)@.stack, u, a),
                    None => false,
                },
            },
    {
        match pass.pending {
            Some(u) => Some(self.handle_update(u)),
            None => None,
        }
    }

    /// The order in which states are drawn: bottom to top, so that the most
    /// recently pushed state paints last, on top of those below it.
    pub fn draw_order(&self) -> (r: Vec<usize>)
        ensures
            r@.len() == self@.stack.len(),
            forall|k: int| 0 <= k < r@.len() ==> r@[k] == k,
    {
        let n = self.stack.len();
        let mut order: Vec<usize> = Vec::new();
        let mut k: usize = 0;
        while k < n
            invariant
                k <= n,
                n == self@.stack.len(),
                order@.len() == k,
                forall|j: int| 0 <= j < k ==> order@[j] == j,
            decreases n - k,
        {
            order.push(k);
            k = k + 1;
        }
        order
    }
}

/// Fixed steps that an accumulator allows before it no longer exceeds the
/// step.
pub open spec fn fixed_steps(acc: nat, step: nat) -> nat
    decreases acc,
{
    if step > 0 && acc > step {
        1 + fixed_steps((acc - step) as nat, step)
    } else {
        0
    }
}

/// The pass after `k` answers of `Nothing`.
pub open spec fn after_nothing<S>(p: UpdatePassView<S>, k: nat) -> UpdatePassView<S>
    decreases k,
{
    if k == 0 {
        p
    } else {
        after_nothing(record_spec(p, Update::Nothing), (k - 1) as nat)
    }
}

proof fn lemma_fixed_run<S>(p: UpdatePassView<S>, i: nat)
    requires
        p.step > 0,
        p.next == Some(Call::Update(i as usize)) || p.next == Some(Call::FixedUpdate(i as usize)),
        i < p.count,
        p.count <= usize::MAX,
    ensures
        after_nothing(p, fixed_steps(p.accumulator, p.step) + 1).next == (if i + 1 < p.count {
            Some(Call::Update((i + 1) as usize))
        } else {
            None
        }),
        forall|k: nat|
            0 < k <= fixed_steps(p.accumulator, p.step) ==> after_nothing(p, k).next == Some(
                Call::FixedUpdate(i as usize),
            ),
    decreases p.accumulator,
{
    let q = record_spec(p, Update::Nothing);
    assert(call_index(p.next.unwrap()) == i);
    if p.accumulator > p.step {
        assert(q.next == Some(Call::FixedUpdate(i as usize)));
        assert(q.accumulator == p.accumulator - p.step);
        lemma_fixed_run(q, i);
        assert(fixed_steps(p.accumulator, p.step) == 1 + fixed_steps(q.accumulator, q.step));
        assert forall|k: nat| 0 < k <= fixed_steps(p.accumulator, p.step) implies after_nothing(
            p,
            k,
        ).next == Some(Call::FixedUpdate(i as usize)) by {
            assert(after_nothing(p, k) == after_nothing(q, (k - 1) as nat));
        }
    } else {
        assert(fixed_steps(p.accumulator, p.step) == 0);
        assert(after_nothing(p, 1) == after_nothing(q, 0));
    }
}

/// When a state's update answers `Nothing`, and so do the fixed steps it is
/// then given, the next call is the update of the state above it: a state
/// that asks for nothing does not keep the states above from updating.
pub proof fn law_nothing_passes_to_state_above<S>(p: UpdatePassView<S>, i: nat)
    requires
        p.step > 0,
        p.next == Some(Call::Update(i as usize)),
        i + 1 < p.count,
        p.count <= usize::MAX,
    ensures
        after_nothing(p, fixed_steps(p.accumulator, p.step) + 1).next == Some(
            Call::Update((i + 1) as usize),
        ),
        forall|k: nat|
            0 < k <= fixed_steps(p.accumulator, p.step) ==> after_nothing(p, k).next == Some(
                Call::FixedUpdate(i as usize),
            ),
{
    lemma_fixed_run(p, i);
}

/// On a well-formed stack of two or more states, whatever time elapsed: when
/// the bottom state's update and the fixed steps it is then given all answer
/// `Nothing`, those fixed steps are followed by the update of the state above
/// it; when the bottom state's update answers anything else, the frame's
/// updates end there and the state above is not updated.
pub proof fn law_bottom_state_does_not_block_above<S>(m: StateMachine<S>, elapsed: nat, r: Update<S>)
    requires
        m.wf(),
        m@.stack.len() >= 2,
    ensures
        after_nothing(
            start_spec(m@, elapsed),
            fixed_steps(start_spec(m@, elapsed).accumulator, m@.step) + 1,
        ).next == Some(Call::Update(1)),
        forall|k: nat|
            0 < k <= fixed_steps(start_spec(m@, elapsed).accumulator, m@.step) ==> after_nothing(
                start_spec(m@, elapsed),
                k,
            ).next == Some(Call::FixedUpdate(0)),
        !(r is Nothing) ==> record_spec(start_spec(m@, elapsed), r).next is None,
{
    law_nothing_passes_to_state_above(start_spec(m@, elapsed), 0);
}

/// Any answer but `Nothing` ends the frame's updates: no state above the one
/// that answered is updated, and only a real mutation is queued.
pub proof fn law_answer_ends_pass<S>(p: UpdatePassView<S>, r: Update<S>)
    requires
        p.next is Some,
        !(r is Nothing),
    ensures
        record_spec(p, r).next is None,
        record_spec(p, r).pending == (if is_mutation(r) {
            Some(r)
        } else {
            p.pending
        }),
{
}

/// An event passes upward only by `PassOn`: every other answer stops it,
/// and the state above never sees it.
pub proof fn law_event_stops_unless_passed_on<S, E>(p: InputPassView<S, E>, r: EventUpdate<S, E>)
    requires
        p.next is Some,
        !(r is PassOn),
    ensures
        input_record_spec(p, r).next is None,
        input_record_spec(p, r).event == p.event,
{
}

} // verus!
