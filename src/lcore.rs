//! The command protocol of a logical core: a worker thread that runs one
//! task at a time for a controller thread.
//!
//! The two sides share a lifecycle state (`Wait`, then `Running`, then
//! `Finished`, then `Wait` again), a single-slot cell for the pending task
//! and a single-slot cell for its outcome. The controller stores a task only
//! while the state is `Wait`; the worker claims it, runs it, stores the
//! outcome, issues a release fence and marks the state `Finished`; the
//! controller sees `Finished`, issues an acquire fence, resets the state to
//! `Wait` and takes the outcome.
use std::sync::atomic::{AtomicUsize, Ordering};
use vstd::prelude::*;

verus! {

/// Relies on std::sync::atomic::fence: orders memory accesses around it as
/// `order` says; it returns nothing.
/// It panics on `Ordering::Relaxed`, which is therefore left out.
pub assume_specification[ std::sync::atomic::fence ](order: Ordering)
    requires
        order != Ordering::Relaxed,
;

/// The lifecycle state of a logical core.
#[derive(Copy, Clone, Debug, PartialEq, Eq, Structural)]
pub enum State {
    /// Idle, accepting a new task.
    Wait,
    /// The worker is running a task.
    Running,
    /// The outcome is ready and not yet collected.
    Finished,
}

/// Misuses of the protocol that the controller is told about.
#[derive(Copy, Clone, Debug, PartialEq, Eq, Structural)]
pub enum LcoreError {
    /// A task is in flight: a new one is refused.
    Busy,
    /// No task was launched: there is nothing to wait for.
    NotStarted,
}

/// What the controller learns when it looks for the outcome.
#[derive(Copy, Clone, Debug, PartialEq, Eq, Structural)]
pub enum Poll {
    /// The task is still running.
    Pending,
    /// The outcome is ready; the state is back to `Wait`.
    Ready,
}

impl State {
    /// The number that stands for the state in the shared atomic cell.
    pub open spec fn spec_code(self) -> usize {
        match self {
            State::Wait => 0,
            State::Running => 1,
            State::Finished => 2,
        }
    }

    /// The number that stands for the state in the shared atomic cell.
    pub fn code(&self) -> (r: usize)
        ensures
            r == self.spec_code(),
    {
        match self {
            State::Wait => 0,
            State::Running => 1,
            State::Finished => 2,
        }
    }
}

/// The state that a cell holding `code` is read as: only the worker's last
/// store moves a cell off `Wait` and `Running`.
pub open spec fn state_of(code: usize) -> State {
    if code == 0 {
        State::Wait
    } else if code == 1 {
        State::Running
    } else {
        State::Finished
    }
}

/// Whether a task may be launched in state `s`.
pub open spec fn launch_answer(s: State) -> Result<(), LcoreError> {
    if s == State::Wait {
        Ok(())
    } else {
        Err(LcoreError::Busy)
    }
}

/// What a look for the outcome finds in state `s`.
pub open spec fn poll_answer(s: State) -> Result<Poll, LcoreError> {
    match s {
        State::Wait => Err(LcoreError::NotStarted),
        State::Running => Ok(Poll::Pending),
        State::Finished => Ok(Poll::Ready),
    }
}

/// The state that a cell holding `code` is read as.
pub fn decode(code: usize) -> (r: State)
    ensures
        r == state_of(code),
{
    if code == State::Wait.code() {
        State::Wait
    } else if code == State::Running.code() {
        State::Running
    } else {
        State::Finished
    }
}

/// Whether a task may be launched when the cell holds `code`.
pub fn launch_decision(code: usize) -> (r: Result<(), LcoreError>)
    ensures
        r == launch_answer(state_of(code)),
{
    if code == State::Wait.code() {
        Ok(())
    } else {
        Err(LcoreError::Busy)
    }
}

/// What a look for the outcome finds when the cell holds `code`.
pub fn poll_decision(code: usize) -> (r: Result<Poll, LcoreError>)
    ensures
        r == poll_answer(state_of(code)),
{
    if code == State::Wait.code() {
        Err(LcoreError::NotStarted)
    } else if code == State::Running.code() {
        Ok(Poll::Pending)
    } else {
        Ok(Poll::Ready)
    }
}

/// The lifecycle state, shared by the controller and the worker.
pub struct StateCell {
    code: AtomicUsize,
}

impl StateCell {
    /// A cell in state `Wait`.
    pub fn new() -> (r: StateCell) {
        StateCell { code: AtomicUsize::new(State::Wait.code()) }
    }

    /// The state as last stored.
    pub fn load(&self) -> (r: State) {
        decode(self.code.load(Ordering::Relaxed))
    }

    /// Controller side: whether a task may be launched now. Only `Busy` is
    /// reported.
    pub fn try_launch(&self) -> (r: Result<(), LcoreError>)
        ensures
            r is Err ==> r == Err::<(), LcoreError>(LcoreError::Busy),
    {
        launch_decision(self.code.load(Ordering::Relaxed))
    }

    /// Controller side: one look for the outcome. On `Ready` an acquire
    /// fence makes the worker's stores visible and the state is reset to
    /// `Wait`. Only `NotStarted` is reported.
    pub fn poll(&self) -> (r: Result<Poll, LcoreError>)
        ensures
            r is Err ==> r == Err::<Poll, LcoreError>(LcoreError::NotStarted),
    {
        let r = poll_decision(self.code.load(Ordering::Relaxed));
        if let Ok(Poll::Ready) = r {
            std::sync::atomic::fence(Ordering::Acquire);
            self.code.store(State::Wait.code(), Ordering::Relaxed);
        }
        r
    }

    /// Worker side: the task has been claimed.
    pub fn mark_running(&self) {
        self.code.store(State::Running.code(), Ordering::Relaxed);
    }

    /// Worker side: the outcome is stored. A release fence orders that
    /// store before the state change.
    pub fn mark_finished(&self) {
        std::sync::atomic::fence(Ordering::Release);
        self.code.store(State::Finished.code(), Ordering::Relaxed);
    }
}

impl Default for StateCell {
    fn default() -> (r: StateCell) {
        StateCell::new()
    }
}

/// A cell that holds at most one value.
pub struct Slot<T> {
    item: Option<T>,
}

impl<T> View for Slot<T> {
    type V = Option<T>;

    closed spec fn view(&self) -> Option<T> {
        self.item
    }
}

impl<T> Slot<T> {
    /// An empty slot.
    pub fn new() -> (r: Slot<T>)
        ensures
            r@ is None,
    {
        Slot { item: None }
    }

    /// Whether the slot is empty.
    pub fn is_empty(&self) -> (r: bool)
        ensures
            r == self@ is None,
    {
        self.item.is_none()
    }

    /// Stores `v` in an empty slot; a full slot is left as it is and `v` is
    /// handed back.
    pub fn put(&mut self, v: T) -> (r: Result<(), T>)
        ensures
            old(self)@ is None ==> r is Ok && final(self)@ == Some(v),
            old(self)@ is Some ==> r == Err::<(), T>(v) && final(self)@ == old(self)@,
    {
        if self.item.is_some() {
            Err(v)
        } else {
            self.item = Some(v);
            Ok(())
        }
    }

    /// Takes the value out, leaving the slot empty.
    pub fn take(&mut self) -> (r: Option<T>)
        ensures
            r == old(self)@,
            final(self)@ is None,
    {
        self.item.take()
    }
}

/// The shared cells of one logical core: the state, the pending task and
/// the stored outcome.
pub struct Protocol<F, R> {
    pub state: State,
    pub task: Option<F>,
    pub outcome: Option<R>,
}

/// A logical core that has just been spawned: idle, both cells empty.
pub open spec fn idle<F, R>() -> Protocol<F, R> {
    Protocol { state: State::Wait, task: None, outcome: None }
}

/// Controller: launches `f`; the task is stored only in state `Wait`.
pub open spec fn launch<F, R>(p: Protocol<F, R>, f: F) -> (Protocol<F, R>, Result<(), LcoreError>) {
    match launch_answer(p.state) {
        Ok(()) => (Protocol { task: Some(f), ..p }, Ok(())),
        Err(e) => (p, Err(e)),
    }
}

/// Worker, on the controller's signal: marks the state `Running` and takes
/// the pending task.
pub open spec fn claim<F, R>(p: Protocol<F, R>) -> (Protocol<F, R>, Option<F>) {
    (Protocol { state: State::Running, task: None, ..p }, p.task)
}

/// Worker: stores the outcome of the task (its value or the failure it
/// raised) and marks the state `Finished`.
pub open spec fn complete<F, R>(p: Protocol<F, R>, out: R) -> Protocol<F, R> {
    Protocol { state: State::Finished, outcome: Some(out), ..p }
}

/// Controller: one look for the outcome; on `Ready` the outcome is taken
/// and the state reset to `Wait`.
pub open spec fn collect<F, R>(p: Protocol<F, R>) -> (Protocol<F, R>, Result<Poll, LcoreError>, Option<R>) {
    match poll_answer(p.state) {
        Ok(Poll::Ready) => (Protocol { state: State::Wait, outcome: None, ..p }, Ok(Poll::Ready), p.outcome),
        other => (p, other, None),
    }
}

/// One launch/wait round trip: the controller launches `f`, the worker
/// claims it and stores `out`, the controller collects.
pub open spec fn round_trip<F, R>(p: Protocol<F, R>, f: F, out: R) -> (Protocol<F, R>, Result<Poll, LcoreError>, Option<R>) {
    collect(complete(claim(launch(p, f).0).0, out))
}

/// The cells after a round trip for each (task, outcome) pair, in order.
pub open spec fn round_trips<F, R>(p: Protocol<F, R>, items: Seq<(F, R)>) -> Protocol<F, R>
    decreases items.len(),
{
    if items.len() == 0 {
        p
    } else {
        round_trips(round_trip(p, items[0].0, items[0].1).0, items.drop_first())
    }
}

/// Busy rejection: a launch in any state but `Wait` is refused as `Busy`
/// and changes nothing; in particular a second launch after the first task
/// was claimed, or after it finished but before its outcome was collected,
/// is refused.
pub proof fn lemma_busy_rejection<F, R>(p: Protocol<F, R>, f: F, g: F, out: R)
    ensures
        p.state != State::Wait ==> launch(p, f) == (p, Err::<(), LcoreError>(LcoreError::Busy)),
        ({
            let claimed = claim(launch(idle::<F, R>(), f).0).0;
            &&& launch(idle::<F, R>(), f).1 is Ok
            &&& launch(claimed, g).1 == Err::<(), LcoreError>(LcoreError::Busy)
            &&& launch(complete(claimed, out), g).1 == Err::<(), LcoreError>(LcoreError::Busy)
        }),
{
}

/// Waiting on a logical core that was given no task reports `NotStarted`.
pub proof fn lemma_wait_not_started<F, R>()
    ensures
        collect(idle::<F, R>()) == (idle::<F, R>(), Err::<Poll, LcoreError>(
            LcoreError::NotStarted,
        ), None::<R>),
{
}

/// Round trip: from an idle logical core, the worker claims exactly the task
/// launched, the controller collects exactly the outcome the worker stored
/// (a value or a captured failure), and the core is idle again, ready for
/// the next launch.
pub proof fn lemma_round_trip<F, R>(f: F, out: R)
    ensures
        claim(launch(idle::<F, R>(), f).0).1 == Some(f),
        round_trip(idle::<F, R>(), f, out) == (idle::<F, R>(), Ok::<Poll, LcoreError>(Poll::Ready), Some(
            out,
        )),
        launch(round_trip(idle::<F, R>(), f, out).0, f).1 is Ok,
{
}

/// Reuse: any number of round trips, one after the other, leaves the
/// logical core idle with both cells empty, as it was spawned.
pub proof fn lemma_reuse<F, R>(items: Seq<(F, R)>)
    ensures
        round_trips(idle::<F, R>(), items) == idle::<F, R>(),
    decreases items.len(),
{
    if items.len() > 0 {
        lemma_round_trip::<F, R>(items[0].0, items[0].1);
        lemma_reuse::<F, R>(items.drop_first());
    }
}

/// Number of CPUs that an affinity set can name.
pub const CPU_SETSIZE: usize = 1024;

/// The CPUs that a list of CPU indices names: index `c` is in the set when
/// the list holds `c`; indices from `CPU_SETSIZE` on name no CPU.
pub open spec fn cpus_named(cpuvec: Seq<usize>) -> Seq<bool> {
    Seq::new(CPU_SETSIZE as nat, |c: int| exists|j: int| 0 <= j < cpuvec.len() && cpuvec[j] == c)
}

/// The configuration of a logical core to be spawned: an optional thread
/// name and an optional CPU affinity set.
pub struct Builder {
    name: Option<String>,
    cpus: Option<Vec<bool>>,
}

impl Builder {
    /// The thread name set, if any.
    pub closed spec fn spec_name(&self) -> Option<String> {
        self.name
    }

    /// The affinity set, one flag per CPU, if any.
    pub closed spec fn spec_cpus(&self) -> Option<Seq<bool>> {
        match self.cpus {
            Some(v) => Some(v@),
            None => None,
        }
    }

    /// No name and no affinity.
    pub fn new() -> (r: Builder)
        ensures
            r.spec_name() is None,
            r.spec_cpus() is None,
    {
        Builder { name: None, cpus: None }
    }

    /// Names the thread of the logical core.
    pub fn name(self, name: String) -> (r: Builder)
        ensures
            r.spec_name() == Some(name),
            r.spec_cpus() == self.spec_cpus(),
    {
        Builder { name: Some(name), cpus: self.cpus }
    }

    /// Pins the logical core to the CPUs listed in `cpuvec`, replacing any
    /// earlier set. Indices from `CPU_SETSIZE` on have no effect.
    pub fn affinity(self, cpuvec: &[usize]) -> (r: Builder)
        ensures
            r.spec_name() == self.spec_name(),
            r.spec_cpus() == Some(cpus_named(cpuvec@)),
    {
        let mut cpus: Vec<bool> = Vec::new();
        let mut c: usize = 0;
        while c < CPU_SETSIZE
            invariant
                c <= CPU_SETSIZE,
                cpus@.len() == c,
                forall|i: int| 0 <= i < c ==> #[trigger] cpus@[i] == false,
            decreases CPU_SETSIZE - c,
        {
            cpus.push(false);
            c += 1;
        }
        let mut j: usize = 0;
        while j < cpuvec.len()
            invariant
                j <= cpuvec@.len(),
                cpus@.len() == CPU_SETSIZE,
                forall|i: int|
                    0 <= i < CPU_SETSIZE ==> #[trigger] cpus@[i] == exists|k: int|
                        0 <= k < j && cpuvec@[k] == i,
            decreases cpuvec@.len() - j,
        {
            let cpu = cpuvec[j];
            if cpu < CPU_SETSIZE {
                cpus.set(cpu, true);
            }
            j += 1;
            assert forall|i: int| 0 <= i < CPU_SETSIZE implies #[trigger] cpus@[i] == exists|k: int|
                0 <= k < j && cpuvec@[k] == i by {
                if cpus@[i] && i != cpu {
                    let k = choose|k: int| 0 <= k < j - 1 && cpuvec@[k] == i;
                    assert(0 <= k < j && cpuvec@[k] == i);
                }
                if i == cpu {
                    assert(0 <= j - 1 < j && cpuvec@[j - 1] == i);
                }
            }
        }
        assert(cpus@ =~= cpus_named(cpuvec@));
        Builder { name: self.name, cpus: Some(cpus) }
    }

    /// The name and the affinity set, one flag per CPU, handed over to
    /// whatever spawns the thread.
    pub fn into_parts(self) -> (r: (Option<String>, Option<Vec<bool>>))
        ensures
            r.0 == self.spec_name(),
            match r.1 {
                Some(v) => self.spec_cpus() == Some(v@),
                None => self.spec_cpus() is None,
            },
    {
        (self.name, self.cpus)
    }
}

impl Default for Builder {
    fn default() -> (r: Builder) {
        Builder::new()
    }
}

} // verus!
