//! Runtime services: handles, the task scheduler, actor mailboxes, the sandbox
//! policy and the deterministic clock.

use vstd::prelude::*;
use std::collections::VecDeque;
use crate::codec::{le_bytes, push_all, push_le};
use crate::crypto::{sha3_256, sha3_256_digest};

verus! {

/// Identifier of a cell of the hybrid heap.
#[derive(Debug, Clone, Copy, PartialEq, Eq, Hash, Structural)]
pub struct HandleId(pub usize);

/// Identifier of a task spawned on a [`TaskScheduler`].
#[derive(Debug, Clone, Copy, PartialEq, Eq, Hash, Structural)]
pub struct TaskId(pub usize);

/// Identifier of an actor of an [`ActorSystem`].
#[derive(Debug, Clone, Copy, PartialEq, Eq, Hash, Structural)]
pub struct ActorId(pub usize);

/// Lifecycle of a task.
#[derive(Debug, Clone)]
pub enum TaskState<T> {
    Ready,
    Running,
    Completed(T),
    Failed(String),
}

/// What the scheduler knows of one task.
#[derive(Debug, Clone)]
pub struct TaskRecord<T> {
    pub label: String,
    pub state: TaskState<T>,
}

/// A queue of tasks with their records.
///
/// Task ids are handed out in increasing order starting at 0, and the record
/// of the task with id `i` is the `i`-th record.
#[derive(Debug, Clone)]
pub struct TaskScheduler<T> {
    next: usize,
    queue: VecDeque<TaskId>,
    tasks: Vec<TaskRecord<T>>,
    deterministic: bool,
}

/// A sequence of ids is strictly increasing.
pub open spec fn strictly_increasing(ids: Seq<usize>) -> bool {
    forall|i: int, j: int| 0 <= i < j < ids.len() ==> ids[i] < ids[j]
}

impl<T> TaskScheduler<T> {
    /// The records of all spawned tasks; the record of task `i` is at index `i`.
    pub closed spec fn records(&self) -> Seq<TaskRecord<T>> {
        self.tasks@
    }

    /// The ids waiting in the run queue, front first.
    pub closed spec fn queued(&self) -> Seq<usize> {
        self.queue@.map_values(|id: TaskId| id.0)
    }

    /// Whether the scheduler was created in deterministic mode.
    pub closed spec fn is_deterministic(&self) -> bool {
        self.deterministic
    }

    /// The well-formedness of a scheduler: every queued id names a spawned
    /// task, and the queue holds ids in increasing order.
    pub closed spec fn wf(&self) -> bool {
        &&& self.next == self.tasks@.len()
        &&& strictly_increasing(self.queued())
        &&& forall|i: int| 0 <= i < self.queued().len() ==> self.queued()[i] < self.next
    }

    /// Creates an empty scheduler.
    pub fn new(deterministic: bool) -> (s: Self)
        ensures
            s.wf(),
            s.records() == Seq::<TaskRecord<T>>::empty(),
            s.queued() == Seq::<usize>::empty(),
            s.is_deterministic() == deterministic,
    {
        let s = TaskScheduler { next: 0, queue: VecDeque::new(), tasks: Vec::new(), deterministic };
        assert(s.queued() =~= Seq::<usize>::empty());
        s
    }

    /// Registers a new task in state `Ready` and queues it; returns its id,
    /// which is the number of tasks spawned before.
    pub fn spawn(&mut self, label: String) -> (id: TaskId)
        requires
            old(self).wf(),
            old(self).records().len() < usize::MAX,
        ensures
            final(self).wf(),
            id.0 == old(self).records().len(),
            final(self).records() == old(self).records().push(
                TaskRecord { label, state: TaskState::Ready },
            ),
            final(self).queued() == old(self).queued().push(id.0),
            strictly_increasing(final(self).queued()),
            final(self).is_deterministic() == old(self).is_deterministic(),
    {
        let id = TaskId(self.next);
        self.next = self.next + 1;
        self.tasks.push(TaskRecord { label, state: TaskState::Ready });
        let ghost old_q = self.queue@;
        self.queue.push_back(id);
        assert(self.queued() =~= old(self).queued().push(id.0)) by {
            assert(self.queue@ =~= old_q.push(id));
        }
        id
    }

    /// Replaces the state of a spawned task; unknown ids are ignored.
    fn set_state(&mut self, id: TaskId, state: TaskState<T>)
        requires
            old(self).wf(),
        ensures
            final(self).wf(),
            final(self).records() == (if id.0 < old(self).records().len() {
                old(self).records().update(
                    id.0 as int,
                    TaskRecord { label: old(self).records()[id.0 as int].label, state },
                )
            } else {
                old(self).records()
            }),
            final(self).queued() == old(self).queued(),
            final(self).is_deterministic() == old(self).is_deterministic(),
    {
        if id.0 < self.tasks.len() {
            let label = self.tasks[id.0].label.clone();
            self.tasks.set(id.0, TaskRecord { label, state });
        }
    }

    /// Marks a task as running; unknown ids are ignored.
    pub fn start(&mut self, id: TaskId)
        requires
            old(self).wf(),
        ensures
            final(self).wf(),
            final(self).records() == (if id.0 < old(self).records().len() {
                old(self).records().update(
                    id.0 as int,
                    TaskRecord { label: old(self).records()[id.0 as int].label, state: TaskState::Running },
                )
            } else {
                old(self).records()
            }),
            final(self).queued() == old(self).queued(),
            final(self).is_deterministic() == old(self).is_deterministic(),
    {
        self.set_state(id, TaskState::Running);
    }

    /// Records the value a task completed with; unknown ids are ignored.
    pub fn complete(&mut self, id: TaskId, value: T)
        requires
            old(self).wf(),
        ensures
            final(self).wf(),
            final(self).records() == (if id.0 < old(self).records().len() {
                old(self).records().update(
                    id.0 as int,
                    TaskRecord { label: old(self).records()[id.0 as int].label, state: TaskState::Completed(value) },
                )
            } else {
                old(self).records()
            }),
            final(self).queued() == old(self).queued(),
            final(self).is_deterministic() == old(self).is_deterministic(),
    {
        self.set_state(id, TaskState::Completed(value));
    }

    /// Records the failure message of a task; unknown ids are ignored.
    pub fn fail(&mut self, id: TaskId, message: String)
        requires
            old(self).wf(),
        ensures
            final(self).wf(),
            final(self).records() == (if id.0 < old(self).records().len() {
                old(self).records().update(
                    id.0 as int,
                    TaskRecord { label: old(self).records()[id.0 as int].label, state: TaskState::Failed(message) },
                )
            } else {
                old(self).records()
            }),
            final(self).queued() == old(self).queued(),
            final(self).is_deterministic() == old(self).is_deterministic(),
    {
        self.set_state(id, TaskState::Failed(message));
    }

    /// Takes the next task off the run queue.
    ///
    /// In deterministic mode the queue is first ordered by id; the queue is
    /// always kept in increasing id order, so in both modes the front of the
    /// queue is its smallest id.
    pub fn take_next(&mut self) -> (next: Option<TaskId>)
        requires
            old(self).wf(),
        ensures
            final(self).wf(),
            final(self).records() == old(self).records(),
            final(self).is_deterministic() == old(self).is_deterministic(),
            strictly_increasing(final(self).queued()),
            old(self).queued().len() == 0 ==> next is None && final(self).queued() == old(self).queued(),
            old(self).queued().len() > 0 ==> {
                &&& next == Some(TaskId(old(self).queued()[0]))
                &&& final(self).queued() == old(self).queued().drop_first()
                &&& forall|i: int| 0 <= i < old(self).queued().len() ==> old(self).queued()[0] <= #[trigger] old(self).queued()[i]
            },
    {
        let ghost old_q = self.queue@;
        let r = self.queue.pop_front();
        proof {
            if old_q.len() > 0 {
                assert(self.queued() =~= old(self).queued().drop_first());
                assert forall|i: int| 0 <= i < old(self).queued().len() implies old(self).queued()[0] <= #[trigger] old(self).queued()[i] by {
                    if i > 0 {
                        assert(old(self).queued()[0] < old(self).queued()[i]);
                    }
                }
            }
            assert(strictly_increasing(self.queued())) by {
                assert forall|i: int, j: int| 0 <= i < j < self.queued().len() implies self.queued()[i] < self.queued()[j] by {
                    assert(self.queued()[i] == old(self).queued()[i + 1]);
                    assert(self.queued()[j] == old(self).queued()[j + 1]);
                }
            }
        }
        r
    }

    /// The record of a task, if it was spawned.
    pub fn get(&self, id: TaskId) -> (r: Option<&TaskRecord<T>>)
        requires
            self.wf(),
        ensures
            id.0 < self.records().len() ==> r == Some(&self.records()[id.0 as int]),
            id.0 >= self.records().len() ==> r is None,
    {
        if id.0 < self.tasks.len() {
            Some(&self.tasks[id.0])
        } else {
            None
        }
    }
}

impl<T> Default for TaskScheduler<T> {
    fn default() -> (s: Self)
        ensures
            s.wf(),
            s.records() == Seq::<TaskRecord<T>>::empty(),
            s.queued() == Seq::<usize>::empty(),
            !s.is_deterministic(),
    {
        Self::new(false)
    }
}


/// The pending messages of one actor, oldest first.
#[derive(Debug, Clone)]
pub struct Mailbox<M> {
    queue: VecDeque<M>,
}

impl<M> Mailbox<M> {
    /// The pending messages, oldest first.
    pub closed spec fn messages(&self) -> Seq<M> {
        self.queue@
    }
}

impl<M> Default for Mailbox<M> {
    fn default() -> (m: Self)
        ensures
            m.messages() == Seq::<M>::empty(),
    {
        Mailbox { queue: VecDeque::new() }
    }
}

/// A set of actors, each with a first-in first-out mailbox.
///
/// Actor ids are handed out in increasing order starting at 0; the mailbox of
/// the actor with id `i` is the `i`-th mailbox.
#[derive(Debug, Clone)]
pub struct ActorSystem<M> {
    next: usize,
    mailboxes: Vec<Mailbox<M>>,
}

impl<M> ActorSystem<M> {
    /// The pending messages of every actor created so far, by actor id.
    pub closed spec fn inboxes(&self) -> Seq<Seq<M>> {
        self.mailboxes@.map_values(|m: Mailbox<M>| m.messages())
    }

    /// The well-formedness of an actor system.
    pub closed spec fn wf(&self) -> bool {
        self.next == self.mailboxes@.len()
    }

    /// Creates an actor with an empty mailbox; its id is the number of actors
    /// created before.
    pub fn create_actor(&mut self) -> (id: ActorId)
        requires
            old(self).wf(),
            old(self).inboxes().len() < usize::MAX,
        ensures
            final(self).wf(),
            id.0 == old(self).inboxes().len(),
            final(self).inboxes() == old(self).inboxes().push(Seq::<M>::empty()),
    {
        let id = ActorId(self.next);
        self.next = self.next + 1;
        self.mailboxes.push(Mailbox::default());
        assert(self.inboxes() =~= old(self).inboxes().push(Seq::<M>::empty()));
        id
    }

    /// Appends a message to the mailbox of an actor; messages to unknown
    /// actors are dropped.
    pub fn send(&mut self, id: ActorId, message: M)
        requires
            old(self).wf(),
        ensures
            final(self).wf(),
            final(self).inboxes() == (if id.0 < old(self).inboxes().len() {
                old(self).inboxes().update(id.0 as int, old(self).inboxes()[id.0 as int].push(message))
            } else {
                old(self).inboxes()
            }),
    {
        if id.0 < self.mailboxes.len() {
            let mut mailbox = self.mailboxes.remove(id.0);
            mailbox.queue.push_back(message);
            self.mailboxes.insert(id.0, mailbox);
            assert(self.inboxes() =~= old(self).inboxes().update(
                id.0 as int,
                old(self).inboxes()[id.0 as int].push(message),
            ));
        }
    }

    /// Takes the oldest pending message of an actor, if any.
    pub fn recv(&mut self, id: ActorId) -> (message: Option<M>)
        requires
            old(self).wf(),
        ensures
            final(self).wf(),
            (id.0 < old(self).inboxes().len() && old(self).inboxes()[id.0 as int].len() > 0) ==> {
                &&& message == Some(old(self).inboxes()[id.0 as int][0])
                &&& final(self).inboxes() == old(self).inboxes().update(
                    id.0 as int,
                    old(self).inboxes()[id.0 as int].drop_first(),
                )
            },
            !(id.0 < old(self).inboxes().len() && old(self).inboxes()[id.0 as int].len() > 0) ==> {
                &&& message is None
                &&& final(self).inboxes() == old(self).inboxes()
            },
    {
        if id.0 < self.mailboxes.len() {
            let mut mailbox = self.mailboxes.remove(id.0);
            let message = mailbox.queue.pop_front();
            self.mailboxes.insert(id.0, mailbox);
            proof {
                if old(self).inboxes()[id.0 as int].len() > 0 {
                    assert(self.inboxes() =~= old(self).inboxes().update(
                        id.0 as int,
                        old(self).inboxes()[id.0 as int].drop_first(),
                    ));
                } else {
                    assert(self.inboxes() =~= old(self).inboxes());
                }
            }
            message
        } else {
            None
        }
    }
}

impl<M> Default for ActorSystem<M> {
    fn default() -> (s: Self)
        ensures
            s.wf(),
            s.inboxes() == Seq::<Seq<M>>::empty(),
    {
        let s = ActorSystem { next: 0, mailboxes: Vec::new() };
        assert(s.inboxes() =~= Seq::<Seq<M>>::empty());
        s
    }
}

/// The capabilities granted to a running program.
#[derive(Debug, Clone)]
pub struct SandboxPolicy {
    pub allow_fs: bool,
    pub allow_network: bool,
    pub allow_ai: bool,
    pub deterministic: bool,
    pub max_memory_bytes: usize,
}

impl Default for SandboxPolicy {
    /// No filesystem or network access, AI allowed, nondeterministic, 64 MiB.
    fn default() -> (p: Self)
        ensures
            !p.allow_fs,
            !p.allow_network,
            p.allow_ai,
            !p.deterministic,
            p.max_memory_bytes == 64 * 1024 * 1024,
    {
        SandboxPolicy {
            allow_fs: false,
            allow_network: false,
            allow_ai: true,
            deterministic: false,
            max_memory_bytes: 64 * 1024 * 1024,
        }
    }
}

/// Why the sandbox refused an operation.
#[derive(Debug, Clone, Copy, PartialEq, Eq, Structural)]
pub enum SandboxError {
    FilesystemDenied,
    NetworkDenied,
    AiDenied,
    MemoryExceeded,
}

impl SandboxError {
    /// The human-readable message of the error.
    pub fn message(&self) -> (m: &'static str)
        ensures
            m@ == sandbox_error_message(*self),
    {
        match self {
            SandboxError::FilesystemDenied => "filesystem access denied",
            SandboxError::NetworkDenied => "network access denied",
            SandboxError::AiDenied => "ai execution denied",
            SandboxError::MemoryExceeded => "memory limit exceeded",
        }
    }
}

/// The message of each sandbox error.
pub open spec fn sandbox_error_message(e: SandboxError) -> Seq<char> {
    match e {
        SandboxError::FilesystemDenied => "filesystem access denied"@,
        SandboxError::NetworkDenied => "network access denied"@,
        SandboxError::AiDenied => "ai execution denied"@,
        SandboxError::MemoryExceeded => "memory limit exceeded"@,
    }
}

impl SandboxPolicy {
    /// Succeeds exactly when filesystem access is allowed.
    pub fn check_fs(&self) -> (r: Result<(), SandboxError>)
        ensures
            self.allow_fs ==> r == Ok::<(), SandboxError>(()),
            !self.allow_fs ==> r == Err::<(), SandboxError>(SandboxError::FilesystemDenied),
    {
        if self.allow_fs {
            Ok(())
        } else {
            Err(SandboxError::FilesystemDenied)
        }
    }

    /// Succeeds exactly when network access is allowed.
    pub fn check_network(&self) -> (r: Result<(), SandboxError>)
        ensures
            self.allow_network ==> r == Ok::<(), SandboxError>(()),
            !self.allow_network ==> r == Err::<(), SandboxError>(SandboxError::NetworkDenied),
    {
        if self.allow_network {
            Ok(())
        } else {
            Err(SandboxError::NetworkDenied)
        }
    }

    /// Succeeds exactly when AI execution is allowed.
    pub fn check_ai(&self) -> (r: Result<(), SandboxError>)
        ensures
            self.allow_ai ==> r == Ok::<(), SandboxError>(()),
            !self.allow_ai ==> r == Err::<(), SandboxError>(SandboxError::AiDenied),
    {
        if self.allow_ai {
            Ok(())
        } else {
            Err(SandboxError::AiDenied)
        }
    }
}

/// A counter of logical time with a seed, used to make program runs
/// reproducible.
#[derive(Debug, Clone)]
pub struct DeterministicClock {
    pub seed: u64,
    tick: u64,
}

impl DeterministicClock {
    /// The number of ticks taken so far.
    pub closed spec fn ticks(&self) -> u64 {
        self.tick
    }

    /// The seed of the clock.
    pub closed spec fn seed_value(&self) -> u64 {
        self.seed
    }

    /// A clock with the given seed that has not ticked yet.
    pub fn new(seed: u64) -> (c: Self)
        ensures
            c.seed_value() == seed,
            c.ticks() == 0,
    {
        DeterministicClock { seed, tick: 0 }
    }

    /// Advances the clock by one tick and returns the new tick count.
    pub fn tick(&mut self) -> (t: u64)
        requires
            old(self).ticks() < u64::MAX,
        ensures
            t == old(self).ticks() + 1,
            final(self).ticks() == t,
            final(self).seed_value() == old(self).seed_value(),
    {
        self.tick = self.tick + 1;
        self.tick
    }

    /// Ticks the clock, then returns the SHA3-256 digest of the seed and the
    /// new tick count (each as 8 little-endian bytes) followed by the bytes.
    pub fn digest_bytes(&mut self, bytes: &[u8]) -> (d: [u8; 32])
        requires
            old(self).ticks() < u64::MAX,
        ensures
            final(self).ticks() == old(self).ticks() + 1,
            final(self).seed_value() == old(self).seed_value(),
            d@ == sha3_256_digest(
                le_bytes(old(self).seed_value() as nat, 8) + le_bytes(final(self).ticks() as nat, 8)
                    + bytes@,
            ),
    {
        let mut data: Vec<u8> = Vec::new();
        push_le(&mut data, self.seed, 8);
        let t = self.tick();
        push_le(&mut data, t, 8);
        push_all(&mut data, bytes);
        sha3_256(data.as_slice())
    }
}

/// Object count and size estimate of a heap.
#[derive(Debug, Clone, Copy)]
pub struct HeapStats {
    pub objects: usize,
    pub bytes_estimate: usize,
}

} // verus!

verus! {

/// The kind and length of a value, as far as the heap's size estimate
/// reads it.
#[derive(Debug, Clone, Copy, PartialEq, Eq, Structural)]
pub enum ValueShape {
    /// A string of this many bytes.
    Text(usize),
    /// A byte string of this length.
    Bytes(usize),
    /// An array of this many items.
    Array(usize),
    /// A tensor of this many numbers.
    Tensor(usize),
    /// Any other value.
    Scalar,
}

/// The estimated size of a value: the length of a string or byte string,
/// sixteen bytes per array item, eight per tensor number, sixteen for
/// anything else.
pub open spec fn shape_size(s: ValueShape) -> nat {
    match s {
        ValueShape::Text(n) => n as nat,
        ValueShape::Bytes(n) => n as nat,
        ValueShape::Array(n) => n as nat * 16,
        ValueShape::Tensor(n) => n as nat * 8,
        ValueShape::Scalar => 16,
    }
}

/// The estimated size of a value.
pub fn size_estimate(s: ValueShape) -> (n: usize)
    requires
        shape_size(s) <= usize::MAX,
    ensures
        n == shape_size(s),
{
    match s {
        ValueShape::Text(n) => n,
        ValueShape::Bytes(n) => n,
        ValueShape::Array(n) => n * 16,
        ValueShape::Tensor(n) => n * 8,
        ValueShape::Scalar => 16,
    }
}

/// A cell of the heap: its reference count, the estimated size of its
/// value, and the value.
#[derive(Debug, Clone)]
pub struct HeapCell<V> {
    pub refs: usize,
    pub size: usize,
    pub value: V,
}

/// A reference-counted heap: handles are given out in increasing order
/// from 0, and the cell of handle `i` is the `i`-th slot, empty once the
/// cell is released.
#[derive(Debug)]
pub struct HybridHeap<V> {
    cells: Vec<Option<HeapCell<V>>>,
}

/// The number of live cells among the slots.
pub open spec fn live_count<V>(cells: Seq<Option<HeapCell<V>>>) -> nat
    decreases cells.len(),
{
    if cells.len() == 0 {
        0
    } else {
        live_count(cells.drop_last()) + if cells.last() is Some { 1nat } else { 0nat }
    }
}

/// The estimated size of the live cells.
pub open spec fn live_bytes<V>(cells: Seq<Option<HeapCell<V>>>) -> nat
    decreases cells.len(),
{
    if cells.len() == 0 {
        0
    } else {
        live_bytes(cells.drop_last()) + match cells.last() {
            Some(c) => c.size as nat,
            None => 0nat,
        }
    }
}

proof fn lemma_live_update<V>(cells: Seq<Option<HeapCell<V>>>, i: int, c: Option<HeapCell<V>>)
    requires
        0 <= i < cells.len(),
    ensures
        live_count(cells.update(i, c)) + (if cells[i] is Some { 1int } else { 0int })
            == live_count(cells) + (if c is Some { 1int } else { 0int }),
        live_bytes(cells.update(i, c)) + (match cells[i] { Some(x) => x.size as int, None => 0int })
            == live_bytes(cells) + (match c { Some(x) => x.size as int, None => 0int }),
    decreases cells.len(),
{
    if i < cells.len() - 1 {
        assert(cells.update(i, c).drop_last() =~= cells.drop_last().update(i, c));
        lemma_live_update(cells.drop_last(), i, c);
    } else {
        assert(cells.update(i, c).drop_last() =~= cells.drop_last());
    }
}

impl<V> HybridHeap<V> {
    /// The slots of the heap, by handle.
    pub closed spec fn slots(&self) -> Seq<Option<HeapCell<V>>> {
        self.cells@
    }

    /// A live cell has a positive reference count.
    pub closed spec fn wf(&self) -> bool {
        forall|i: int| 0 <= i < self.cells@.len() ==> (#[trigger] self.cells@[i] matches Some(c) ==> c.refs >= 1)
    }

    /// An empty heap.
    pub fn new() -> (h: Self)
        ensures
            h.wf(),
            h.slots() == Seq::<Option<HeapCell<V>>>::empty(),
    {
        HybridHeap { cells: Vec::new() }
    }

    /// Stores a value with its size estimate; its handle is the next one
    /// and its count is 1.
    pub fn allocate(&mut self, value: V, size: usize) -> (id: HandleId)
        requires
            old(self).wf(),
            old(self).slots().len() < usize::MAX,
        ensures
            final(self).wf(),
            id.0 == old(self).slots().len(),
            final(self).slots() == old(self).slots().push(Some(HeapCell { refs: 1, size, value })),
    {
        let id = HandleId(self.cells.len());
        self.cells.push(Some(HeapCell { refs: 1, size, value }));
        id
    }

    /// Adds a reference to a live cell; nothing for another handle.
    pub fn retain(&mut self, id: HandleId)
        requires
            old(self).wf(),
            0 <= id.0 < old(self).slots().len() && old(self).slots()[id.0 as int] is Some
                ==> old(self).slots()[id.0 as int]->0.refs < usize::MAX,
        ensures
            final(self).wf(),
            final(self).slots() == (if id.0 < old(self).slots().len() && old(self).slots()[id.0 as int] is Some {
                let c = old(self).slots()[id.0 as int]->0;
                old(self).slots().update(id.0 as int, Some(HeapCell { refs: (c.refs + 1) as usize, ..c }))
            } else {
                old(self).slots()
            }),
    {
        if id.0 < self.cells.len() {
            let mut slot: Option<HeapCell<V>> = None;
            std::mem::swap(&mut slot, &mut self.cells[id.0]);
            match slot {
                Some(cell) => {
                    let refs = cell.refs + 1;
                    self.cells.set(id.0, Some(HeapCell { refs, size: cell.size, value: cell.value }));
                },
                None => {},
            }
        }
    }

    /// Drops a reference to a cell: the cell goes with its last reference.
    pub fn release(&mut self, id: HandleId)
        requires
            old(self).wf(),
        ensures
            final(self).wf(),
            final(self).slots() == (if id.0 < old(self).slots().len() && old(self).slots()[id.0 as int] is Some {
                let c = old(self).slots()[id.0 as int]->0;
                if c.refs > 1 {
                    old(self).slots().update(id.0 as int, Some(HeapCell { refs: (c.refs - 1) as usize, ..c }))
                } else {
                    old(self).slots().update(id.0 as int, None)
                }
            } else {
                old(self).slots()
            }),
    {
        if id.0 < self.cells.len() {
            let mut slot: Option<HeapCell<V>> = None;
            std::mem::swap(&mut slot, &mut self.cells[id.0]);
            match slot {
                Some(cell) => {
                    if cell.refs > 1 {
                        let refs = cell.refs - 1;
                        self.cells.set(id.0, Some(HeapCell { refs, size: cell.size, value: cell.value }));
                    }
                },
                None => {},
            }
        }
    }

    /// The value of a live cell.
    pub fn get(&self, id: HandleId) -> (r: Option<&V>)
        ensures
            r == (if id.0 < self.slots().len() && self.slots()[id.0 as int] is Some {
                Some(&self.slots()[id.0 as int]->0.value)
            } else {
                None
            }),
    {
        if id.0 < self.cells.len() {
            match &self.cells[id.0] {
                Some(cell) => Some(&cell.value),
                None => None,
            }
        } else {
            None
        }
    }

    /// The number of live cells and their estimated size.
    pub fn stats(&self) -> (s: HeapStats)
        requires
            live_bytes(self.slots()) <= usize::MAX,
        ensures
            s.objects == live_count(self.slots()),
            s.bytes_estimate == live_bytes(self.slots()),
    {
        let mut objects: usize = 0;
        let mut bytes: usize = 0;
        let mut i: usize = 0;
        while i < self.cells.len()
            invariant
                i <= self.cells@.len(),
                objects == live_count(self.cells@.take(i as int)),
                bytes == live_bytes(self.cells@.take(i as int)),
                objects <= i,
                live_bytes(self.cells@) <= usize::MAX,
            decreases self.cells@.len() - i,
        {
            assert(self.cells@.take(i + 1).drop_last() =~= self.cells@.take(i as int));
            proof {
                lemma_live_bytes_prefix(self.cells@, i + 1);
            }
            match &self.cells[i] {
                Some(cell) => {
                    objects = objects + 1;
                    bytes = bytes + cell.size;
                },
                None => {},
            }
            i = i + 1;
        }
        assert(self.cells@.take(self.cells@.len() as int) =~= self.cells@);
        HeapStats { objects, bytes_estimate: bytes }
    }
}

proof fn lemma_live_bytes_prefix<V>(cells: Seq<Option<HeapCell<V>>>, k: int)
    requires
        0 <= k <= cells.len(),
    ensures
        live_bytes(cells.take(k)) <= live_bytes(cells),
    decreases cells.len() - k,
{
    if k < cells.len() {
        lemma_live_bytes_prefix(cells, k + 1);
        assert(cells.take(k + 1).drop_last() =~= cells.take(k));
    } else {
        assert(cells.take(k) =~= cells);
    }
}

/// A retained reference released again leaves the heap as it was.
pub proof fn lemma_release_undoes_retain<V>(slots: Seq<Option<HeapCell<V>>>, i: int)
    requires
        0 <= i < slots.len(),
        slots[i] matches Some(c) && 1 <= c.refs < usize::MAX,
    ensures
        ({
            let c = slots[i]->0;
            let retained = slots.update(i, Some(HeapCell { refs: (c.refs + 1) as usize, ..c }));
            let d = retained[i]->0;
            retained.update(i, Some(HeapCell { refs: (d.refs - 1) as usize, ..d })) == slots
        }),
{
    let c = slots[i]->0;
    let retained = slots.update(i, Some(HeapCell { refs: (c.refs + 1) as usize, ..c }));
    let d = retained[i]->0;
    assert(retained.update(i, Some(HeapCell { refs: (d.refs - 1) as usize, ..d })) =~= slots);
}

/// Allocating adds one live cell of the given size; releasing the last
/// reference of a cell removes it and its size.
pub proof fn lemma_heap_accounting<V>(slots: Seq<Option<HeapCell<V>>>, i: int, c: HeapCell<V>)
    ensures
        live_count(slots.push(Some(c))) == live_count(slots) + 1,
        live_bytes(slots.push(Some(c))) == live_bytes(slots) + c.size,
        0 <= i < slots.len() && slots[i] is Some ==> {
            &&& live_count(slots.update(i, None)) + 1 == live_count(slots)
            &&& live_bytes(slots.update(i, None)) + slots[i]->0.size == live_bytes(slots)
        },
{
    assert(slots.push(Some(c)).drop_last() =~= slots);
    if 0 <= i < slots.len() && slots[i] is Some {
        lemma_live_update(slots, i, None);
    }
}

} // verus!

verus! {

/// Everything a running program uses: its heap, tasks, actors, sandbox,
/// clock, the text it printed and the input lines it was given.
#[derive(Debug)]
pub struct RuntimeContext<V> {
    pub heap: HybridHeap<V>,
    pub tasks: TaskScheduler<V>,
    pub actors: ActorSystem<Vec<u8>>,
    pub sandbox: SandboxPolicy,
    pub clock: DeterministicClock,
    pub stdout: String,
    pub stdin: VecDeque<String>,
    pub stdin_snapshot: String,
    pub allow_host_stdin: bool,
    pub consumed_stdin_lines: usize,
}

impl<V> RuntimeContext<V> {
    /// The input lines not read yet, first first.
    pub closed spec fn pending_input(&self) -> Seq<Seq<char>> {
        crate::text::strings_view(self.stdin@)
    }

    /// A fresh context for a program: empty heap, scheduler and actors, the
    /// clock seeded with 1 in a deterministic sandbox and `0x5EEDC0DE`
    /// otherwise, and the input text split into lines.
    pub fn new(policy: SandboxPolicy, stdin: String, allow_host_stdin: bool) -> (c: Self)
        ensures
            c.heap.wf() && c.heap.slots() == Seq::<Option<HeapCell<V>>>::empty(),
            c.tasks.wf() && c.tasks.records() == Seq::<TaskRecord<V>>::empty(),
            c.tasks.is_deterministic() == policy.deterministic,
            c.actors.wf() && c.actors.inboxes() == Seq::<Seq<Vec<u8>>>::empty(),
            c.sandbox == policy,
            c.clock.seed_value() == (if policy.deterministic { 1u64 } else { 0x5EED_C0DEu64 }),
            c.clock.ticks() == 0,
            c.stdout@ == Seq::<char>::empty(),
            c.pending_input() == crate::editor::split_lines(stdin@),
            c.stdin_snapshot@ == stdin@,
            c.allow_host_stdin == allow_host_stdin,
            c.consumed_stdin_lines == 0,
    {
        let seed: u64 = if policy.deterministic { 1 } else { 0x5EED_C0DE };
        let lines = crate::editor::text_lines(stdin.as_str());
        let mut queue: VecDeque<String> = VecDeque::new();
        let mut i: usize = 0;
        while i < lines.len()
            invariant
                i <= lines@.len(),
                crate::text::strings_view(queue@) == crate::text::strings_view(lines@).take(i as int),
            decreases lines@.len() - i,
        {
            let ghost before = crate::text::strings_view(queue@);
            let line = lines[i].clone();
            assert(line@ == crate::text::strings_view(lines@)[i as int]);
            let ghost q0 = queue@;
            queue.push_back(line);
            assert(queue@ =~= q0.push(line));
            assert(crate::text::strings_view(queue@) =~= before.push(line@));
            assert(crate::text::strings_view(queue@) =~= crate::text::strings_view(lines@).take(i + 1));
            i = i + 1;
        }
        assert(crate::text::strings_view(lines@).take(lines@.len() as int) =~= crate::text::strings_view(lines@));
        let deterministic = policy.deterministic;
        let stdout = String::new();
        assert(stdout@ =~= Seq::<char>::empty());
        RuntimeContext {
            heap: HybridHeap::new(),
            tasks: TaskScheduler::new(deterministic),
            actors: ActorSystem::default(),
            sandbox: policy,
            clock: DeterministicClock::new(seed),
            stdout,
            stdin: queue,
            stdin_snapshot: stdin,
            allow_host_stdin,
            consumed_stdin_lines: 0,
        }
    }

    /// Prints a value's text and a newline.
    pub fn print_line(&mut self, text: &str)
        ensures
            final(self).stdout@ == old(self).stdout@ + text@ + seq!['\n'],
            final(self).pending_input() == old(self).pending_input(),
            final(self).consumed_stdin_lines == old(self).consumed_stdin_lines,
            final(self).stdin_snapshot == old(self).stdin_snapshot,
            final(self).allow_host_stdin == old(self).allow_host_stdin,
            final(self).sandbox == old(self).sandbox,
            final(self).clock == old(self).clock,
            final(self).heap == old(self).heap,
            final(self).tasks == old(self).tasks,
            final(self).actors == old(self).actors,
    {
        crate::text::push_str(&mut self.stdout, text);
        crate::text::push_char(&mut self.stdout, '\n');
    }

    /// Takes the next given input line, counting it as read; `None` when
    /// all given lines are read.
    pub fn try_read_line(&mut self) -> (line: Option<String>)
        requires
            old(self).consumed_stdin_lines < usize::MAX,
        ensures
            match line {
                Some(l) => old(self).pending_input().len() > 0 && l@ == old(self).pending_input()[0]
                    && final(self).pending_input() == old(self).pending_input().drop_first()
                    && final(self).consumed_stdin_lines == old(self).consumed_stdin_lines + 1,
                None => old(self).pending_input().len() == 0 && final(self).pending_input() == old(self).pending_input()
                    && final(self).consumed_stdin_lines == old(self).consumed_stdin_lines,
            },
            final(self).stdout@ == old(self).stdout@,
            final(self).stdin_snapshot == old(self).stdin_snapshot,
            final(self).allow_host_stdin == old(self).allow_host_stdin,
            final(self).sandbox == old(self).sandbox,
            final(self).clock == old(self).clock,
            final(self).heap == old(self).heap,
            final(self).tasks == old(self).tasks,
            final(self).actors == old(self).actors,
    {
        let ghost before = crate::text::strings_view(self.stdin@);
        match self.stdin.pop_front() {
            Some(line) => {
                assert(crate::text::strings_view(self.stdin@) =~= before.drop_first());
                self.consumed_stdin_lines = self.consumed_stdin_lines + 1;
                Some(line)
            },
            None => None,
        }
    }

    /// Counts a line read from the host's input and drops its line ending
    /// (every trailing `\r` and `\n`).
    pub fn accept_host_line(&mut self, raw: &str) -> (line: String)
        requires
            old(self).consumed_stdin_lines < usize::MAX,
        ensures
            line@ == strip_line_end(raw@),
            final(self).consumed_stdin_lines == old(self).consumed_stdin_lines + 1,
            final(self).pending_input() == old(self).pending_input(),
            final(self).stdout@ == old(self).stdout@,
            final(self).stdin_snapshot == old(self).stdin_snapshot,
            final(self).allow_host_stdin == old(self).allow_host_stdin,
            final(self).sandbox == old(self).sandbox,
            final(self).clock == old(self).clock,
            final(self).heap == old(self).heap,
            final(self).tasks == old(self).tasks,
            final(self).actors == old(self).actors,
    {
        self.consumed_stdin_lines = self.consumed_stdin_lines + 1;
        let v = crate::text::chars_of(raw);
        let mut end = v.len();
        assert(v@.take(end as int) =~= v@);
        while end > 0 && (v[end - 1] == '\r' || v[end - 1] == '\n')
            invariant
                end <= v@.len(),
                strip_line_end(v@) == strip_line_end(v@.take(end as int)),
            decreases end,
        {
            assert(v@.take(end as int).drop_last() =~= v@.take(end - 1));
            end = end - 1;
        }
        proof {
            if end > 0 {
                assert(v@.take(end as int).last() == v@[end - 1]);
            }
        }
        let s = crate::text::string_of_range(&v, 0, end);
        assert(v@.subrange(0, end as int) =~= v@.take(end as int));
        s
    }

    /// The whole input text the program was given.
    pub fn read_all(&self) -> (s: String)
        ensures
            s@ == self.stdin_snapshot@,
    {
        self.stdin_snapshot.clone()
    }
}

/// A text without its trailing `\r` and `\n` characters.
pub open spec fn strip_line_end(s: Seq<char>) -> Seq<char>
    decreases s.len(),
{
    if s.len() > 0 && (s.last() == '\r' || s.last() == '\n') {
        strip_line_end(s.drop_last())
    } else {
        s
    }
}

} // verus!
