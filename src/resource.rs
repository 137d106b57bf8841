use vstd::prelude::*;
use crate::boundary::Status;

verus! {

/// Where an async resource stands.
#[derive(Clone, Copy, Debug, PartialEq, Eq)]
pub enum Phase<T, E> {
    /// No computation has started yet.
    Idle,
    /// A computation runs and no earlier value exists.
    Pending,
    /// A computation runs; the value of the last one that finished is kept.
    Refetching(T),
    /// The latest computation finished with this value.
    Ready(T),
    /// The latest computation failed.
    Failed(E),
}

/// What a reader of a resource gets.
#[derive(Clone, Copy, Debug, PartialEq, Eq)]
pub enum Loaded<T, E> {
    /// Nothing to show yet: the caller renders its fallback.
    Loading,
    Ready(T),
    Failed(E),
}

/// What a resource holds, seen from outside.
pub struct ResourceView<T, E> {
    /// How many computations have been started.
    pub generation: u64,
    pub phase: Phase<T, E>,
}

/// Whether a computation is in flight.
pub open spec fn is_loading<T, E>(p: Phase<T, E>) -> bool {
    p is Pending || p is Refetching
}

/// The resource once a new computation starts: its generation counts it, and
/// a value that was ready is kept as the previous one.
pub open spec fn started<T, E>(m: ResourceView<T, E>) -> ResourceView<T, E> {
    ResourceView {
        generation: (m.generation + 1) as u64,
        phase: match m.phase {
            Phase::Ready(v) => Phase::Refetching(v),
            Phase::Refetching(v) => Phase::Refetching(v),
            _ => Phase::Pending,
        },
    }
}

/// The resource once the computation of `generation` ends with `outcome`.
/// Only the computation started last commits, and only once; any other
/// outcome is dropped.
pub open spec fn completed<T, E>(
    m: ResourceView<T, E>,
    generation: u64,
    outcome: Result<T, E>,
) -> ResourceView<T, E> {
    if generation == m.generation && is_loading(m.phase) {
        ResourceView {
            generation: m.generation,
            phase: match outcome {
                Ok(v) => Phase::Ready(v),
                Err(e) => Phase::Failed(e),
            },
        }
    } else {
        m
    }
}

/// The resource once the outcomes of `rs`, each tagged with the generation
/// of its computation, arrive in that order.
pub open spec fn delivered<T, E>(
    m: ResourceView<T, E>,
    rs: Seq<(u64, Result<T, E>)>,
) -> ResourceView<T, E>
    decreases rs.len(),
{
    if rs.len() == 0 {
        m
    } else {
        let r = rs.last();
        completed(delivered(m, rs.drop_last()), r.0, r.1)
    }
}

/// What a plain reader sees: a kept previous value counts as loading.
pub open spec fn suspense_read<T, E>(p: Phase<T, E>) -> Loaded<T, E> {
    match p {
        Phase::Ready(v) => Loaded::Ready(v),
        Phase::Failed(e) => Loaded::Failed(e),
        _ => Loaded::Loading,
    }
}

/// What a transition reader sees: a kept previous value stays visible.
pub open spec fn transition_read<T, E>(p: Phase<T, E>) -> Loaded<T, E> {
    match p {
        Phase::Ready(v) => Loaded::Ready(v),
        Phase::Refetching(v) => Loaded::Ready(v),
        Phase::Failed(e) => Loaded::Failed(e),
        _ => Loaded::Loading,
    }
}

/// What a boundary registers for a resource read in its render: pending
/// while no value of the latest computation is in.
pub open spec fn status_of<T, E>(p: Phase<T, E>) -> Status<E> {
    match p {
        Phase::Ready(_) => Status::Ready,
        Phase::Failed(e) => Status::Failed(e),
        _ => Status::Pending,
    }
}

/// The result of an asynchronous computation keyed by a signal, guarded by a
/// generation counter so that the computation started last wins.
pub struct Resource<T, E> {
    generation: u64,
    phase: Phase<T, E>,
}

impl<T, E> View for Resource<T, E> {
    type V = ResourceView<T, E>;

    closed spec fn view(&self) -> ResourceView<T, E> {
        ResourceView { generation: self.generation, phase: self.phase }
    }
}

impl<T: Copy, E: Copy> Resource<T, E> {
    /// A resource on which no computation has started.
    pub fn new() -> (r: Self)
        ensures
            r@.generation == 0,
            r@.phase == Phase::<T, E>::Idle,
    {
        Resource { generation: 0, phase: Phase::Idle }
    }

    /// The number of computations started so far.
    pub fn generation(&self) -> (r: u64)
        ensures
            r == self@.generation,
    {
        self.generation
    }

    /// The current phase.
    pub fn phase(&self) -> (r: Phase<T, E>)
        ensures
            r == self@.phase,
    {
        self.phase
    }

    /// Starts a new computation, on a first read or when the key changes,
    /// and returns its generation. Any computation still in flight is
    /// superseded from here on.
    pub fn start(&mut self) -> (g: u64)
        requires
            old(self)@.generation < u64::MAX,
        ensures
            final(self)@ == started(old(self)@),
            g == final(self)@.generation,
    {
        self.generation = self.generation + 1;
        self.phase = match self.phase {
            Phase::Ready(v) => Phase::Refetching(v),
            Phase::Refetching(v) => Phase::Refetching(v),
            _ => Phase::Pending,
        };
        self.generation
    }

    /// Delivers the outcome of the computation of `generation`. Returns
    /// whether it was committed; a superseded or repeated one is dropped and
    /// leaves the resource as it was.
    pub fn complete(&mut self, generation: u64, outcome: Result<T, E>) -> (committed: bool)
        ensures
            final(self)@ == completed(old(self)@, generation, outcome),
            committed == (generation == old(self)@.generation && is_loading(old(self)@.phase)),
    {
        let loading = match self.phase {
            Phase::Pending => true,
            Phase::Refetching(_) => true,
            _ => false,
        };
        if generation == self.generation && loading {
            self.phase = match outcome {
                Ok(v) => Phase::Ready(v),
                Err(e) => Phase::Failed(e),
            };
            true
        } else {
            false
        }
    }

    /// The status a boundary registers for this resource.
    pub fn status(&self) -> (r: Status<E>)
        ensures
            r == status_of(self@.phase),
    {
        match self.phase {
            Phase::Ready(_) => Status::Ready,
            Phase::Failed(e) => Status::Failed(e),
            _ => Status::Pending,
        }
    }

    /// The value for a plain reader, which shows its fallback while loading.
    pub fn read(&self) -> (r: Loaded<T, E>)
        ensures
            r == suspense_read(self@.phase),
    {
        match self.phase {
            Phase::Ready(v) => Loaded::Ready(v),
            Phase::Failed(e) => Loaded::Failed(e),
            _ => Loaded::Loading,
        }
    }

    /// The value for a transition reader, which keeps the previous value in
    /// view while a new one loads.
    pub fn read_previous(&self) -> (r: Loaded<T, E>)
        ensures
            r == transition_read(self@.phase),
    {
        match self.phase {
            Phase::Ready(v) => Loaded::Ready(v),
            Phase::Refetching(v) => Loaded::Ready(v),
            Phase::Failed(e) => Loaded::Failed(e),
            _ => Loaded::Loading,
        }
    }
}

/// Outcomes of superseded computations change nothing: if none of `rs` comes
/// from the computation started last, the resource is as it was.
pub proof fn lemma_superseded_results_dropped<T, E>(
    m: ResourceView<T, E>,
    rs: Seq<(u64, Result<T, E>)>,
)
    requires
        forall|i: int| 0 <= i < rs.len() ==> (#[trigger] rs[i]).0 != m.generation,
    ensures
        delivered(m, rs) == m,
    decreases rs.len(),
{
    if rs.len() > 0 {
        lemma_superseded_results_dropped(m, rs.drop_last());
    }
}

/// Whatever the order in which outcomes arrive, a resource that was loading
/// keeps its generation, and a value it then holds as ready is the outcome
/// of the computation started last.
pub proof fn lemma_only_latest_commits<T, E>(
    m: ResourceView<T, E>,
    rs: Seq<(u64, Result<T, E>)>,
)
    requires
        is_loading(m.phase),
    ensures
        delivered(m, rs).generation == m.generation,
        forall|v: T|
            delivered(m, rs).phase == Phase::<T, E>::Ready(v) ==> exists|i: int|
                0 <= i < rs.len() && #[trigger] rs[i] == (m.generation, Ok::<T, E>(v)),
        forall|e: E|
            delivered(m, rs).phase == Phase::<T, E>::Failed(e) ==> exists|i: int|
                0 <= i < rs.len() && #[trigger] rs[i] == (m.generation, Err::<T, E>(e)),
    decreases rs.len(),
{
    if rs.len() > 0 {
        let prev = rs.drop_last();
        lemma_only_latest_commits(m, prev);
        let p = delivered(m, prev);
        assert forall|v: T| delivered(m, rs).phase == Phase::<T, E>::Ready(v) implies exists|i: int|
            0 <= i < rs.len() && #[trigger] rs[i] == (m.generation, Ok::<T, E>(v)) by {
            if p.phase == Phase::<T, E>::Ready(v) {
                let i = choose|i: int|
                    0 <= i < prev.len() && #[trigger] prev[i] == (m.generation, Ok::<T, E>(v));
                assert(rs[i] == prev[i]);
            } else {
                assert(rs[rs.len() - 1] == (m.generation, Ok::<T, E>(v)));
            }
        }
        assert forall|e: E| delivered(m, rs).phase == Phase::<T, E>::Failed(e) implies exists|i: int|
            0 <= i < rs.len() && #[trigger] rs[i] == (m.generation, Err::<T, E>(e)) by {
            if p.phase == Phase::<T, E>::Failed(e) {
                let i = choose|i: int|
                    0 <= i < prev.len() && #[trigger] prev[i] == (m.generation, Err::<T, E>(e));
                assert(rs[i] == prev[i]);
            } else {
                assert(rs[rs.len() - 1] == (m.generation, Err::<T, E>(e)));
            }
        }
    }
}

/// The resource after `n` computations are started one after another, as
/// when its key is written `n` times before any of them finishes.
pub open spec fn started_n<T, E>(m: ResourceView<T, E>, n: nat) -> ResourceView<T, E>
    decreases n,
{
    if n == 0 {
        m
    } else {
        started(started_n(m, (n - 1) as nat))
    }
}

/// Each start takes a fresh generation, one more than the last; a resource
/// that has been started is loading until an outcome arrives.
pub proof fn lemma_started_n<T, E>(m: ResourceView<T, E>, n: nat)
    requires
        m.generation + n <= u64::MAX,
    ensures
        started_n(m, n).generation == m.generation + n,
        n > 0 ==> is_loading(started_n(m, n).phase),
    decreases n,
{
    if n > 0 {
        lemma_started_n(m, (n - 1) as nat);
    }
}

/// When a key is written `n` times before any computation finishes, only
/// the computation started last can commit: outcomes of the earlier ones
/// are dropped, in whatever order the outcomes arrive.
pub proof fn lemma_last_started_wins<T, E>(
    m: ResourceView<T, E>,
    n: nat,
    rs: Seq<(u64, Result<T, E>)>,
)
    requires
        n > 0,
        m.generation + n <= u64::MAX,
    ensures
        started_n(m, n).generation == m.generation + n,
        delivered(started_n(m, n), rs).generation == m.generation + n,
        forall|v: T|
            delivered(started_n(m, n), rs).phase == Phase::<T, E>::Ready(v) ==> exists|i: int|
                0 <= i < rs.len() && #[trigger] rs[i] == ((m.generation + n) as u64, Ok::<T, E>(v)),
        (forall|i: int| 0 <= i < rs.len() ==> (#[trigger] rs[i]).0 < m.generation + n)
            ==> delivered(started_n(m, n), rs) == started_n(m, n),
{
    lemma_started_n(m, n);
    lemma_only_latest_commits(started_n(m, n), rs);
    if forall|i: int| 0 <= i < rs.len() ==> (#[trigger] rs[i]).0 < m.generation + n {
        lemma_superseded_results_dropped(started_n(m, n), rs);
    }
}

/// Starting a computation makes a resource pending for boundaries and plain
/// readers at once, whatever it held; a transition reader keeps seeing a
/// value that was ready.
pub proof fn lemma_start_is_pending<T, E>(m: ResourceView<T, E>)
    ensures
        status_of(started(m).phase) == Status::<E>::Pending,
        suspense_read(started(m).phase) == Loaded::<T, E>::Loading,
        forall|v: T| m.phase == Phase::<T, E>::Ready(v) ==> transition_read(started(m).phase)
            == Loaded::<T, E>::Ready(v),
{
}

} // verus!
