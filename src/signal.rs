use vstd::prelude::*;

verus! {

/// A pure function of the current values of some signals.
pub trait Formula<T>: Sized {
    /// What the function yields on these inputs, in the order of its sources.
    spec fn spec_apply(&self, inputs: Seq<T>) -> T;

    fn apply(&self, inputs: &Vec<T>) -> (r: T)
        ensures
            r == self.spec_apply(inputs@),
    ;
}

/// One pending call of a subscriber: which subscriber, which signal, and
/// the value that was written.
#[derive(Clone, Copy, Debug, PartialEq, Eq)]
pub struct Notification<T> {
    pub subscriber: usize,
    pub signal: usize,
    pub value: T,
}

/// The notifications that one write of `value` to `signal` queues: one per
/// subscriber, in subscription order.
pub open spec fn notes_for<T>(subs: Seq<usize>, signal: usize, value: T) -> Seq<Notification<T>> {
    subs.map_values(|s: usize| Notification { subscriber: s, signal, value })
}

/// The values that a derived value reads, in the order of its sources.
pub open spec fn inputs_of<T>(values: Seq<T>, sources: Seq<usize>) -> Seq<T> {
    Seq::new(sources.len(), |j: int| values[sources[j] as int])
}

/// What a store holds, seen from outside.
pub struct StoreView<T, F> {
    /// The committed value of each signal.
    pub values: Seq<T>,
    /// The subscribers of each signal, in subscription order.
    pub subscribers: Seq<Seq<usize>>,
    /// Notifications that have been queued and not yet taken.
    pub queue: Seq<Notification<T>>,
    /// The source signals of each derived value.
    pub sources: Seq<Seq<usize>>,
    /// The function of each derived value.
    pub funcs: Seq<F>,
    /// Whether each derived value must be recomputed on its next read.
    pub dirty: Seq<bool>,
    /// Whether a batch is open: its writes notify once, when it closes.
    pub batching: bool,
    /// The signals written in the open batch, in order of first write.
    pub batched: Seq<usize>,
}

/// The store after `value` is written to signal `id`: the value is committed
/// and every derived value that reads the signal is marked dirty. Outside a
/// batch each subscriber of the signal gets one notification; inside one the
/// signal is only recorded, once.
pub open spec fn written<T, F>(m: StoreView<T, F>, id: usize, value: T) -> StoreView<T, F> {
    StoreView {
        values: m.values.update(id as int, value),
        queue: if m.batching {
            m.queue
        } else {
            m.queue + notes_for(m.subscribers[id as int], id, value)
        },
        dirty: Seq::new(
            m.dirty.len(),
            |k: int| m.dirty[k] || m.sources[k].contains(id),
        ),
        batched: if m.batching && !m.batched.contains(id) {
            m.batched.push(id)
        } else {
            m.batched
        },
        ..m
    }
}

/// The notifications that closing a batch queues: for each signal written in
/// it, in order, one per subscriber with the signal's current value.
pub open spec fn batch_notes<T, F>(m: StoreView<T, F>, ids: Seq<usize>) -> Seq<Notification<T>>
    decreases ids.len(),
{
    if ids.len() == 0 {
        Seq::empty()
    } else {
        let id = ids.last();
        batch_notes(m, ids.drop_last()) + notes_for(
            m.subscribers[id as int],
            id,
            m.values[id as int],
        )
    }
}

/// The store once its open batch closes.
pub open spec fn batch_closed<T, F>(m: StoreView<T, F>) -> StoreView<T, F> {
    StoreView {
        queue: m.queue + batch_notes(m, m.batched),
        batching: false,
        batched: Seq::empty(),
        ..m
    }
}

/// The store after each value of `ws` is written to signal `id`, in order.
pub open spec fn written_all<T, F>(m: StoreView<T, F>, id: usize, ws: Seq<T>) -> StoreView<T, F>
    decreases ws.len(),
{
    if ws.len() == 0 {
        m
    } else {
        written(written_all(m, id, ws.drop_last()), id, ws.last())
    }
}

/// Writing a signal changes no other signal, and no subscriber list.
pub proof fn lemma_written_all_shape<T, F>(m: StoreView<T, F>, id: usize, ws: Seq<T>)
    requires
        id < m.values.len(),
    ensures
        written_all(m, id, ws).values.len() == m.values.len(),
        written_all(m, id, ws).subscribers == m.subscribers,
        written_all(m, id, ws).batching == m.batching,
        forall|i: int|
            0 <= i < m.values.len() && i != id ==> #[trigger] written_all(m, id, ws).values[i]
                == m.values[i],
    decreases ws.len(),
{
    if ws.len() > 0 {
        lemma_written_all_shape(m, id, ws.drop_last());
    }
}

/// After any non-empty sequence of writes to a signal, a read of it returns
/// the last value written, whatever its subscribers.
pub proof fn lemma_read_after_writes<T, F>(m: StoreView<T, F>, id: usize, ws: Seq<T>)
    requires
        id < m.values.len(),
        ws.len() > 0,
    ensures
        written_all(m, id, ws).values[id as int] == ws.last(),
{
    lemma_written_all_shape(m, id, ws.drop_last());
}

/// Outside a batch every write notifies every subscriber once: `n` writes to
/// a signal with `s` subscribers queue `n * s` notifications.
pub proof fn lemma_notification_count<T, F>(m: StoreView<T, F>, id: usize, ws: Seq<T>)
    requires
        id < m.values.len(),
        !m.batching,
    ensures
        written_all(m, id, ws).queue.len() == m.queue.len() + ws.len() * m.subscribers[id as int].len(),
    decreases ws.len(),
{
    if ws.len() > 0 {
        lemma_notification_count(m, id, ws.drop_last());
        lemma_written_all_shape(m, id, ws.drop_last());
        let n = ws.len() - 1;
        let s = m.subscribers[id as int].len();
        assert((n + 1) * s == n * s + s) by (nonlinear_arith);
    }
}

/// Outside a batch, a signal with a single subscriber passes each written
/// value to it, once per write and in the order of the writes, equal values
/// included.
pub proof fn lemma_single_subscriber_sees_each_write<T, F>(
    m: StoreView<T, F>,
    id: usize,
    ws: Seq<T>,
)
    requires
        id < m.values.len(),
        !m.batching,
        m.subscribers[id as int].len() == 1,
    ensures
        written_all(m, id, ws).queue == m.queue + ws.map_values(
            |v: T| Notification { subscriber: m.subscribers[id as int][0], signal: id, value: v },
        ),
    decreases ws.len(),
{
    let s = m.subscribers[id as int][0];
    if ws.len() == 0 {
        assert(m.queue + ws.map_values(
            |v: T| Notification { subscriber: s, signal: id, value: v },
        ) =~= m.queue);
    } else {
        lemma_single_subscriber_sees_each_write(m, id, ws.drop_last());
        lemma_written_all_shape(m, id, ws.drop_last());
        let subs = m.subscribers[id as int];
        assert(notes_for(subs, id, ws.last()) =~= seq![
            Notification { subscriber: s, signal: id, value: ws.last() },
        ]);
        assert(ws.map_values(|v: T| Notification { subscriber: s, signal: id, value: v })
            =~= ws.drop_last().map_values(
            |v: T| Notification { subscriber: s, signal: id, value: v },
        ).push(Notification { subscriber: s, signal: id, value: ws.last() }));
    }
}

/// Inside a batch, writes to a signal queue nothing and record the signal
/// once, however many they are.
pub proof fn lemma_batched_writes_recorded_once<T, F>(m: StoreView<T, F>, id: usize, ws: Seq<T>)
    requires
        id < m.values.len(),
        m.batching,
        m.batched == Seq::<usize>::empty(),
        ws.len() > 0,
    ensures
        written_all(m, id, ws).queue == m.queue,
        written_all(m, id, ws).batched == seq![id],
    decreases ws.len(),
{
    lemma_written_all_shape(m, id, ws.drop_last());
    if ws.len() > 1 {
        lemma_batched_writes_recorded_once(m, id, ws.drop_last());
        assert(seq![id].contains(id)) by {
            assert(seq![id][0] == id);
        }
    } else {
        assert(ws.drop_last().len() == 0);
        assert(Seq::<usize>::empty().push(id) =~= seq![id]);
    }
}

/// Writes inside a batch coalesce: however many values are written to a
/// signal between opening and closing a batch, its subscribers are notified
/// once, with the last value.
pub proof fn lemma_batch_coalesces<T, F>(m: StoreView<T, F>, id: usize, ws: Seq<T>)
    requires
        id < m.values.len(),
        !m.batching,
        ws.len() > 0,
    ensures
        batch_closed(
            written_all(StoreView { batching: true, batched: Seq::empty(), ..m }, id, ws),
        ).queue == m.queue + notes_for(m.subscribers[id as int], id, ws.last()),
{
    let b = StoreView { batching: true, batched: Seq::empty(), ..m };
    lemma_batched_writes_recorded_once(b, id, ws);
    lemma_written_all_shape(b, id, ws);
    lemma_read_after_writes(b, id, ws);
    let w = written_all(b, id, ws);
    let ids = seq![id];
    assert(ids.drop_last() =~= Seq::<usize>::empty());
    assert(ids.last() == id);
    let x = notes_for(m.subscribers[id as int], id, ws.last());
    assert(batch_notes(w, ids) == batch_notes(w, Seq::<usize>::empty()) + x);
    assert(Seq::<Notification<T>>::empty() + x =~= x);
}

/// Holds signals and the derived values computed from them.
pub struct SignalStore<T, F> {
    values: Vec<T>,
    subscribers: Vec<Vec<usize>>,
    queue: Vec<Notification<T>>,
    sources: Vec<Vec<usize>>,
    funcs: Vec<F>,
    memos: Vec<Option<T>>,
    dirty: Vec<bool>,
    batching: bool,
    batched: Vec<usize>,
}

impl<T, F> View for SignalStore<T, F> {
    type V = StoreView<T, F>;

    closed spec fn view(&self) -> StoreView<T, F> {
        StoreView {
            values: self.values@,
            subscribers: self.subscribers@.map_values(|s: Vec<usize>| s@),
            queue: self.queue@,
            sources: self.sources@.map_values(|s: Vec<usize>| s@),
            funcs: self.funcs@,
            dirty: self.dirty@,
            batching: self.batching,
            batched: self.batched@,
        }
    }
}

impl<T: Copy, F: Formula<T>> SignalStore<T, F> {
    /// The store is well formed: one entry per signal and per derived value,
    /// every source names a signal, and a derived value that is not dirty
    /// holds its function's value on the current signals.
    pub closed spec fn wf(&self) -> bool {
        &&& self.subscribers.len() == self.values.len()
        &&& self.funcs.len() == self.sources.len()
        &&& self.memos.len() == self.sources.len()
        &&& self.dirty.len() == self.sources.len()
        &&& forall|j: int| 0 <= j < self.batched.len() ==> self.batched[j] < self.values.len()
        &&& forall|k: int, j: int|
            0 <= k < self.sources.len() && 0 <= j < self.sources[k].len()
                ==> self.sources[k][j] < self.values.len()
        &&& forall|k: int|
            0 <= k < self.sources.len() && !#[trigger] self.dirty[k]
                ==> self.memos[k] == Some(
                self.funcs[k].spec_apply(inputs_of(self.values@, self.sources[k]@)),
            )
    }

    /// An empty store.
    pub fn new() -> (r: Self)
        ensures
            r.wf(),
            r@ == (StoreView {
                values: Seq::<T>::empty(),
                subscribers: Seq::<Seq<usize>>::empty(),
                queue: Seq::<Notification<T>>::empty(),
                sources: Seq::<Seq<usize>>::empty(),
                funcs: Seq::<F>::empty(),
                dirty: Seq::<bool>::empty(),
                batching: false,
                batched: Seq::<usize>::empty(),
            }),
    {
        let r = SignalStore {
            values: Vec::new(),
            subscribers: Vec::new(),
            queue: Vec::new(),
            sources: Vec::new(),
            funcs: Vec::new(),
            memos: Vec::new(),
            dirty: Vec::new(),
            batching: false,
            batched: Vec::new(),
        };
        proof {
            assert(r@.values =~= Seq::<T>::empty());
            assert(r@.subscribers =~= Seq::<Seq<usize>>::empty());
            assert(r@.queue =~= Seq::<Notification<T>>::empty());
            assert(r@.sources =~= Seq::<Seq<usize>>::empty());
            assert(r@.funcs =~= Seq::<F>::empty());
            assert(r@.dirty =~= Seq::<bool>::empty());
            assert(r@.batched =~= Seq::<usize>::empty());
        }
        r
    }

    /// Allocates a new signal holding `initial`, with no subscribers.
    pub fn create(&mut self, initial: T) -> (id: usize)
        requires
            old(self).wf(),
        ensures
            final(self).wf(),
            id == old(self)@.values.len(),
            final(self)@ == (StoreView {
                values: old(self)@.values.push(initial),
                subscribers: old(self)@.subscribers.push(Seq::empty()),
                ..old(self)@
            }),
    {
        let id = self.values.len();
        self.values.push(initial);
        self.subscribers.push(Vec::new());
        proof {
            assert(self@.subscribers =~= old(self)@.subscribers.push(Seq::empty()));
            assert(self@.sources =~= old(self)@.sources);
            assert forall|k: int|
                0 <= k < self.sources.len() && !#[trigger] self.dirty[k] implies self.memos[k]
                == Some(self.funcs[k].spec_apply(inputs_of(self.values@, self.sources[k]@))) by {
                assert(inputs_of(self.values@, self.sources[k]@) =~= inputs_of(
                    old(self).values@,
                    self.sources[k]@,
                ));
            }
        }
        id
    }

    /// The current value of signal `id`.
    pub fn read(&self, id: usize) -> (r: T)
        requires
            self.wf(),
            id < self@.values.len(),
        ensures
            r == self@.values[id as int],
    {
        self.values[id]
    }

    /// Adds `subscriber` at the end of the subscribers of signal `id`.
    pub fn subscribe(&mut self, id: usize, subscriber: usize)
        requires
            old(self).wf(),
            id < old(self)@.values.len(),
        ensures
            final(self).wf(),
            final(self)@ == (StoreView {
                subscribers: old(self)@.subscribers.update(
                    id as int,
                    old(self)@.subscribers[id as int].push(subscriber),
                ),
                ..old(self)@
            }),
    {
        let mut subs = self.subscribers[id].clone();
        subs.push(subscriber);
        self.subscribers.set(id, subs);
        proof {
            assert(self@.subscribers =~= old(self)@.subscribers.update(
                id as int,
                old(self)@.subscribers[id as int].push(subscriber),
            ));
        }
    }

    /// Commits `value` to signal `id`, marks every derived value that reads
    /// it dirty, and queues one notification per subscriber, in order. The
    /// same value written twice notifies twice.
    pub fn write(&mut self, id: usize, value: T)
        requires
            old(self).wf(),
            id < old(self)@.values.len(),
        ensures
            final(self).wf(),
            final(self)@ == written(old(self)@, id, value),
    {
        let n = self.sources.len();
        let mut k: usize = 0;
        while k < n
            invariant
                self.wf(),
                n == self.sources.len(),
                0 <= k <= n,
                self.values == old(self).values,
                self.subscribers == old(self).subscribers,
                self.queue == old(self).queue,
                self.sources == old(self).sources,
                self.funcs == old(self).funcs,
                self.memos == old(self).memos,
                self.batching == old(self).batching,
                self.batched == old(self).batched,
                self.dirty.len() == n,
                forall|i: int|
                    0 <= i < k ==> #[trigger] self.dirty[i] == (old(self).dirty[i]
                        || self.sources[i]@.contains(id)),
                forall|i: int| k <= i < n ==> #[trigger] self.dirty[i] == old(self).dirty[i],
            decreases n - k,
        {
            let reads = contains_index(&self.sources[k], id);
            if reads {
                self.dirty.set(k, true);
            }
            k += 1;
        }
        let ghost marked = self.dirty@;
        proof {
            assert forall|i: int| 0 <= i < n implies marked[i] == written(old(self)@, id, value).dirty[i] by {
                assert(old(self)@.sources[i] == self.sources[i]@);
            }
        }
        self.values.set(id, value);
        proof {
            assert forall|k: int|
                0 <= k < self.sources.len() && !#[trigger] self.dirty[k] implies self.memos[k]
                == Some(self.funcs[k].spec_apply(inputs_of(self.values@, self.sources[k]@))) by {
                assert(!self.sources[k]@.contains(id));
                assert(inputs_of(self.values@, self.sources[k]@) =~= inputs_of(
                    old(self).values@,
                    self.sources[k]@,
                ));
            }
        }
        if self.batching {
            if !contains_index(&self.batched, id) {
                self.batched.push(id);
            }
        } else {
            self.enqueue(id, value);
        }
        proof {
            assert(self@.dirty =~= written(old(self)@, id, value).dirty);
            assert(self@.values =~= written(old(self)@, id, value).values);
            assert(self@ == written(old(self)@, id, value));
        }
    }

    /// Queues one notification of `value` on signal `id` per subscriber.
    fn enqueue(&mut self, id: usize, value: T)
        requires
            old(self).wf(),
            id < old(self)@.values.len(),
        ensures
            final(self).wf(),
            final(self).memos == old(self).memos,
            final(self)@ == (StoreView {
                queue: old(self)@.queue + notes_for(old(self)@.subscribers[id as int], id, value),
                ..old(self)@
            }),
    {
        let ghost before = *self;
        let subs = self.subscribers[id].clone();
        let mut j: usize = 0;
        while j < subs.len()
            invariant
                subs@ == old(self)@.subscribers[id as int],
                0 <= j <= subs.len(),
                self.values == before.values,
                self.subscribers == before.subscribers,
                self.sources == before.sources,
                self.funcs == before.funcs,
                self.memos == before.memos,
                self.dirty == before.dirty,
                self.batching == before.batching,
                self.batched == before.batched,
                self.queue@ == old(self).queue@ + notes_for(subs@.take(j as int), id, value),
            decreases subs.len() - j,
        {
            self.queue.push(Notification { subscriber: subs[j], signal: id, value });
            proof {
                assert(subs@.take(j + 1) =~= subs@.take(j as int).push(subs@[j as int]));
                assert(notes_for(subs@.take(j + 1), id, value) =~= notes_for(
                    subs@.take(j as int),
                    id,
                    value,
                ).push(Notification { subscriber: subs@[j as int], signal: id, value }));
            }
            j += 1;
        }
        proof {
            assert(subs@.take(subs.len() as int) =~= subs@);
        }
    }

    /// Opens a batch: writes from here on commit at once but notify only
    /// when the batch closes. Opening one that is open changes nothing.
    pub fn begin_batch(&mut self)
        requires
            old(self).wf(),
        ensures
            final(self).wf(),
            final(self)@ == (if old(self)@.batching {
                old(self)@
            } else {
                StoreView { batching: true, batched: Seq::empty(), ..old(self)@ }
            }),
    {
        if !self.batching {
            self.batching = true;
            self.batched = Vec::new();
            proof {
                assert(self@.batched =~= Seq::<usize>::empty());
            }
        }
    }

    /// Closes the open batch: each signal written in it notifies its
    /// subscribers once, with its latest value, in order of first write.
    pub fn end_batch(&mut self)
        requires
            old(self).wf(),
            old(self)@.batching,
        ensures
            final(self).wf(),
            final(self)@ == batch_closed(old(self)@),
    {
        let mut ids: Vec<usize> = Vec::new();
        std::mem::swap(&mut self.batched, &mut ids);
        self.batching = false;
        let mut i: usize = 0;
        while i < ids.len()
            invariant
                self.wf(),
                ids@ == old(self)@.batched,
                forall|j: int| 0 <= j < ids.len() ==> ids@[j] < old(self)@.values.len(),
                0 <= i <= ids.len(),
                self@ == (StoreView {
                    queue: old(self)@.queue + batch_notes(old(self)@, ids@.take(i as int)),
                    batching: false,
                    batched: Seq::empty(),
                    ..old(self)@
                }),
            decreases ids.len() - i,
        {
            let id = ids[i];
            let v = self.values[id];
            self.enqueue(id, v);
            proof {
                assert(ids@.take(i + 1).drop_last() =~= ids@.take(i as int));
                assert(old(self)@.queue + batch_notes(old(self)@, ids@.take(i + 1)) =~= old(
                    self,
                )@.queue + batch_notes(old(self)@, ids@.take(i as int)) + notes_for(
                    old(self)@.subscribers[id as int],
                    id,
                    v,
                ));
            }
            i += 1;
        }
        proof {
            assert(ids@.take(ids.len() as int) =~= ids@);
        }
    }

    /// Hands out the queued notifications, oldest first, and empties the queue.
    pub fn take_notifications(&mut self) -> (r: Vec<Notification<T>>)
        requires
            old(self).wf(),
        ensures
            final(self).wf(),
            r@ == old(self)@.queue,
            final(self)@ == (StoreView { queue: Seq::empty(), ..old(self)@ }),
    {
        let mut r: Vec<Notification<T>> = Vec::new();
        std::mem::swap(&mut self.queue, &mut r);
        proof {
            assert(self@.queue =~= Seq::<Notification<T>>::empty());
        }
        r
    }

    /// Registers a derived value over the signals `sources`; it is computed
    /// on its first read.
    pub fn derive(&mut self, sources: Vec<usize>, func: F) -> (d: usize)
        requires
            old(self).wf(),
            forall|j: int| 0 <= j < sources.len() ==> sources[j] < old(self)@.values.len(),
        ensures
            final(self).wf(),
            d == old(self)@.sources.len(),
            final(self)@ == (StoreView {
                sources: old(self)@.sources.push(sources@),
                funcs: old(self)@.funcs.push(func),
                dirty: old(self)@.dirty.push(true),
                ..old(self)@
            }),
    {
        let d = self.sources.len();
        let ghost src = sources@;
        self.sources.push(sources);
        self.funcs.push(func);
        self.memos.push(None);
        self.dirty.push(true);
        proof {
            assert(self@.sources =~= old(self)@.sources.push(src));
            assert forall|k: int, j: int|
                0 <= k < self.sources.len() && 0 <= j < self.sources[k].len() implies
                self.sources[k][j] < self.values.len() by {
                if k < d {
                    assert(self.sources[k] == old(self).sources[k]);
                }
            }
            assert forall|k: int|
                0 <= k < self.sources.len() && !#[trigger] self.dirty[k] implies self.memos[k]
                == Some(self.funcs[k].spec_apply(inputs_of(self.values@, self.sources[k]@))) by {
                assert(k < d);
                assert(self.sources[k] == old(self).sources[k]);
            }
        }
        d
    }

    /// Replaces the sources of derived value `d`, as when its function
    /// reads other signals than before; it is recomputed on its next read.
    pub fn redepend(&mut self, d: usize, sources: Vec<usize>)
        requires
            old(self).wf(),
            d < old(self)@.sources.len(),
            forall|j: int| 0 <= j < sources.len() ==> sources[j] < old(self)@.values.len(),
        ensures
            final(self).wf(),
            final(self)@ == (StoreView {
                sources: old(self)@.sources.update(d as int, sources@),
                dirty: old(self)@.dirty.update(d as int, true),
                ..old(self)@
            }),
    {
        let ghost src = sources@;
        self.sources.set(d, sources);
        self.dirty.set(d, true);
        proof {
            assert(self@.sources =~= old(self)@.sources.update(d as int, src));
            assert(self@.dirty =~= old(self)@.dirty.update(d as int, true));
            assert forall|k: int, j: int|
                0 <= k < self.sources.len() && 0 <= j < self.sources[k].len() implies
                self.sources[k][j] < self.values.len() by {
                if k != d {
                    assert(self.sources[k] == old(self).sources[k]);
                }
            }
            assert forall|k: int|
                0 <= k < self.sources.len() && !#[trigger] self.dirty[k] implies self.memos[k]
                == Some(self.funcs[k].spec_apply(inputs_of(self.values@, self.sources[k]@))) by {
                assert(k != d);
                assert(self.sources[k] == old(self).sources[k]);
            }
        }
    }

    /// The value of derived value `d` over the current signals. Recomputed
    /// only when dirty; the result is kept and the dirty flag cleared.
    pub fn read_derived(&mut self, d: usize) -> (r: T)
        requires
            old(self).wf(),
            d < old(self)@.sources.len(),
        ensures
            final(self).wf(),
            r == old(self)@.funcs[d as int].spec_apply(
                inputs_of(old(self)@.values, old(self)@.sources[d as int]),
            ),
            final(self)@ == (StoreView {
                dirty: old(self)@.dirty.update(d as int, false),
                ..old(self)@
            }),
    {
        if !self.dirty[d] {
            let memo = self.memos[d];
            match memo {
                Some(v) => {
                    proof {
                        assert(self@.dirty =~= old(self)@.dirty.update(d as int, false));
                    }
                    return v;
                },
                None => {
                    proof {
                        assert(false);
                    }
                },
            }
        }
        let src = &self.sources[d];
        let mut inputs: Vec<T> = Vec::new();
        let mut j: usize = 0;
        while j < src.len()
            invariant
                self.wf(),
                d < self.sources.len(),
                *src == self.sources[d as int],
                0 <= j <= src.len(),
                inputs@ =~= inputs_of(self.values@, src@).take(j as int),
            decreases src.len() - j,
        {
            inputs.push(self.values[src[j]]);
            j += 1;
        }
        proof {
            assert(inputs_of(self.values@, src@).take(src.len() as int) =~= inputs_of(
                self.values@,
                src@,
            ));
        }
        let v = self.funcs[d].apply(&inputs);
        self.memos.set(d, Some(v));
        self.dirty.set(d, false);
        proof {
            assert(self@.dirty =~= old(self)@.dirty.update(d as int, false));
            assert(self@.sources =~= old(self)@.sources);
            assert(self@.subscribers =~= old(self)@.subscribers);
        }
        v
    }
}

/// Whether `x` occurs in `v`.
fn contains_index(v: &Vec<usize>, x: usize) -> (r: bool)
    ensures
        r == v@.contains(x),
{
    let mut i: usize = 0;
    while i < v.len()
        invariant
            0 <= i <= v.len(),
            forall|j: int| 0 <= j < i ==> v@[j] != x,
        decreases v.len() - i,
    {
        if v[i] == x {
            return true;
        }
        i += 1;
    }
    false
}

} // verus!
