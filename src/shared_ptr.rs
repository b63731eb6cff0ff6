use vstd::prelude::*;
use core::marker::PhantomData;

verus! {

/// What an allocation record holds at one moment: the payload (gone once the
/// last strong pointer is released) and the two counters.
pub ghost struct RecordView<T> {
    pub payload: Option<T>,
    pub strong: nat,
    pub weak: nat,
}

/// The pointer operations, as they act on one allocation record.
pub ghost enum CountOp {
    CloneStrong,
    ReleaseStrong,
    Downgrade,
    CloneWeak,
    ReleaseWeak,
    Upgrade,
}

/// Effect of one operation on the record it targets.
pub open spec fn apply_op<T>(r: RecordView<T>, op: CountOp) -> RecordView<T> {
    match op {
        CountOp::CloneStrong => if r.strong > 0 {
            RecordView { strong: r.strong + 1, ..r }
        } else {
            r
        },
        CountOp::ReleaseStrong => if r.strong == 0 {
            r
        } else if r.strong == 1 {
            RecordView { payload: None, strong: 0, weak: r.weak }
        } else {
            RecordView { strong: (r.strong - 1) as nat, ..r }
        },
        CountOp::Downgrade => RecordView { weak: r.weak + 1, ..r },
        CountOp::CloneWeak => RecordView { weak: r.weak + 1, ..r },
        CountOp::ReleaseWeak => if r.weak == 0 {
            r
        } else {
            RecordView { weak: (r.weak - 1) as nat, ..r }
        },
        CountOp::Upgrade => if r.strong > 0 {
            RecordView { strong: r.strong + 1, ..r }
        } else {
            r
        },
    }
}

/// Effect of a sequence of operations, applied in order, on one record.
pub open spec fn apply_ops<T>(r: RecordView<T>, ops: Seq<CountOp>) -> RecordView<T>
    decreases ops.len(),
{
    if ops.len() == 0 {
        r
    } else {
        apply_op(apply_ops(r, ops.drop_last()), ops.last())
    }
}

/// How many times `op` occurs in `ops`.
pub open spec fn occurrences(ops: Seq<CountOp>, op: CountOp) -> nat
    decreases ops.len(),
{
    if ops.len() == 0 {
        0
    } else {
        occurrences(ops.drop_last(), op) + if ops.last() == op {
            1nat
        } else {
            0nat
        }
    }
}

/// `ops` holds only strong clones and releases of a record that started with one
/// strong pointer, and before each of them at least one strong pointer is left.
pub open spec fn strong_ops_on_live_record(ops: Seq<CountOp>) -> bool {
    forall|k: int|
        0 <= k < ops.len() ==> (ops[k] == CountOp::CloneStrong || ops[k] == CountOp::ReleaseStrong)
            && occurrences(#[trigger] ops.take(k), CountOp::ReleaseStrong) < 1 + occurrences(
            ops.take(k),
            CountOp::CloneStrong,
        )
}

/// After N strong clones and M strong releases of a fresh record, its strong count
/// is 1 + N - M; the payload stays in place before every one of those operations,
/// and it is gone after them exactly when the count has reached zero.
pub proof fn lemma_strong_count_after_clones_and_releases<T>(r: RecordView<T>, ops: Seq<CountOp>)
    requires
        r.strong == 1,
        r.payload is Some,
        strong_ops_on_live_record(ops),
    ensures
        apply_ops(r, ops).strong == 1 + occurrences(ops, CountOp::CloneStrong) - occurrences(
            ops,
            CountOp::ReleaseStrong,
        ),
        apply_ops(r, ops).weak == r.weak,
        apply_ops(r, ops).payload == (if apply_ops(r, ops).strong == 0 {
            None
        } else {
            r.payload
        }),
        forall|k: int| 0 <= k < ops.len() ==> (#[trigger] apply_ops(r, ops.take(k))).payload == r.payload,
    decreases ops.len(),
{
    if ops.len() > 0 {
        let p = ops.drop_last();
        assert forall|k: int| 0 <= k < p.len() implies (p[k] == CountOp::CloneStrong || p[k]
            == CountOp::ReleaseStrong) && occurrences(#[trigger] p.take(k), CountOp::ReleaseStrong)
            < 1 + occurrences(p.take(k), CountOp::CloneStrong) by {
            assert(p.take(k) =~= ops.take(k));
        }
        lemma_strong_count_after_clones_and_releases(r, p);
        assert(ops.take(p.len() as int) =~= p);
        assert(ops[p.len() as int] == ops.last());
        assert forall|k: int| 0 <= k < ops.len() implies (#[trigger] apply_ops(
            r,
            ops.take(k),
        )).payload == r.payload by {
            if k < p.len() {
                assert(ops.take(k) =~= p.take(k));
            } else {
                assert(ops.take(k) =~= p);
            }
        }
    }
}

/// Once a record's strong count is zero, no sequence of operations brings it back:
/// the count stays zero, the payload stays gone, and every upgrade along the way
/// finds nothing, whatever the weak count is.
pub proof fn lemma_dead_record_stays_dead<T>(r: RecordView<T>, ops: Seq<CountOp>)
    requires
        r.strong == 0,
        r.payload is None,
    ensures
        apply_ops(r, ops).strong == 0,
        apply_ops(r, ops).payload is None,
        forall|k: int| 0 <= k <= ops.len() ==> (#[trigger] apply_ops(r, ops.take(k))).strong == 0,
    decreases ops.len(),
{
    if ops.len() > 0 {
        let p = ops.drop_last();
        lemma_dead_record_stays_dead(r, p);
        assert forall|k: int| 0 <= k <= ops.len() implies (#[trigger] apply_ops(
            r,
            ops.take(k),
        )).strong == 0 by {
            if k < ops.len() {
                assert(ops.take(k) =~= p.take(k));
            } else {
                assert(ops.take(k) =~= ops);
            }
        }
    }
}

/// Cloning a live strong pointer, downgrading the clone and upgrading the weak
/// pointer succeeds; the upgrade adds exactly one to the strong count, and the
/// payload reached is the original one.
pub proof fn lemma_clone_downgrade_upgrade<T>(r: RecordView<T>)
    requires
        r.strong > 0,
    ensures
        ({
            let cloned = apply_op(r, CountOp::CloneStrong);
            let weakened = apply_op(cloned, CountOp::Downgrade);
            let upgraded = apply_op(weakened, CountOp::Upgrade);
            &&& weakened.strong > 0
            &&& weakened.strong == r.strong + 1
            &&& upgraded.strong == weakened.strong + 1
            &&& upgraded.weak == r.weak + 1
            &&& upgraded.payload == r.payload
        }),
{
}

struct Record<T> {
    payload: Option<T>,
    strong: usize,
    weak: usize,
}

impl<T> Record<T> {
    spec fn view(&self) -> RecordView<T> {
        RecordView { payload: self.payload, strong: self.strong as nat, weak: self.weak as nat }
    }
}

/// The store that holds every allocation record; one record per `SharedPtr::new`.
pub struct Heap<T> {
    records: Vec<Record<T>>,
}

impl<T> View for Heap<T> {
    type V = Seq<RecordView<T>>;

    closed spec fn view(&self) -> Seq<RecordView<T>> {
        self.records@.map_values(|r: Record<T>| r.view())
    }
}

impl<T> Heap<T> {
    /// Every record's payload is present exactly while its strong count is positive.
    pub open spec fn wf(&self) -> bool {
        forall|i: int|
            0 <= i < self@.len() ==> (#[trigger] self@[i].strong > 0 <==> self@[i].payload is Some)
    }

    pub fn new() -> (h: Heap<T>)
        ensures
            h.wf(),
            h@.len() == 0,
    {
        Heap { records: Vec::new() }
    }
}


/// An owning handle to one allocation record of a `Heap<T>`. It is not `Clone`:
/// a new strong handle is made only through `clone_strong` or `upgrade`, which
/// count it, and `release` consumes it.
pub struct SharedPtr<T> {
    id: usize,
    marker: PhantomData<T>,
}

/// A non-owning handle to an allocation record; an empty one refers to none.
pub struct WeakPtr<T> {
    id: Option<usize>,
    marker: PhantomData<T>,
}

impl<T> SharedPtr<T> {
    /// The index of the allocation record this handle refers to.
    pub closed spec fn id(&self) -> nat {
        self.id as nat
    }

    /// Allocates a record holding `value`, with strong count 1 and weak count 0.
    pub fn new(heap: &mut Heap<T>, value: T) -> (p: SharedPtr<T>)
        requires
            old(heap).wf(),
        ensures
            final(heap).wf(),
            p.id() == old(heap)@.len(),
            final(heap)@ == old(heap)@.push(RecordView { payload: Some(value), strong: 1, weak: 0 }),
    {
        let id = heap.records.len();
        heap.records.push(Record { payload: Some(value), strong: 1, weak: 0 });
        proof {
            assert(heap@ =~= old(heap)@.push(RecordView { payload: Some(value), strong: 1, weak: 0 }));
        }
        SharedPtr { id, marker: PhantomData }
    }

    /// A second strong handle to the same record; the strong count grows by one.
    pub fn clone_strong(&self, heap: &mut Heap<T>) -> (p: SharedPtr<T>)
        requires
            old(heap).wf(),
            self.id() < old(heap)@.len(),
            old(heap)@[self.id() as int].strong > 0,
            old(heap)@[self.id() as int].strong < usize::MAX,
        ensures
            final(heap).wf(),
            p.id() == self.id(),
            final(heap)@ == old(heap)@.update(
                self.id() as int,
                apply_op(old(heap)@[self.id() as int], CountOp::CloneStrong),
            ),
    {
        let r = &mut heap.records[self.id];
        r.strong = r.strong + 1;
        proof {
            assert(heap@ =~= old(heap)@.update(
                self.id() as int,
                apply_op(old(heap)@[self.id() as int], CountOp::CloneStrong),
            ));
        }
        SharedPtr { id: self.id, marker: PhantomData }
    }
}


impl<T> SharedPtr<T> {
    /// Releases this handle. The strong count drops by one; the release that
    /// brings it to zero takes the payload out of the record and hands it back,
    /// so that it is dropped there, exactly once. Every other release returns `None`.
    pub fn release(self, heap: &mut Heap<T>) -> (r: Option<T>)
        requires
            old(heap).wf(),
            self.id() < old(heap)@.len(),
        ensures
            final(heap).wf(),
            final(heap)@ == old(heap)@.update(
                self.id() as int,
                apply_op(old(heap)@[self.id() as int], CountOp::ReleaseStrong),
            ),
            r == (if old(heap)@[self.id() as int].strong == 1 {
                old(heap)@[self.id() as int].payload
            } else {
                None
            }),
    {
        let ghost target = apply_op(old(heap)@[self.id() as int], CountOp::ReleaseStrong);
        let r = &mut heap.records[self.id];
        let out = if r.strong == 0 {
            None
        } else if r.strong == 1 {
            r.strong = 0;
            r.payload.take()
        } else {
            r.strong = r.strong - 1;
            None
        };
        proof {
            assert(heap@ =~= old(heap)@.update(self.id() as int, target));
        }
        out
    }

    /// A weak handle to the same record; the weak count grows by one and the
    /// strong count is untouched.
    pub fn downgrade(&self, heap: &mut Heap<T>) -> (w: WeakPtr<T>)
        requires
            old(heap).wf(),
            self.id() < old(heap)@.len(),
            old(heap)@[self.id() as int].weak < usize::MAX,
        ensures
            final(heap).wf(),
            w.target() == Some(self.id()),
            final(heap)@ == old(heap)@.update(
                self.id() as int,
                apply_op(old(heap)@[self.id() as int], CountOp::Downgrade),
            ),
    {
        let ghost target = apply_op(old(heap)@[self.id() as int], CountOp::Downgrade);
        let r = &mut heap.records[self.id];
        r.weak = r.weak + 1;
        proof {
            assert(heap@ =~= old(heap)@.update(self.id() as int, target));
        }
        WeakPtr { id: Some(self.id), marker: PhantomData }
    }

    /// The record's strong count, for inspection only.
    pub fn strong_count(&self, heap: &Heap<T>) -> (n: usize)
        requires
            self.id() < heap@.len(),
        ensures
            n == heap@[self.id() as int].strong,
    {
        heap.records[self.id].strong
    }

    /// The record's weak count, for inspection only.
    pub fn weak_count(&self, heap: &Heap<T>) -> (n: usize)
        requires
            self.id() < heap@.len(),
        ensures
            n == heap@[self.id() as int].weak,
    {
        heap.records[self.id].weak
    }

    /// Whether both handles refer to the same allocation record.
    pub fn ptr_eq(&self, other: &SharedPtr<T>) -> (b: bool)
        ensures
            b == (self.id() == other.id()),
    {
        self.id == other.id
    }

    /// Read access to the payload, which a live strong handle keeps present.
    pub fn get<'a>(&self, heap: &'a Heap<T>) -> (v: &'a T)
        requires
            heap.wf(),
            self.id() < heap@.len(),
            heap@[self.id() as int].strong > 0,
        ensures
            Some(*v) == heap@[self.id() as int].payload,
    {
        assert(heap@[self.id() as int].strong > 0);
        heap.records[self.id].payload.as_ref().unwrap()
    }

    /// Write access to the payload; the counts stay as they are.
    pub fn get_mut<'a>(&self, heap: &'a mut Heap<T>) -> (v: &'a mut T)
        requires
            old(heap).wf(),
            self.id() < old(heap)@.len(),
            old(heap)@[self.id() as int].strong > 0,
        ensures
            old(heap)@[self.id() as int].payload == Some(*v),
            final(heap)@ == old(heap)@.update(
                self.id() as int,
                RecordView { payload: Some(*final(v)), ..old(heap)@[self.id() as int] },
            ),
    {
        assert(old(heap)@[self.id() as int].strong > 0);
        let r = &mut heap.records[self.id];
        match &mut r.payload {
            Some(v) => v,
            None => vstd::pervasive::unreached(),
        }
    }
}

impl<T> WeakPtr<T> {
    /// The index of the record this handle observes, if any.
    pub closed spec fn target(&self) -> Option<nat> {
        match self.id {
            Some(i) => Some(i as nat),
            None => None,
        }
    }

    /// Whether the handle may be used with `heap`.
    pub open spec fn valid_in(&self, heap: &Heap<T>) -> bool {
        self.target() is Some ==> self.target()->0 < heap@.len()
    }

    /// A weak handle that observes no record: it counts nowhere and never upgrades.
    pub fn empty() -> (w: WeakPtr<T>)
        ensures
            w.target() is None,
    {
        WeakPtr { id: None, marker: PhantomData }
    }

    /// A second weak handle to the same record; its weak count grows by one.
    pub fn clone_weak(&self, heap: &mut Heap<T>) -> (w: WeakPtr<T>)
        requires
            old(heap).wf(),
            self.valid_in(old(heap)),
            self.target() is Some ==> old(heap)@[self.target()->0 as int].weak < usize::MAX,
        ensures
            final(heap).wf(),
            w.target() == self.target(),
            final(heap)@ == (match self.target() {
                Some(i) => old(heap)@.update(i as int, apply_op(old(heap)@[i as int], CountOp::CloneWeak)),
                None => old(heap)@,
            }),
    {
        match self.id {
            Some(id) => {
                let ghost target = apply_op(old(heap)@[id as int], CountOp::CloneWeak);
                let r = &mut heap.records[id];
                r.weak = r.weak + 1;
                proof {
                    assert(heap@ =~= old(heap)@.update(id as int, target));
                }
            },
            None => {},
        }
        WeakPtr { id: self.id, marker: PhantomData }
    }

    /// Releases this handle: the weak count of its record drops by one.
    pub fn release(self, heap: &mut Heap<T>)
        requires
            old(heap).wf(),
            self.valid_in(old(heap)),
        ensures
            final(heap).wf(),
            final(heap)@ == (match self.target() {
                Some(i) => old(heap)@.update(i as int, apply_op(old(heap)@[i as int], CountOp::ReleaseWeak)),
                None => old(heap)@,
            }),
    {
        match self.id {
            Some(id) => {
                let ghost target = apply_op(old(heap)@[id as int], CountOp::ReleaseWeak);
                let r = &mut heap.records[id];
                if r.weak > 0 {
                    r.weak = r.weak - 1;
                }
                proof {
                    assert(heap@ =~= old(heap)@.update(id as int, target));
                }
            },
            None => {},
        }
    }

    /// A new strong handle to the observed record if its payload is still alive
    /// (strong count above zero), which then grows by one; else `None`.
    pub fn upgrade(&self, heap: &mut Heap<T>) -> (p: Option<SharedPtr<T>>)
        requires
            old(heap).wf(),
            self.valid_in(old(heap)),
            self.target() is Some ==> old(heap)@[self.target()->0 as int].strong < usize::MAX,
        ensures
            final(heap).wf(),
            p is Some <==> (self.target() is Some && old(heap)@[self.target()->0 as int].strong > 0),
            p is Some ==> p->0.id() == self.target()->0,
            final(heap)@ == (match self.target() {
                Some(i) => old(heap)@.update(i as int, apply_op(old(heap)@[i as int], CountOp::Upgrade)),
                None => old(heap)@,
            }),
    {
        match self.id {
            Some(id) => {
                let ghost target = apply_op(old(heap)@[id as int], CountOp::Upgrade);
                let r = &mut heap.records[id];
                if r.strong > 0 {
                    r.strong = r.strong + 1;
                    proof {
                        assert(heap@ =~= old(heap)@.update(id as int, target));
                    }
                    Some(SharedPtr { id, marker: PhantomData })
                } else {
                    proof {
                        assert(heap@ =~= old(heap)@.update(id as int, target));
                    }
                    None
                }
            },
            None => None,
        }
    }

    /// The strong count of the observed record, or 0 for an empty handle.
    pub fn strong_count(&self, heap: &Heap<T>) -> (n: usize)
        requires
            self.valid_in(heap),
        ensures
            n == (match self.target() {
                Some(i) => heap@[i as int].strong,
                None => 0,
            }),
    {
        match self.id {
            Some(id) => heap.records[id].strong,
            None => 0,
        }
    }

    /// The weak count of the observed record, or 0 for an empty handle.
    pub fn weak_count(&self, heap: &Heap<T>) -> (n: usize)
        requires
            self.valid_in(heap),
        ensures
            n == (match self.target() {
                Some(i) => heap@[i as int].weak,
                None => 0,
            }),
    {
        match self.id {
            Some(id) => heap.records[id].weak,
            None => 0,
        }
    }
}

} // verus!
