//! The ordered log store: a totally ordered log of entries keyed by index.

use vstd::prelude::*;

verus! {

/// Identity of a cluster node.
pub type NodeId = u64;

/// Copies a vector of plain values.
pub fn copy_vec<T: Copy>(v: &Vec<T>) -> (r: Vec<T>)
    ensures
        r@ == v@,
{
    let mut out: Vec<T> = Vec::new();
    let mut i: usize = 0;
    while i < v.len()
        invariant
            i <= v.len(),
            out@ == v@.take(i as int),
        decreases v.len() - i,
    {
        out.push(v[i]);
        proof {
            assert(v@.take(i as int + 1) =~= v@.take(i as int).push(v@[i as int]));
        }
        i = i + 1;
    }
    proof {
        assert(v@.take(v@.len() as int) =~= v@);
    }
    out
}

/// The set of nodes that vote and replicate.
pub struct Membership {
    pub members: Vec<NodeId>,
}

impl View for Membership {
    type V = Seq<NodeId>;

    open spec fn view(&self) -> Seq<NodeId> {
        self.members@
    }
}

impl Clone for Membership {
    fn clone(&self) -> (r: Self)
        ensures
            r@ == self@,
    {
        Membership { members: copy_vec(&self.members) }
    }
}

impl Membership {
    /// The configuration of a cluster that holds only `id`.
    pub fn new_initial(id: NodeId) -> (r: Membership)
        ensures
            r@ == seq![id],
    {
        let mut members: Vec<NodeId> = Vec::new();
        members.push(id);
        Membership { members }
    }
}

/// What a log entry carries.
pub enum EntryPayload {
    /// No command (written by a new leader).
    Blank,
    /// An encoded command for the state machine.
    Normal(Vec<u8>),
    /// A change of membership.
    ConfigChange(Membership),
    /// Marks where a snapshot took the place of the log, with its membership.
    SnapshotPointer(Membership),
}

/// An entry payload, as the values it holds.
pub enum PayloadModel {
    Blank,
    Normal(Seq<u8>),
    ConfigChange(Seq<NodeId>),
    SnapshotPointer(Seq<NodeId>),
}

impl View for EntryPayload {
    type V = PayloadModel;

    open spec fn view(&self) -> PayloadModel {
        match self {
            EntryPayload::Blank => PayloadModel::Blank,
            EntryPayload::Normal(b) => PayloadModel::Normal(b@),
            EntryPayload::ConfigChange(m) => PayloadModel::ConfigChange(m@),
            EntryPayload::SnapshotPointer(m) => PayloadModel::SnapshotPointer(m@),
        }
    }
}

impl Clone for EntryPayload {
    fn clone(&self) -> (r: Self)
        ensures
            r@ == self@,
    {
        match self {
            EntryPayload::Blank => EntryPayload::Blank,
            EntryPayload::Normal(b) => EntryPayload::Normal(copy_vec(b)),
            EntryPayload::ConfigChange(m) => EntryPayload::ConfigChange(m.clone()),
            EntryPayload::SnapshotPointer(m) => EntryPayload::SnapshotPointer(m.clone()),
        }
    }
}

/// One entry of the log.
pub struct Entry {
    pub index: u64,
    pub term: u64,
    pub payload: EntryPayload,
}

/// A log entry, as the values it holds.
pub struct EntryModel {
    pub index: u64,
    pub term: u64,
    pub payload: PayloadModel,
}

impl View for Entry {
    type V = EntryModel;

    open spec fn view(&self) -> EntryModel {
        EntryModel { index: self.index, term: self.term, payload: self.payload@ }
    }
}

impl Clone for Entry {
    fn clone(&self) -> (r: Self)
        ensures
            r@ == self@,
    {
        Entry { index: self.index, term: self.term, payload: self.payload.clone() }
    }
}

/// The entries of a vector, as values.
pub open spec fn entries_view(v: Seq<Entry>) -> Seq<EntryModel> {
    v.map_values(|e: Entry| e@)
}

/// Indices strictly increase along the log.
pub open spec fn sorted(s: Seq<EntryModel>) -> bool {
    forall|i: int, j: int| 0 <= i < j < s.len() ==> s[i].index < s[j].index
}

/// Some entry of the log has index `k`.
pub open spec fn has_index(s: Seq<EntryModel>, k: int) -> bool {
    exists|i: int| 0 <= i < s.len() && s[i].index == k
}

/// The entries whose index lies in `[lo, hi)`, in log order.
pub open spec fn in_range(s: Seq<EntryModel>, lo: int, hi: int) -> Seq<EntryModel>
    decreases s.len(),
{
    if s.len() == 0 {
        seq![]
    } else {
        let rest = in_range(s.drop_last(), lo, hi);
        if lo <= s.last().index < hi {
            rest.push(s.last())
        } else {
            rest
        }
    }
}

/// The entries whose index lies outside `[lo, hi)`, in log order.
pub open spec fn outside_range(s: Seq<EntryModel>, lo: int, hi: int) -> Seq<EntryModel>
    decreases s.len(),
{
    if s.len() == 0 {
        seq![]
    } else {
        let rest = outside_range(s.drop_last(), lo, hi);
        if lo <= s.last().index < hi {
            rest
        } else {
            rest.push(s.last())
        }
    }
}

/// The membership carried by an entry, if it carries one.
pub open spec fn entry_config(e: EntryModel) -> Option<Seq<NodeId>> {
    match e.payload {
        PayloadModel::ConfigChange(m) => Some(m),
        PayloadModel::SnapshotPointer(m) => Some(m),
        _ => None,
    }
}

/// The membership that a log gives a node: that of its last entry carrying one,
/// else the cluster of `id` alone.
pub open spec fn membership_of(s: Seq<EntryModel>, id: NodeId) -> Seq<NodeId> {
    match latest_config(s) {
        Some(m) => m,
        None => seq![id],
    }
}

/// The membership of the last entry that carries one.
pub open spec fn latest_config(s: Seq<EntryModel>) -> Option<Seq<NodeId>>
    decreases s.len(),
{
    if s.len() == 0 {
        None
    } else if entry_config(s.last()) is Some {
        entry_config(s.last())
    } else {
        latest_config(s.drop_last())
    }
}

/// Why the log refused a write.
#[derive(Clone, Copy, Debug, PartialEq, Eq, Structural)]
pub enum LogError {
    /// An entry already exists at the index (or a batch names an index twice).
    Conflict(u64),
}

/// A batch can be appended: none of its indices is in the log, and none occurs
/// twice in it.
pub open spec fn batch_fits(s: Seq<EntryModel>, b: Seq<EntryModel>) -> bool {
    &&& forall|i: int| 0 <= i < b.len() ==> !has_index(s, #[trigger] b[i].index as int)
    &&& forall|i: int, j: int| 0 <= i < j < b.len() ==> b[i].index != b[j].index
}

/// A log in index order is determined by the entries it holds: two such logs
/// with the same entries are the same sequence.
pub proof fn lemma_sorted_determined(a: Seq<EntryModel>, b: Seq<EntryModel>)
    requires
        sorted(a),
        sorted(b),
        forall|x: EntryModel| a.contains(x) <==> b.contains(x),
    ensures
        a == b,
    decreases a.len(),
{
    if a.len() == 0 {
        if b.len() > 0 {
            assert(b.contains(b[0]));
            assert(a.contains(b[0]));
        }
        assert(a =~= b);
    } else {
        assert(a.contains(a[0]));
        assert(b.len() > 0);
        let na = a.len() - 1;
        let nb = b.len() - 1;
        let la = a[na];
        let lb = b[nb];
        assert(a.contains(la));
        let j = choose|j: int| 0 <= j < b.len() && b[j] == la;
        assert(b.contains(lb));
        let i = choose|i: int| 0 <= i < a.len() && a[i] == lb;
        if i < na {
            assert(a[i].index < la.index);
            if j < nb {
                assert(b[j].index < lb.index);
            }
        }
        if j < nb {
            assert(b[j].index < lb.index);
            if i < na {
                assert(a[i].index < la.index);
            }
        }
        assert(i == na && j == nb);
        let a2 = a.drop_last();
        let b2 = b.drop_last();
        assert(sorted(a2));
        assert(sorted(b2));
        assert forall|x: EntryModel| a2.contains(x) <==> b2.contains(x) by {
            if a2.contains(x) {
                let k = choose|k: int| 0 <= k < a2.len() && a2[k] == x;
                assert(a[k] == x);
                assert(x.index < la.index);
                assert(a.contains(x));
                let m = choose|m: int| 0 <= m < b.len() && b[m] == x;
                assert(m != nb);
                assert(b2[m] == x);
            }
            if b2.contains(x) {
                let k = choose|k: int| 0 <= k < b2.len() && b2[k] == x;
                assert(b[k] == x);
                assert(x.index < lb.index);
                assert(b.contains(x));
                let m = choose|m: int| 0 <= m < a.len() && a[m] == x;
                assert(m != na);
                assert(a2[m] == x);
            }
        }
        lemma_sorted_determined(a2, b2);
        assert(a =~= b2.push(lb));
        assert(b =~= b2.push(lb));
    }
}

/// Reading a range whose start lies past its end yields nothing.
pub proof fn lemma_in_range_empty(s: Seq<EntryModel>, lo: int, hi: int)
    requires
        lo > hi,
    ensures
        in_range(s, lo, hi) == Seq::<EntryModel>::empty(),
    decreases s.len(),
{
    if s.len() > 0 {
        lemma_in_range_empty(s.drop_last(), lo, hi);
    }
}

/// Dropping a range from a log keeps it in index order, and keeps only entries
/// that were there.
pub proof fn lemma_outside_range_sorted(s: Seq<EntryModel>, lo: int, hi: int)
    requires
        sorted(s),
    ensures
        sorted(outside_range(s, lo, hi)),
        forall|x: EntryModel| outside_range(s, lo, hi).contains(x) ==> s.contains(x),
        forall|x: EntryModel| outside_range(s, lo, hi).contains(x) ==> !(lo <= x.index < hi),
    decreases s.len(),
{
    if s.len() > 0 {
        let d = s.drop_last();
        assert(sorted(d));
        lemma_outside_range_sorted(d, lo, hi);
        let r = outside_range(d, lo, hi);
        assert forall|x: EntryModel| r.contains(x) implies s.contains(x) && x.index < s.last().index by {
            assert(d.contains(x));
            let i = choose|i: int| 0 <= i < d.len() && d[i] == x;
            assert(d[i] == s[i]);
            assert(s[i].index < s[s.len() - 1].index);
        }
        if !(lo <= s.last().index < hi) {
            let r2 = r.push(s.last());
            assert forall|i: int, j: int| 0 <= i < j < r2.len() implies r2[i].index < r2[j].index by {
                if j == r.len() {
                    assert(r.contains(r2[i]));
                }
            }
            assert forall|x: EntryModel| r2.contains(x) implies s.contains(x) && !(lo <= x.index < hi) by {
                let i = choose|i: int| 0 <= i < r2.len() && r2[i] == x;
                if i < r.len() {
                    assert(r.contains(x));
                } else {
                    assert(s[s.len() - 1] == x);
                }
            }
        }
    }
}

/// The log, kept in index order.
pub struct LogStore {
    entries: Vec<Entry>,
}

impl View for LogStore {
    type V = Seq<EntryModel>;

    closed spec fn view(&self) -> Seq<EntryModel> {
        entries_view(self.entries@)
    }
}

impl LogStore {
    /// The store's invariant: indices strictly increase.
    pub open spec fn wf(&self) -> bool {
        sorted(self@)
    }

    /// An empty log.
    pub fn new() -> (r: LogStore)
        ensures
            r.wf(),
            r@ == Seq::<EntryModel>::empty(),
    {
        let r = LogStore { entries: Vec::new() };
        proof {
            assert(r@ =~= Seq::<EntryModel>::empty());
        }
        r
    }

    /// Number of entries.
    pub fn len(&self) -> (r: usize)
        ensures
            r == self@.len(),
    {
        self.entries.len()
    }

    /// Appends one entry. Fails with `Conflict` if an entry already has its
    /// index (indices are assigned once); otherwise the log holds the entry
    /// besides what it held, still in index order.
    pub fn append_entry(&mut self, e: Entry) -> (r: Result<(), LogError>)
        requires
            old(self).wf(),
        ensures
            final(self).wf(),
            has_index(old(self)@, e.index as int) ==> r == Err::<(), LogError>(LogError::Conflict(e.index)) && final(self)@ == old(self)@,
            !has_index(old(self)@, e.index as int) ==> r is Ok,
            r is Ok ==> forall|x: EntryModel|
                #[trigger] final(self)@.contains(x) <==> (old(self)@.contains(x) || x == e@),
    {
        let k = e.index;
        let ghost s = self@;
        let mut p: usize = 0;
        while p < self.entries.len() && self.entries[p].index < k
            invariant
                p <= self.entries.len(),
                s == self@,
                forall|i: int| 0 <= i < p ==> #[trigger] s[i].index < k,
            decreases self.entries.len() - p,
        {
            p = p + 1;
        }
        if p < self.entries.len() && self.entries[p].index == k {
            proof {
                assert(s[p as int].index == k);
            }
            return Err(LogError::Conflict(k));
        }
        proof {
            assert forall|i: int| p <= i < s.len() implies #[trigger] s[i].index > k by {
                assert(s[p as int].index <= s[i].index);
            }
            assert(!has_index(s, k as int));
        }
        let ghost ev = e@;
        self.entries.insert(p, e);
        proof {
            assert(self@ =~= s.insert(p as int, ev));
            assert forall|i: int, j: int| 0 <= i < j < self@.len() implies self@[i].index
                < self@[j].index by {
                if j < p {
                    assert(self@[i] == s[i] && self@[j] == s[j]);
                } else if j == p {
                    assert(self@[i] == s[i]);
                } else if i < p {
                    assert(self@[i] == s[i] && self@[j] == s[j - 1]);
                } else if i == p {
                    assert(self@[j] == s[j - 1]);
                } else {
                    assert(self@[i] == s[i - 1] && self@[j] == s[j - 1]);
                }
            }
            assert forall|x: EntryModel| self@.contains(x) <==> (s.contains(x) || x == ev) by {
                if self@.contains(x) {
                    let i = choose|i: int| 0 <= i < self@.len() && self@[i] == x;
                    if i < p {
                        assert(s[i] == x);
                        assert(s.contains(x));
                    } else if i > p {
                        assert(s[i - 1] == x);
                        assert(s.contains(x));
                    }
                }
                if s.contains(x) {
                    let i = choose|i: int| 0 <= i < s.len() && s[i] == x;
                    if i < p {
                        assert(self@[i] == x);
                    } else {
                        assert(self@[i + 1] == x);
                    }
                    assert(self@.contains(x));
                }
                if x == ev {
                    assert(self@[p as int] == x);
                    assert(self@.contains(x));
                }
            }
        }
        proof {
            assert(forall|x: EntryModel| #[trigger] self@.contains(x) <==> (s.contains(x) || x == ev));
            assert(s == old(self)@);
            assert(ev == e@);
        }
        Ok(())
    }

    /// Whether an entry has index `k`.
    pub fn contains_index(&self, k: u64) -> (r: bool)
        ensures
            r == has_index(self@, k as int),
    {
        let mut i: usize = 0;
        while i < self.entries.len()
            invariant
                i <= self.entries.len(),
                forall|j: int| 0 <= j < i ==> #[trigger] self@[j].index != k,
            decreases self.entries.len() - i,
        {
            if self.entries[i].index == k {
                proof {
                    assert(self@[i as int].index == k);
                }
                return true;
            }
            i = i + 1;
        }
        false
    }

    /// Appends a batch of entries as one unit: all of them, or none (and
    /// `Conflict`) where one of their indices is in the log or occurs twice in
    /// the batch.
    pub fn append_batch(&mut self, batch: Vec<Entry>) -> (r: Result<(), LogError>)
        requires
            old(self).wf(),
        ensures
            final(self).wf(),
            r is Ok <==> batch_fits(old(self)@, entries_view(batch@)),
            r is Err ==> final(self)@ == old(self)@,
            r is Ok ==> forall|x: EntryModel|
                #[trigger] final(self)@.contains(x) <==> (old(self)@.contains(x) || entries_view(batch@).contains(x)),
    {
        let ghost b = entries_view(batch@);
        let ghost s0 = self@;
        let mut i: usize = 0;
        while i < batch.len()
            invariant
                i <= batch.len(),
                b == entries_view(batch@),
                s0 == self@,
                sorted(s0),
                forall|m: int| 0 <= m < i ==> !has_index(s0, #[trigger] b[m].index as int),
                forall|m: int, n: int| 0 <= m < n < i ==> b[m].index != b[n].index,
            decreases batch.len() - i,
        {
            let k = batch[i].index;
            proof {
                assert(b[i as int] == batch@[i as int]@);
            }
            if self.contains_index(k) {
                proof {
                    assert(has_index(s0, b[i as int].index as int));
                }
                return Err(LogError::Conflict(k));
            }
            let mut j: usize = 0;
            while j < i
                invariant
                    j <= i < batch.len(),
                    b == entries_view(batch@),
                    s0 == self@,
                    sorted(s0),
                    k == b[i as int].index,
                    forall|m: int| 0 <= m < j ==> #[trigger] b[m].index != k,
                decreases i - j,
            {
                if batch[j].index == k {
                    proof {
                        assert(b[j as int] == batch@[j as int]@);
                        assert(b[j as int].index == b[i as int].index);
                        assert(!batch_fits(s0, b));
                    }
                    return Err(LogError::Conflict(k));
                }
                j = j + 1;
            }
            i = i + 1;
        }
        let mut batch = batch;
        proof {
            assert(b.take(b.len() as int) =~= b);
        }
        while batch.len() > 0
            invariant
                self.wf(),
                batch_fits(s0, b),
                batch.len() <= b.len(),
                entries_view(batch@) == b.take(batch.len() as int),
                forall|x: EntryModel|
                    self@.contains(x) <==> (s0.contains(x) || b.skip(batch.len() as int).contains(x)),
            decreases batch.len(),
        {
            let ghost m: int = batch.len() - 1;
            let ghost len0: int = batch.len() as int;
            let ghost cur = self@;
            let ghost tail0 = b.skip(len0);
            let ghost tail1 = b.skip(m);
            proof {
                assert(entries_view(batch@)[m] == b.take(len0)[m]);
                assert(entries_view(batch@)[m] == batch@[m]@);
            }
            match batch.pop() {
                Some(e) => {
                    proof {
                        if has_index(cur, e.index as int) {
                            let i = choose|i: int| 0 <= i < cur.len() && cur[i].index == e.index;
                            assert(cur.contains(cur[i]));
                            if s0.contains(cur[i]) {
                                let q = choose|q: int| 0 <= q < s0.len() && s0[q] == cur[i];
                                assert(has_index(s0, b[m].index as int));
                            } else {
                                assert(tail0.contains(cur[i]));
                                let q = choose|q: int| 0 <= q < tail0.len() && tail0[q] == cur[i];
                                assert(tail0[q] == b[len0 + q]);
                                assert(b[len0 + q].index == b[m].index);
                            }
                        }
                    }
                    let ghost ev = e@;
                    let _ = self.append_entry(e);
                    proof {
                        assert(entries_view(batch@) =~= b.take(batch.len() as int));
                        assert forall|x: EntryModel| tail1.contains(x) <==> (tail0.contains(x) || x == ev) by {
                            if tail1.contains(x) {
                                let q = choose|q: int| 0 <= q < tail1.len() && tail1[q] == x;
                                if q > 0 {
                                    assert(tail0[q - 1] == x);
                                }
                            }
                            if tail0.contains(x) {
                                let q = choose|q: int| 0 <= q < tail0.len() && tail0[q] == x;
                                assert(tail1[q + 1] == x);
                            }
                            if x == ev {
                                assert(tail1[0] == x);
                            }
                        }
                    }
                },
                None => {},
            }
        }
        proof {
            assert(b.skip(batch.len() as int) =~= b);
            assert forall|x: EntryModel| #[trigger] self@.contains(x) <==> (s0.contains(x) || b.contains(x)) by {
                assert(self@.contains(x) <==> (s0.contains(x) || b.skip(batch.len() as int).contains(x)));
            }
        }
        Ok(())
    }

    /// The entries with index in `[start, stop)`, in index order; nothing when
    /// `start > stop`.
    pub fn read_range(&self, start: u64, stop: u64) -> (r: Vec<Entry>)
        ensures
            entries_view(r@) == in_range(self@, start as int, stop as int),
            start > stop ==> r@.len() == 0,
    {
        if start > stop {
            proof {
                lemma_in_range_empty(self@, start as int, stop as int);
            }
            let r: Vec<Entry> = Vec::new();
            proof {
                assert(entries_view(r@) =~= Seq::<EntryModel>::empty());
            }
            return r;
        }
        let ghost s = self@;
        let mut out: Vec<Entry> = Vec::new();
        let mut i: usize = 0;
        proof {
            assert(entries_view(out@) =~= in_range(s.take(0), start as int, stop as int));
        }
        while i < self.entries.len()
            invariant
                i <= self.entries.len(),
                s == self@,
                entries_view(out@) == in_range(s.take(i as int), start as int, stop as int),
            decreases self.entries.len() - i,
        {
            proof {
                assert(s.take(i as int + 1).drop_last() =~= s.take(i as int));
            }
            if start <= self.entries[i].index && self.entries[i].index < stop {
                let e = self.entries[i].clone();
                out.push(e);
                proof {
                    assert(entries_view(out@) =~= in_range(s.take(i as int), start as int, stop as int).push(s[i as int]));
                }
            }
            i = i + 1;
        }
        proof {
            assert(s.take(s.len() as int) =~= s);
        }
        out
    }

    /// Keeps the entries whose index lies outside a range whose ends may each be
    /// strict or not: `(lo or lo + 1) ..= (hi - 1 or hi)`.
    fn retain_outside(&mut self, lo: u64, hi: u64, lo_strict: bool, hi_incl: bool)
        requires
            old(self).wf(),
        ensures
            final(self).wf(),
            final(self)@ == outside_range(
                old(self)@,
                if lo_strict { lo + 1 } else { lo as int },
                if hi_incl { hi + 1 } else { hi as int },
            ),
    {
        let ghost glo: int = if lo_strict { lo + 1 } else { lo as int };
        let ghost ghi: int = if hi_incl { hi + 1 } else { hi as int };
        let ghost s = self@;
        let mut out: Vec<Entry> = Vec::new();
        let mut i: usize = 0;
        proof {
            assert(entries_view(out@) =~= outside_range(s.take(0), glo, ghi));
        }
        while i < self.entries.len()
            invariant
                i <= self.entries.len(),
                s == self@,
                sorted(s),
                glo == (if lo_strict { lo + 1 } else { lo as int }),
                ghi == (if hi_incl { hi + 1 } else { hi as int }),
                entries_view(out@) == outside_range(s.take(i as int), glo, ghi),
            decreases self.entries.len() - i,
        {
            proof {
                assert(s.take(i as int + 1).drop_last() =~= s.take(i as int));
            }
            let k = self.entries[i].index;
            let above = if lo_strict { k > lo } else { k >= lo };
            let below = if hi_incl { k <= hi } else { k < hi };
            if !(above && below) {
                let e = self.entries[i].clone();
                out.push(e);
                proof {
                    assert(entries_view(out@) =~= outside_range(s.take(i as int), glo, ghi).push(s[i as int]));
                }
            }
            i = i + 1;
        }
        proof {
            assert(s.take(s.len() as int) =~= s);
            lemma_outside_range_sorted(s, glo, ghi);
        }
        self.entries = out;
    }

    /// Deletes entries: with `stop`, those with index in `[start, stop)` (and
    /// nothing when `start > stop`); without it, every entry with index above
    /// `start`.
    pub fn truncate_from(&mut self, start: u64, stop: Option<u64>)
        requires
            old(self).wf(),
        ensures
            final(self).wf(),
            match stop {
                Some(h) => if start > h {
                    final(self)@ == old(self)@
                } else {
                    final(self)@ == outside_range(old(self)@, start as int, h as int)
                },
                None => final(self)@ == outside_range(old(self)@, start + 1, u64::MAX + 1),
            },
    {
        match stop {
            Some(h) => {
                if start <= h {
                    self.retain_outside(start, h, false, false);
                }
            },
            None => {
                self.retain_outside(start, u64::MAX, true, true);
            },
        }
    }

    /// Deletes every entry with index at most `k`.
    pub fn purge_through(&mut self, k: u64)
        requires
            old(self).wf(),
        ensures
            final(self).wf(),
            final(self)@ == outside_range(old(self)@, 0, k + 1),
    {
        self.retain_outside(0, k, false, true);
    }

    /// The term of the entry with index `k`, if there is one.
    pub fn term_of(&self, k: u64) -> (r: Option<u64>)
        ensures
            r is None <==> !has_index(self@, k as int),
            r matches Some(t) ==> exists|i: int|
                0 <= i < self@.len() && self@[i].index == k && self@[i].term == t,
    {
        let mut i: usize = 0;
        while i < self.entries.len()
            invariant
                i <= self.entries.len(),
                forall|j: int| 0 <= j < i ==> #[trigger] self@[j].index != k,
            decreases self.entries.len() - i,
        {
            if self.entries[i].index == k {
                proof {
                    assert(self@[i as int].index == k);
                }
                return Some(self.entries[i].term);
            }
            i = i + 1;
        }
        None
    }

    /// The membership of the most recent entry that carries one (a change of
    /// configuration or a snapshot pointer), else the cluster of `id` alone.
    pub fn latest_membership(&self, id: NodeId) -> (r: Membership)
        ensures
            r@ == membership_of(self@, id),
    {
        let ghost s = self@;
        let mut i: usize = self.entries.len();
        proof {
            assert(s.take(s.len() as int) =~= s);
        }
        while i > 0
            invariant
                i <= self.entries.len(),
                s == self@,
                latest_config(s) == latest_config(s.take(i as int)),
            decreases i,
        {
            proof {
                assert(s.take(i as int).drop_last() =~= s.take(i as int - 1));
                assert(s.take(i as int).last() == s[i as int - 1]);
            }
            match &self.entries[i - 1].payload {
                EntryPayload::ConfigChange(m) => {
                    return m.clone();
                },
                EntryPayload::SnapshotPointer(m) => {
                    return m.clone();
                },
                _ => {},
            }
            i = i - 1;
        }
        Membership::new_initial(id)
    }

    /// The membership in force at index `k`: that of the most recent entry up to
    /// `k` that carries one, else the cluster of `id` alone.
    pub fn membership_through(&self, k: u64, id: NodeId) -> (r: Membership)
        ensures
            r@ == membership_of(in_range(self@, 0, k + 1), id),
    {
        let ghost s = self@;
        let mut i: usize = self.entries.len();
        proof {
            assert(s.take(s.len() as int) =~= s);
        }
        while i > 0
            invariant
                i <= self.entries.len(),
                s == self@,
                latest_config(in_range(s, 0, k + 1)) == latest_config(in_range(s.take(i as int), 0, k + 1)),
            decreases i,
        {
            proof {
                assert(s.take(i as int).drop_last() =~= s.take(i as int - 1));
                assert(s.take(i as int).last() == s[i as int - 1]);
            }
            if self.entries[i - 1].index <= k {
                match &self.entries[i - 1].payload {
                    EntryPayload::ConfigChange(m) => {
                        return m.clone();
                    },
                    EntryPayload::SnapshotPointer(m) => {
                        return m.clone();
                    },
                    _ => {},
                }
            }
            proof {
                let r = in_range(s.take(i as int - 1), 0, k + 1);
                assert(r.push(s[i as int - 1]).drop_last() =~= r);
            }
            i = i - 1;
        }
        proof {
            assert(in_range(s.take(0), 0, k + 1) =~= Seq::<EntryModel>::empty());
        }
        Membership::new_initial(id)
    }

    /// Index and term of the last entry, or `(0, 0)` for an empty log.
    pub fn last_log_id(&self) -> (r: (u64, u64))
        ensures
            self@.len() == 0 ==> r == (0u64, 0u64),
            self@.len() > 0 ==> r == (self@.last().index, self@.last().term),
    {
        let n = self.entries.len();
        if n == 0 {
            (0, 0)
        } else {
            (self.entries[n - 1].index, self.entries[n - 1].term)
        }
    }

}

} // verus!
