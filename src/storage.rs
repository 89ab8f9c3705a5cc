//! The storage that the consensus layer drives: the log, the state machine,
//! the hard state and the snapshots of one node.

use vstd::prelude::*;
use crate::log_store::{
    has_index, in_range, membership_of, outside_range, sorted, Entry, EntryModel, EntryPayload, LogError,
    LogStore, Membership, NodeId, PayloadModel, lemma_outside_range_sorted,
};
use crate::schema::{DocModel, ScheduleDocument};
use crate::ids::{id_less, id_lt, lemma_id_less_transitive};
use crate::state_machine::{
    apply_all, apply_docs, ascending, command_rejected, docs_view, ids_sorted, response_matches, ApplyError,
    ScheduleData, ScheduleEventResponse, StateMachine,
};

verus! {

/// Durable voting metadata: the current term and the vote cast in it.
#[derive(Clone, Copy, Debug, PartialEq, Eq, Structural)]
pub struct HardState {
    pub current_term: u64,
    pub voted_for: Option<NodeId>,
}

/// What a node resumes from after a start.
pub struct InitialState {
    pub last_log_index: u64,
    pub last_log_term: u64,
    pub last_applied_log: u64,
    pub hard_state: HardState,
    pub membership: Membership,
}

/// Which prefix of the log a snapshot stands for, and the membership then.
pub struct SnapshotMeta {
    pub last_included_index: u64,
    pub last_included_term: u64,
    pub membership: Membership,
}

impl Clone for SnapshotMeta {
    fn clone(&self) -> (r: Self)
        ensures
            r.last_included_index == self.last_included_index,
            r.last_included_term == self.last_included_term,
            r.membership@ == self.membership@,
    {
        SnapshotMeta {
            last_included_index: self.last_included_index,
            last_included_term: self.last_included_term,
            membership: self.membership.clone(),
        }
    }
}

/// A point-in-time copy of the state machine's documents, with the log
/// position it stands for.
pub struct ClusterSnapshot {
    pub meta: SnapshotMeta,
    pub docs: Vec<ScheduleDocument>,
}

/// Why a snapshot cannot be installed.
#[derive(Clone, Copy, Debug, PartialEq, Eq, Structural)]
pub enum SnapshotError {
    /// Its documents do not stand in strictly ascending id order (two may
    /// share an id).
    Unordered,
}

/// The entry that marks where a snapshot took the place of the log.
pub open spec fn pointer_entry(index: u64, term: u64, membership: Seq<NodeId>) -> EntryModel {
    EntryModel { index, term, payload: PayloadModel::SnapshotPointer(membership) }
}

/// The term that a snapshot at index `k` records: that of the log entry at `k`,
/// else that of the current snapshot if it stands at `k`, else zero.
pub open spec fn term_rule(
    log: Seq<EntryModel>,
    snap: Option<(u64, u64, Seq<NodeId>, Seq<DocModel>)>,
    k: u64,
    t: u64,
) -> bool {
    if has_index(log, k as int) {
        exists|i: int| 0 <= i < log.len() && log[i].index == k && log[i].term == t
    } else {
        t == match snap {
            Some(s) => if s.0 == k {
                s.1
            } else {
                0
            },
            None => 0,
        }
    }
}

/// Whether the documents of a vector stand in strictly ascending id order.
pub fn ids_in_order(docs: &Vec<ScheduleDocument>) -> (r: bool)
    ensures
        r == ids_sorted(docs_view(docs@)),
{
    let ghost d = docs_view(docs@);
    let mut j: usize = 1;
    while j < docs.len()
        invariant
            1 <= j,
            d == docs_view(docs@),
            forall|a: int, b: int| 0 <= a < b < j && b < d.len() ==> id_less(d[a].id, d[b].id),
        decreases docs.len() - j,
    {
        proof {
            assert(d[j as int - 1].id == docs@[j as int - 1].id@ && d[j as int].id == docs@[j as int].id@);
        }
        if !id_lt(&docs[j - 1].id, &docs[j].id) {
            return false;
        }
        proof {
            assert forall|a: int, b: int| 0 <= a < b < j + 1 && b < d.len() implies id_less(d[a].id, d[b].id) by {
                if b == j && a < j - 1 {
                    lemma_id_less_transitive(d[a].id, d[j as int - 1].id, d[b].id);
                }
            }
        }
        j = j + 1;
    }
    true
}

/// The storage of one node.
pub struct SchedulerRaftStorage {
    id: NodeId,
    log: LogStore,
    sm: StateMachine,
    hard_state: Option<HardState>,
    current_snapshot: Option<ClusterSnapshot>,
}

impl SchedulerRaftStorage {
    /// The node this storage belongs to.
    pub closed spec fn node_id(&self) -> NodeId {
        self.id
    }

    /// The log.
    pub closed spec fn log(&self) -> Seq<EntryModel> {
        self.log@
    }

    /// The state machine's documents.
    pub closed spec fn docs(&self) -> Seq<DocModel> {
        self.sm.docs()
    }

    /// Index of the last command applied.
    pub closed spec fn last_applied(&self) -> u64 {
        self.sm.last_applied()
    }

    /// The persisted hard state, if any.
    pub closed spec fn hard(&self) -> Option<HardState> {
        self.hard_state
    }

    /// The most recent snapshot, if compaction or installation ever ran: its
    /// index, term, membership and documents.
    pub closed spec fn snapshot(&self) -> Option<(u64, u64, Seq<NodeId>, Seq<DocModel>)> {
        match self.current_snapshot {
            Some(s) => Some(
                (
                    s.meta.last_included_index,
                    s.meta.last_included_term,
                    s.meta.membership@,
                    docs_view(s.docs@),
                ),
            ),
            None => None,
        }
    }

    /// The invariant: the log is in index order and the documents in id order.
    pub open spec fn wf(&self) -> bool {
        sorted(self.log()) && ids_sorted(self.docs())
    }

    /// Empty storage for node `id`.
    pub fn new(id: NodeId) -> (r: SchedulerRaftStorage)
        ensures
            r.wf(),
            r.node_id() == id,
            r.log() == Seq::<EntryModel>::empty(),
            r.docs() == Seq::<DocModel>::empty(),
            r.last_applied() == 0,
            r.hard() is None,
            r.snapshot() is None,
    {
        SchedulerRaftStorage {
            id,
            log: LogStore::new(),
            sm: StateMachine::new(),
            hard_state: None,
            current_snapshot: None,
        }
    }

    /// The current membership: that of the most recent entry carrying one, else
    /// the cluster of this node alone.
    pub fn get_membership_config(&self) -> (r: Membership)
        ensures
            r@ == membership_of(self.log(), self.node_id()),
    {
        self.log.latest_membership(self.id)
    }

    /// What the node resumes from: the persisted hard state (a fresh one, now
    /// persisted, where there was none), the last entry's index and term (or
    /// zeros), the last applied index and the current membership.
    pub fn get_initial_state(&mut self) -> (r: InitialState)
        requires
            old(self).wf(),
        ensures
            final(self).wf(),
            final(self).log() == old(self).log(),
            final(self).docs() == old(self).docs(),
            final(self).last_applied() == old(self).last_applied(),
            final(self).snapshot() == old(self).snapshot(),
            final(self).node_id() == old(self).node_id(),
            final(self).hard() == Some(r.hard_state),
            r.hard_state == match old(self).hard() {
                Some(h) => h,
                None => HardState { current_term: 0, voted_for: None },
            },
            old(self).log().len() == 0 ==> r.last_log_index == 0 && r.last_log_term == 0,
            old(self).log().len() > 0 ==> r.last_log_index == old(self).log().last().index
                && r.last_log_term == old(self).log().last().term,
            r.last_applied_log == old(self).last_applied(),
            r.membership@ == membership_of(old(self).log(), old(self).node_id()),
    {
        let membership = self.log.latest_membership(self.id);
        let hard_state = match self.hard_state {
            Some(h) => h,
            None => HardState { current_term: 0, voted_for: None },
        };
        self.hard_state = Some(hard_state);
        let (last_log_index, last_log_term) = self.log.last_log_id();
        InitialState {
            last_log_index,
            last_log_term,
            last_applied_log: self.sm.cluster_state().last_applied_log,
            hard_state,
            membership,
        }
    }

    /// Overwrites the persisted hard state.
    pub fn save_hard_state(&mut self, hs: &HardState)
        requires
            old(self).wf(),
        ensures
            final(self).wf(),
            final(self).hard() == Some(*hs),
            final(self).log() == old(self).log(),
            final(self).docs() == old(self).docs(),
            final(self).last_applied() == old(self).last_applied(),
            final(self).snapshot() == old(self).snapshot(),
            final(self).node_id() == old(self).node_id(),
    {
        self.hard_state = Some(*hs);
    }

    /// The entries with index in `[start, stop)`; nothing when `start > stop`.
    pub fn get_log_entries(&self, start: u64, stop: u64) -> (r: Vec<Entry>)
        ensures
            crate::log_store::entries_view(r@) == crate::log_store::in_range(self.log(), start as int, stop as int),
            start > stop ==> r@.len() == 0,
    {
        self.log.read_range(start, stop)
    }

    /// Deletes `[start, stop)` of the log, or, without `stop`, every entry above
    /// `start`; nothing when `start > stop`.
    pub fn delete_logs_from(&mut self, start: u64, stop: Option<u64>)
        requires
            old(self).wf(),
        ensures
            final(self).wf(),
            final(self).docs() == old(self).docs(),
            final(self).last_applied() == old(self).last_applied(),
            final(self).hard() == old(self).hard(),
            final(self).snapshot() == old(self).snapshot(),
            final(self).node_id() == old(self).node_id(),
            match stop {
                Some(h) => if start > h {
                    final(self).log() == old(self).log()
                } else {
                    final(self).log() == outside_range(old(self).log(), start as int, h as int)
                },
                None => final(self).log() == outside_range(old(self).log(), start + 1, u64::MAX + 1),
            },
    {
        self.log.truncate_from(start, stop);
    }

    /// Appends one entry; `Conflict` where its index is taken.
    pub fn append_entry_to_log(&mut self, entry: Entry) -> (r: Result<(), LogError>)
        requires
            old(self).wf(),
        ensures
            final(self).wf(),
            final(self).docs() == old(self).docs(),
            final(self).last_applied() == old(self).last_applied(),
            final(self).hard() == old(self).hard(),
            final(self).snapshot() == old(self).snapshot(),
            final(self).node_id() == old(self).node_id(),
            r is Err <==> has_index(old(self).log(), entry.index as int),
            r is Err ==> final(self).log() == old(self).log(),
            r is Ok ==> forall|x: EntryModel|
                #[trigger] final(self).log().contains(x) <==> (old(self).log().contains(x) || x == entry@),
    {
        self.log.append_entry(entry)
    }

    /// Appends a batch of entries, all or none.
    pub fn replicate_to_log(&mut self, entries: Vec<Entry>) -> (r: Result<(), LogError>)
        requires
            old(self).wf(),
        ensures
            final(self).wf(),
            final(self).docs() == old(self).docs(),
            final(self).last_applied() == old(self).last_applied(),
            final(self).hard() == old(self).hard(),
            final(self).snapshot() == old(self).snapshot(),
            final(self).node_id() == old(self).node_id(),
            r is Ok <==> crate::log_store::batch_fits(old(self).log(), crate::log_store::entries_view(entries@)),
            r is Err ==> final(self).log() == old(self).log(),
            r is Ok ==> forall|x: EntryModel|
                #[trigger] final(self).log().contains(x) <==> (old(self).log().contains(x)
                    || crate::log_store::entries_view(entries@).contains(x)),
    {
        self.log.append_batch(entries)
    }

    /// Applies the command committed at `index` to the state machine.
    pub fn apply_entry_to_state_machine(&mut self, index: u64, data: ScheduleData) -> (r: Result<
        ScheduleEventResponse,
        ApplyError,
    >)
        requires
            old(self).wf(),
            has_index(old(self).log(), index as int),
        ensures
            final(self).wf(),
            final(self).log() == old(self).log(),
            final(self).hard() == old(self).hard(),
            final(self).snapshot() == old(self).snapshot(),
            final(self).node_id() == old(self).node_id(),
            final(self).docs() == apply_docs(old(self).docs(), data),
            final(self).last_applied() == index,
            has_index(final(self).log(), final(self).last_applied() as int),
            r is Err <==> command_rejected(old(self).docs(), data),
            r matches Err(e) ==> e == (if data is Create { ApplyError::AlreadyExists } else { ApplyError::NotFound }),
            r matches Ok(resp) ==> response_matches(old(self).docs(), data, resp),
    {
        self.sm.apply_entry(index, data)
    }

    /// Applies a batch of committed commands in ascending index order.
    pub fn replicate_to_state_machine(&mut self, entries: Vec<(u64, ScheduleData)>) -> (r: Result<(), ApplyError>)
        requires
            old(self).wf(),
            forall|i: int| 0 <= i < entries@.len() ==> has_index(old(self).log(), #[trigger] entries@[i].0 as int),
        ensures
            final(self).wf(),
            final(self).log() == old(self).log(),
            final(self).hard() == old(self).hard(),
            final(self).snapshot() == old(self).snapshot(),
            final(self).node_id() == old(self).node_id(),
            r is Err <==> !ascending(entries@),
            r is Err ==> final(self).docs() == old(self).docs() && final(self).last_applied() == old(self).last_applied(),
            r is Ok ==> final(self).docs() == apply_all(old(self).docs(), entries@),
            r is Ok ==> final(self).last_applied() == (if entries@.len() == 0 {
                old(self).last_applied()
            } else {
                entries@.last().0
            }),
            r is Ok && entries@.len() > 0 ==> has_index(final(self).log(), final(self).last_applied() as int),
    {
        let ghost es = entries@;
        let r = self.sm.apply_batch(entries);
        proof {
            if r is Ok && es.len() > 0 {
                assert(has_index(self.log@, es[es.len() - 1].0 as int));
            }
        }
        r
    }

    /// A snapshot of the current state: every document, at the last applied
    /// index, with that entry's term and the membership in force there. The log
    /// is left as it is.
    pub fn create_snapshot(&self) -> (r: ClusterSnapshot)
        requires
            self.wf(),
        ensures
            r.meta.last_included_index == self.last_applied(),
            term_rule(self.log(), self.snapshot(), self.last_applied(), r.meta.last_included_term),
            r.meta.membership@ == membership_of(in_range(self.log(), 0, self.last_applied() + 1), self.node_id()),
            docs_view(r.docs@) == self.docs(),
    {
        let index = self.sm.cluster_state().last_applied_log;
        let term = match self.log.term_of(index) {
            Some(t) => t,
            None => match &self.current_snapshot {
                Some(s) => if s.meta.last_included_index == index {
                    s.meta.last_included_term
                } else {
                    0
                },
                None => 0,
            },
        };
        let membership = self.log.membership_through(index, self.id);
        let n = self.sm.len();
        let docs = self.sm.list(n, 0);
        proof {
            assert(self.docs().subrange(0, n as int) =~= self.docs());
        }
        ClusterSnapshot {
            meta: SnapshotMeta { last_included_index: index, last_included_term: term, membership },
            docs,
        }
    }

    /// Compacts the log: stores a snapshot of the current state first, then
    /// deletes every entry up to the last applied index and marks the place with
    /// a snapshot pointer.
    pub fn do_log_compaction(&mut self) -> (r: SnapshotMeta)
        requires
            old(self).wf(),
        ensures
            final(self).wf(),
            final(self).docs() == old(self).docs(),
            final(self).last_applied() == old(self).last_applied(),
            final(self).hard() == old(self).hard(),
            final(self).node_id() == old(self).node_id(),
            r.last_included_index == old(self).last_applied(),
            term_rule(old(self).log(), old(self).snapshot(), old(self).last_applied(), r.last_included_term),
            r.membership@ == membership_of(
                in_range(old(self).log(), 0, old(self).last_applied() + 1),
                old(self).node_id(),
            ),
            final(self).snapshot() == Some(
                (r.last_included_index, r.last_included_term, r.membership@, old(self).docs()),
            ),
            forall|x: EntryModel| #[trigger] final(self).log().contains(x) <==> (
                outside_range(old(self).log(), 0, r.last_included_index + 1).contains(x)
                || x == pointer_entry(r.last_included_index, r.last_included_term, r.membership@)),
    {
        let snap = self.create_snapshot();
        let meta = snap.meta.clone();
        let pointer = Entry {
            index: meta.last_included_index,
            term: meta.last_included_term,
            payload: EntryPayload::SnapshotPointer(meta.membership.clone()),
        };
        self.current_snapshot = Some(snap);
        let ghost l0 = self.log@;
        self.log.purge_through(meta.last_included_index);
        proof {
            lemma_outside_range_sorted(l0, 0, meta.last_included_index + 1);
            if has_index(self.log@, meta.last_included_index as int) {
                let i = choose|i: int| 0 <= i < self.log@.len() && self.log@[i].index == meta.last_included_index;
                assert(self.log@.contains(self.log@[i]));
            }
        }
        let _ = self.log.append_entry(pointer);
        meta
    }

    /// Installs a snapshot received from the leader: its documents replace the
    /// state machine's, `index` becomes the last applied, the log up to
    /// `delete_through` (and at least up to `index`) is deleted, or all of it
    /// without `delete_through`, and a snapshot pointer marks the place. A
    /// snapshot whose documents are not in strictly ascending id order is refused
    /// and changes nothing.
    pub fn finalize_snapshot_installation(
        &mut self,
        index: u64,
        term: u64,
        delete_through: Option<u64>,
        snapshot: ClusterSnapshot,
    ) -> (r: Result<(), SnapshotError>)
        requires
            old(self).wf(),
        ensures
            final(self).wf(),
            final(self).hard() == old(self).hard(),
            final(self).node_id() == old(self).node_id(),
            r is Err <==> !ids_sorted(docs_view(snapshot.docs@)),
            r is Err ==> final(self).log() == old(self).log() && final(self).docs() == old(self).docs()
                && final(self).last_applied() == old(self).last_applied() && final(self).snapshot()
                == old(self).snapshot(),
            r is Ok ==> final(self).docs() == docs_view(snapshot.docs@) && final(self).last_applied()
                == index && final(self).snapshot() == Some(
                (index, term, snapshot.meta.membership@, docs_view(snapshot.docs@)),
            ),
            r is Ok ==> forall|x: EntryModel| #[trigger] final(self).log().contains(x) <==> (
                match delete_through {
                    Some(d) => outside_range(
                        old(self).log(),
                        0,
                        (if d >= index { d as int } else { index as int }) + 1,
                    ).contains(x),
                    None => false,
                } || x == pointer_entry(index, term, snapshot.meta.membership@)),
    {
        if !ids_in_order(&snapshot.docs) {
            return Err(SnapshotError::Unordered);
        }
        let ClusterSnapshot { meta, docs } = snapshot;
        let pointer = Entry {
            index,
            term,
            payload: EntryPayload::SnapshotPointer(meta.membership.clone()),
        };
        self.sm = StateMachine::from_parts(docs, index);
        let n = self.sm.len();
        let copy = self.sm.list(n, 0);
        proof {
            assert(self.sm.docs().subrange(0, n as int) =~= self.sm.docs());
        }
        self.current_snapshot = Some(
            ClusterSnapshot {
                meta: SnapshotMeta {
                    last_included_index: index,
                    last_included_term: term,
                    membership: meta.membership,
                },
                docs: copy,
            },
        );
        match delete_through {
            Some(d) => {
                let through = if d >= index { d } else { index };
                let ghost l0 = self.log@;
                self.log.purge_through(through);
                proof {
                    lemma_outside_range_sorted(l0, 0, through + 1);
                    if has_index(self.log@, index as int) {
                        let i = choose|i: int| 0 <= i < self.log@.len() && self.log@[i].index == index;
                        assert(self.log@.contains(self.log@[i]));
                    }
                }
            },
            None => {
                self.log = LogStore::new();
            },
        }
        let _ = self.log.append_entry(pointer);
        Ok(())
    }

    /// Index, term and membership of the most recent snapshot, if there is one.
    pub fn get_current_snapshot(&self) -> (r: Option<SnapshotMeta>)
        ensures
            r is None <==> self.snapshot() is None,
            r matches Some(m) ==> self.snapshot() matches Some(s) && s.0 == m.last_included_index
                && s.1 == m.last_included_term && s.2 == m.membership@,
    {
        match &self.current_snapshot {
            Some(s) => Some(s.meta.clone()),
            None => None,
        }
    }

    /// Copies of at most `page` documents, in ascending id order, after skipping
    /// the first `skip`.
    pub fn list_documents(&self, page: usize, skip: usize) -> (r: Vec<ScheduleDocument>)
        ensures
            self.wf() ==> ids_sorted(docs_view(r@)),
            docs_view(r@) == self.docs().subrange(
                if skip <= self.docs().len() { skip as int } else { self.docs().len() as int },
                if skip as int + page as int <= self.docs().len() { skip + page } else { self.docs().len() as int },
            ),
    {
        self.sm.list(page, skip)
    }

    /// A copy of the document with id `id`, if there is one.
    pub fn get_document(&self, id: &String) -> (r: Option<ScheduleDocument>)
        requires
            self.wf(),
        ensures
            r is None <==> !crate::state_machine::has_id(self.docs(), id@),
            r matches Some(d) ==> d@ == self.docs()[crate::state_machine::index_of(self.docs(), id@)],
    {
        self.sm.get(id)
    }

    /// Index of the last log entry, or zero for an empty log.
    pub fn last_log_index(&self) -> (r: u64)
        ensures
            self.log().len() == 0 ==> r == 0,
            self.log().len() > 0 ==> r == self.log().last().index,
    {
        self.log.last_log_id().0
    }
}

} // verus!
