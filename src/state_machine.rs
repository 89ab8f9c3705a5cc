//! The state machine: applies committed commands, in index order, to the set of
//! job documents.

use vstd::prelude::*;
use crate::dto::{callback_dto_view, dto_matches, CreateScheduleDto, ScheduleDto, UpdateScheduleDto};
use crate::schema::{
    opt_string_view, strings_view, DocModel, ScheduleDocument, ScheduleStatus,
};
use crate::ticker::{schedule_outcome, InvalidSchedule, Ticker};
use crate::ids::{
    id_less, id_lt, lemma_id_less_asymmetric, lemma_id_less_irreflexive, lemma_id_less_total,
    lemma_id_less_transitive,
};

verus! {

/// A command carried by the log. Each names the instant (milliseconds since the
/// epoch) at which it was issued, so that applying it is deterministic.
pub enum ScheduleData {
    Create(CreateScheduleDto, i64),
    Update(UpdateScheduleDto, i64),
    Delete(String, i64),
    /// The job fired at the given instant, and now has the given status.
    MarkFired(String, i64, ScheduleStatus),
}

/// What an applied command did: the created or updated job as clients read
/// it, or the id of the job deleted or fired.
#[derive(Debug)]
pub enum ScheduleEventResponse {
    Created(ScheduleDto),
    Updated(ScheduleDto),
    Deleted(String),
    Fired(String),
}

/// Why a command was handled without effect.
#[derive(Clone, Copy, Debug, PartialEq, Eq, Structural)]
pub enum ApplyError {
    /// A create named an id that a document already has.
    AlreadyExists,
    /// An update, delete or firing named an id that no document has.
    NotFound,
    /// A batch was not in strictly ascending index order.
    OutOfOrder,
}

/// Progress of the state machine.
#[derive(Clone, Copy, Debug, PartialEq, Eq, Structural, Default)]
pub struct ClusterState {
    pub last_applied_log: u64,
}

/// Some document has id `id`.
pub open spec fn has_id(docs: Seq<DocModel>, id: Seq<char>) -> bool {
    exists|i: int| 0 <= i < docs.len() && docs[i].id == id
}

/// Where the document with id `id` stands.
pub open spec fn index_of(docs: Seq<DocModel>, id: Seq<char>) -> int {
    choose|i: int| 0 <= i < docs.len() && docs[i].id == id
}

/// No two documents share an id.
pub open spec fn unique_ids(docs: Seq<DocModel>) -> bool {
    forall|i: int, j: int| 0 <= i < j < docs.len() ==> docs[i].id != docs[j].id
}

/// Documents stand in strictly ascending id order.
pub open spec fn ids_sorted(docs: Seq<DocModel>) -> bool {
    forall|i: int, j: int| 0 <= i < j < docs.len() ==> id_less(docs[i].id, docs[j].id)
}

/// Position `p` splits the documents into those before id `id` and those after.
pub open spec fn splits_at(docs: Seq<DocModel>, id: Seq<char>, p: int) -> bool {
    &&& 0 <= p <= docs.len()
    &&& forall|i: int| 0 <= i < p ==> id_less(#[trigger] docs[i].id, id)
    &&& forall|i: int| p <= i < docs.len() ==> id_less(id, #[trigger] docs[i].id)
}

/// Where a document with id `id` goes to keep the order.
pub open spec fn insert_pos(docs: Seq<DocModel>, id: Seq<char>) -> int {
    choose|p: int| splits_at(docs, id, p)
}

/// Documents in id order have unique ids.
pub proof fn lemma_sorted_unique(docs: Seq<DocModel>)
    requires
        ids_sorted(docs),
    ensures
        unique_ids(docs),
{
    assert forall|i: int, j: int| 0 <= i < j < docs.len() implies docs[i].id != docs[j].id by {
        lemma_id_less_irreflexive(docs[i].id);
    }
}

/// A new id has exactly one place in documents in id order.
pub proof fn lemma_insert_pos(docs: Seq<DocModel>, id: Seq<char>)
    requires
        ids_sorted(docs),
        !has_id(docs, id),
    ensures
        splits_at(docs, id, insert_pos(docs, id)),
        forall|p: int| splits_at(docs, id, p) ==> p == insert_pos(docs, id),
    decreases docs.len(),
{
    if docs.len() == 0 {
        assert(splits_at(docs, id, 0));
    } else {
        let d = docs.drop_last();
        let n = docs.len() - 1;
        assert(ids_sorted(d));
        assert(!has_id(d, id)) by {
            if has_id(d, id) {
                let i = choose|i: int| 0 <= i < d.len() && d[i].id == id;
                assert(docs[i].id == id);
            }
        }
        lemma_insert_pos(d, id);
        let q = insert_pos(d, id);
        if id_less(docs[n].id, id) {
            assert forall|i: int| 0 <= i < n implies id_less(#[trigger] docs[i].id, id) by {
                assert(docs[i] == d[i]);
                lemma_id_less_transitive(docs[i].id, docs[n].id, id);
            }
            assert(splits_at(docs, id, n + 1));
        } else {
            assert(docs[n].id != id);
            lemma_id_less_total(docs[n].id, id);
            assert forall|i: int| q <= i < docs.len() implies id_less(id, #[trigger] docs[i].id) by {
                if i < n {
                    assert(docs[i] == d[i]);
                }
            }
            assert forall|i: int| 0 <= i < q implies id_less(#[trigger] docs[i].id, id) by {
                assert(docs[i] == d[i]);
            }
            assert(splits_at(docs, id, q));
        }
    }
    let p0 = insert_pos(docs, id);
    assert forall|p: int| splits_at(docs, id, p) implies p == p0 by {
        if p < p0 {
            lemma_id_less_asymmetric(docs[p].id, id);
        } else if p > p0 {
            lemma_id_less_asymmetric(docs[p0].id, id);
        }
    }
}

/// The document that a create makes.
pub open spec fn created_doc(c: CreateScheduleDto, at: i64) -> DocModel {
    DocModel {
        id: c.id@,
        tags: strings_view(c.tags),
        request: c.request@,
        schedule: opt_string_view(c.schedule),
        schedule_at: opt_string_view(c.schedule_at),
        callback: callback_dto_view(c.callback),
        created_at: at,
        updated_at: at,
        last_run: None,
        status: ScheduleStatus::Scheduled,
    }
}

/// A document after an update: what the job does and when is replaced; its
/// identity, creation time, last run and status stay.
pub open spec fn updated_doc(d: DocModel, u: UpdateScheduleDto, at: i64) -> DocModel {
    DocModel {
        id: d.id,
        tags: strings_view(u.tags),
        request: u.request@,
        schedule: opt_string_view(u.schedule),
        schedule_at: opt_string_view(u.schedule_at),
        callback: callback_dto_view(u.callback),
        created_at: d.created_at,
        updated_at: at,
        last_run: d.last_run,
        status: d.status,
    }
}

/// A document after a firing.
pub open spec fn fired_doc(d: DocModel, t: i64, s: ScheduleStatus) -> DocModel {
    DocModel { last_run: Some(t), status: s, ..d }
}

/// The id that a command names.
pub open spec fn command_id(cmd: ScheduleData) -> Seq<char> {
    match cmd {
        ScheduleData::Create(c, _) => c.id@,
        ScheduleData::Update(u, _) => u.id@,
        ScheduleData::Delete(id, _) => id@,
        ScheduleData::MarkFired(id, _, _) => id@,
    }
}

/// A command is handled without effect: a create of an existing id, or any
/// other command on a missing one.
pub open spec fn command_rejected(docs: Seq<DocModel>, cmd: ScheduleData) -> bool {
    match cmd {
        ScheduleData::Create(c, _) => has_id(docs, c.id@),
        _ => !has_id(docs, command_id(cmd)),
    }
}

/// The documents after one command.
pub open spec fn apply_docs(docs: Seq<DocModel>, cmd: ScheduleData) -> Seq<DocModel> {
    if command_rejected(docs, cmd) {
        docs
    } else {
        let i = index_of(docs, command_id(cmd));
        match cmd {
            ScheduleData::Create(c, at) => docs.insert(insert_pos(docs, c.id@), created_doc(c, at)),
            ScheduleData::Update(u, at) => docs.update(i, updated_doc(docs[i], u, at)),
            ScheduleData::Delete(_, _) => docs.remove(i),
            ScheduleData::MarkFired(_, t, s) => docs.update(i, fired_doc(docs[i], t, s)),
        }
    }
}

/// The documents after a sequence of indexed commands, in order.
pub open spec fn apply_all(docs: Seq<DocModel>, cmds: Seq<(u64, ScheduleData)>) -> Seq<DocModel>
    decreases cmds.len(),
{
    if cmds.len() == 0 {
        docs
    } else {
        apply_docs(apply_all(docs, cmds.drop_last()), cmds.last().1)
    }
}

/// Indices strictly increase along a batch.
pub open spec fn ascending(cmds: Seq<(u64, ScheduleData)>) -> bool {
    forall|i: int, j: int| 0 <= i < j < cmds.len() ==> cmds[i].0 < cmds[j].0
}

/// The documents of a vector, as values.
pub open spec fn docs_view(v: Seq<ScheduleDocument>) -> Seq<DocModel> {
    v.map_values(|d: ScheduleDocument| d@)
}

/// Whether a schedule specification is usable, and if not, why.
pub open spec fn schedule_check(schedule: Option<Seq<char>>, schedule_at: Option<Seq<char>>) -> Result<(), InvalidSchedule> {
    match schedule_outcome(schedule, schedule_at) {
        Err(e) => Err(e),
        Ok(_) => Ok(()),
    }
}

/// Checks a command before it is proposed to the log: a create or an update
/// must carry exactly one of a cron expression and an absolute time, and that
/// one well formed. Other commands pass.
pub fn validate_command(cmd: &ScheduleData) -> (r: Result<(), InvalidSchedule>)
    ensures
        match cmd {
            ScheduleData::Create(c, _) => r == schedule_check(opt_string_view(c.schedule), opt_string_view(c.schedule_at)),
            ScheduleData::Update(u, _) => r == schedule_check(opt_string_view(u.schedule), opt_string_view(u.schedule_at)),
            _ => r is Ok,
        },
{
    let checked = match cmd {
        ScheduleData::Create(c, _) => Ticker::from_spec(&c.schedule, &c.schedule_at),
        ScheduleData::Update(u, _) => Ticker::from_spec(&u.schedule, &u.schedule_at),
        _ => {
            return Ok(());
        },
    };
    match checked {
        Ok(_) => Ok(()),
        Err(e) => Err(e),
    }
}

/// What applying a command that was not rejected returns.
pub open spec fn response_matches(docs: Seq<DocModel>, cmd: ScheduleData, resp: ScheduleEventResponse) -> bool {
    match (resp, cmd) {
        (ScheduleEventResponse::Created(d), ScheduleData::Create(c, at)) => dto_matches(d, created_doc(c, at)),
        (ScheduleEventResponse::Updated(d), ScheduleData::Update(u, at)) => dto_matches(
            d,
            updated_doc(docs[index_of(docs, u.id@)], u, at),
        ),
        (ScheduleEventResponse::Deleted(id), ScheduleData::Delete(_, _)) => id@ == command_id(cmd),
        (ScheduleEventResponse::Fired(id), ScheduleData::MarkFired(_, _, _)) => id@ == command_id(cmd),
        _ => false,
    }
}

/// A command applied to documents in id order keeps them in id order.
pub proof fn lemma_apply_sorted(docs: Seq<DocModel>, cmd: ScheduleData)
    requires
        ids_sorted(docs),
    ensures
        ids_sorted(apply_docs(docs, cmd)),
{
    if !command_rejected(docs, cmd) {
        let i = index_of(docs, command_id(cmd));
        let r = apply_docs(docs, cmd);
        match cmd {
            ScheduleData::Create(c, at) => {
                lemma_insert_pos(docs, c.id@);
                let p = insert_pos(docs, c.id@);
                assert forall|a: int, b: int| 0 <= a < b < r.len() implies id_less(r[a].id, r[b].id) by {
                    if b < p {
                        assert(r[a] == docs[a] && r[b] == docs[b]);
                    } else if b == p {
                        assert(r[a] == docs[a]);
                    } else if a < p {
                        assert(r[a] == docs[a] && r[b] == docs[b - 1]);
                    } else if a == p {
                        assert(r[b] == docs[b - 1]);
                    } else {
                        assert(r[a] == docs[a - 1] && r[b] == docs[b - 1]);
                    }
                }
            },
            ScheduleData::Delete(_, _) => {
                assert forall|a: int, b: int| 0 <= a < b < r.len() implies id_less(r[a].id, r[b].id) by {
                    let a2 = if a < i { a } else { a + 1 };
                    let b2 = if b < i { b } else { b + 1 };
                    assert(r[a] == docs[a2] && r[b] == docs[b2]);
                }
            },
            _ => {
                assert forall|a: int, b: int| 0 <= a < b < r.len() implies id_less(r[a].id, r[b].id) by {
                    assert(r[a].id == docs[a].id && r[b].id == docs[b].id);
                }
            },
        }
    }
}

/// A command applied to documents in id order keeps their ids unique.
pub proof fn lemma_apply_unique(docs: Seq<DocModel>, cmd: ScheduleData)
    requires
        ids_sorted(docs),
    ensures
        unique_ids(apply_docs(docs, cmd)),
{
    lemma_apply_sorted(docs, cmd);
    lemma_sorted_unique(apply_docs(docs, cmd));
}

/// Applying a command a second time changes nothing: redelivery after a
/// partial failure leaves the same documents.
pub proof fn lemma_apply_idempotent(docs: Seq<DocModel>, cmd: ScheduleData)
    requires
        ids_sorted(docs),
    ensures
        apply_docs(apply_docs(docs, cmd), cmd) == apply_docs(docs, cmd),
{
    let once = apply_docs(docs, cmd);
    lemma_sorted_unique(docs);
    lemma_apply_unique(docs, cmd);
    if !command_rejected(docs, cmd) {
        let i = index_of(docs, command_id(cmd));
        match cmd {
            ScheduleData::Create(c, at) => {
                lemma_insert_pos(docs, c.id@);
                assert(once[insert_pos(docs, c.id@)].id == c.id@);
            },
            ScheduleData::Update(u, at) => {
                assert(once[i].id == u.id@);
                let j = index_of(once, u.id@);
                assert(j == i);
                assert(apply_docs(once, cmd) =~= once);
            },
            ScheduleData::Delete(id, _) => {
                if has_id(once, id@) {
                    let j = choose|j: int| 0 <= j < once.len() && once[j].id == id@;
                    if j < i {
                        assert(docs[j].id == docs[i].id);
                    } else {
                        assert(docs[j + 1].id == docs[i].id);
                    }
                }
            },
            ScheduleData::MarkFired(id, t, s) => {
                assert(once[i].id == id@);
                let j = index_of(once, id@);
                assert(j == i);
                assert(apply_docs(once, cmd) =~= once);
            },
        }
    }
}


/// Applying a run of commands keeps the documents in id order.
pub proof fn lemma_apply_all_sorted(docs: Seq<DocModel>, cmds: Seq<(u64, ScheduleData)>)
    requires
        ids_sorted(docs),
    ensures
        ids_sorted(apply_all(docs, cmds)),
    decreases cmds.len(),
{
    if cmds.len() > 0 {
        lemma_apply_all_sorted(docs, cmds.drop_last());
        lemma_apply_sorted(apply_all(docs, cmds.drop_last()), cmds.last().1);
    }
}

/// Redelivering the last of a run of committed entries, after the run was
/// applied, leaves the documents as they were.
pub proof fn lemma_redelivery_idempotent(docs: Seq<DocModel>, cmds: Seq<(u64, ScheduleData)>)
    requires
        ids_sorted(docs),
        cmds.len() > 0,
    ensures
        apply_all(docs, cmds.push(cmds.last())) == apply_all(docs, cmds),
{
    let longer = cmds.push(cmds.last());
    assert(longer.drop_last() =~= cmds);
    lemma_apply_all_sorted(docs, cmds.drop_last());
    lemma_apply_idempotent(apply_all(docs, cmds.drop_last()), cmds.last().1);
}

/// The job documents, with the index of the last command applied to them.
pub struct StateMachine {
    docs: Vec<ScheduleDocument>,
    state: ClusterState,
}

impl StateMachine {
    /// The documents, in order of creation.
    pub closed spec fn docs(&self) -> Seq<DocModel> {
        docs_view(self.docs@)
    }

    /// Index of the last command applied.
    pub closed spec fn last_applied(&self) -> u64 {
        self.state.last_applied_log
    }

    /// The invariant: documents stand in strictly ascending id order.
    pub open spec fn wf(&self) -> bool {
        ids_sorted(self.docs())
    }

    /// No documents, nothing applied.
    pub fn new() -> (r: StateMachine)
        ensures
            r.wf(),
            r.docs() == Seq::<DocModel>::empty(),
            r.last_applied() == 0,
    {
        let r = StateMachine { docs: Vec::new(), state: ClusterState { last_applied_log: 0 } };
        proof {
            assert(r.docs() =~= Seq::<DocModel>::empty());
        }
        r
    }

    /// Documents and progress taken over whole, as from a snapshot.
    pub fn from_parts(docs: Vec<ScheduleDocument>, last_applied_log: u64) -> (r: StateMachine)
        requires
            ids_sorted(docs_view(docs@)),
        ensures
            r.wf(),
            r.docs() == docs_view(docs@),
            r.last_applied() == last_applied_log,
    {
        StateMachine { docs, state: ClusterState { last_applied_log } }
    }

    /// The progress of the state machine.
    pub fn cluster_state(&self) -> (r: ClusterState)
        ensures
            r.last_applied_log == self.last_applied(),
    {
        self.state
    }

    /// Number of documents.
    pub fn len(&self) -> (r: usize)
        ensures
            r == self.docs().len(),
    {
        self.docs.len()
    }

    /// Where the document with id `id` stands, if one has it.
    fn position(&self, id: &String) -> (r: Option<usize>)
        requires
            self.wf(),
        ensures
            r is None <==> !has_id(self.docs(), id@),
            r matches Some(i) ==> i < self.docs().len() && i == index_of(self.docs(), id@),
    {
        proof {
            lemma_sorted_unique(self.docs());
        }
        let mut i: usize = 0;
        while i < self.docs.len()
            invariant
                i <= self.docs.len(),
                self.wf(),
                unique_ids(self.docs()),
                forall|j: int| 0 <= j < i ==> #[trigger] self.docs()[j].id != id@,
            decreases self.docs.len() - i,
        {
            if self.docs[i].id == *id {
                proof {
                    assert(self.docs()[i as int].id == id@);
                    let k = index_of(self.docs(), id@);
                    assert(self.docs()[k].id == id@);
                    if k < i {
                        assert(self.docs()[k].id != self.docs()[i as int].id);
                    } else if k > i {
                        assert(self.docs()[i as int].id != self.docs()[k].id);
                    }
                }
                return Some(i);
            }
            i = i + 1;
        }
        None
    }

    /// A copy of the document with id `id`, if there is one.
    pub fn get(&self, id: &String) -> (r: Option<ScheduleDocument>)
        requires
            self.wf(),
        ensures
            r is None <==> !has_id(self.docs(), id@),
            r matches Some(d) ==> d@ == self.docs()[index_of(self.docs(), id@)],
    {
        match self.position(id) {
            Some(i) => Some(self.docs[i].clone()),
            None => None,
        }
    }

    /// Copies of at most `page` documents, in ascending id order, after skipping
    /// the first `skip`.
    pub fn list(&self, page: usize, skip: usize) -> (r: Vec<ScheduleDocument>)
        ensures
            self.wf() ==> ids_sorted(docs_view(r@)),
            docs_view(r@) == self.docs().subrange(
                if skip <= self.docs().len() { skip as int } else { self.docs().len() as int },
                if skip as int + page as int <= self.docs().len() { skip + page } else { self.docs().len() as int },
            ),
    {
        let n = self.docs.len();
        let lo = if skip <= n { skip } else { n };
        let hi = if page <= n - lo { lo + page } else { n };
        let mut out: Vec<ScheduleDocument> = Vec::new();
        let mut i: usize = lo;
        while i < hi
            invariant
                lo <= i <= hi <= n,
                n == self.docs@.len(),
                docs_view(out@) == self.docs().subrange(lo as int, i as int),
            decreases hi - i,
        {
            let ghost prev = docs_view(out@);
            let d = self.docs[i].clone();
            out.push(d);
            proof {
                assert(self.docs()[i as int] == self.docs@[i as int]@);
                assert(docs_view(out@) =~= prev.push(self.docs()[i as int]));
                assert(docs_view(out@) =~= self.docs().subrange(lo as int, i as int + 1));
            }
            i = i + 1;
        }
        proof {
            assert(docs_view(out@) =~= self.docs().subrange(lo as int, hi as int));
            if self.wf() {
                let v = docs_view(out@);
                assert forall|a: int, b: int| 0 <= a < b < v.len() implies id_less(v[a].id, v[b].id) by {
                    assert(v[a] == self.docs()[lo + a] && v[b] == self.docs()[lo + b]);
                }
            }
        }
        out
    }

    /// Applies the command committed at `index`: the documents become
    /// `apply_docs(..)` of it, and `index` becomes the last applied. A create of an
    /// existing id, or another command on a missing one, changes no document and
    /// is reported as an error, but still counts as applied.
    pub fn apply_entry(&mut self, index: u64, cmd: ScheduleData) -> (r: Result<ScheduleEventResponse, ApplyError>)
        requires
            old(self).wf(),
        ensures
            final(self).wf(),
            final(self).docs() == apply_docs(old(self).docs(), cmd),
            final(self).last_applied() == index,
            r is Err <==> command_rejected(old(self).docs(), cmd),
            r matches Err(e) ==> e == (if cmd is Create { ApplyError::AlreadyExists } else { ApplyError::NotFound }),
            r matches Ok(resp) ==> response_matches(old(self).docs(), cmd, resp),
    {
        let ghost d0 = self.docs();
        let ghost c0 = cmd;
        proof {
            lemma_apply_sorted(d0, cmd);
            lemma_sorted_unique(d0);
        }
        self.state.last_applied_log = index;
        match cmd {
            ScheduleData::Create(c, at) => {
                let mut p: usize = 0;
                while p < self.docs.len() && id_lt(&self.docs[p].id, &c.id)
                    invariant
                        p <= self.docs.len(),
                        self.docs() == d0,
                        ids_sorted(d0),
                        forall|i: int| 0 <= i < p ==> id_less(#[trigger] d0[i].id, c.id@),
                    decreases self.docs.len() - p,
                {
                    p = p + 1;
                }
                if p < self.docs.len() && self.docs[p].id == c.id {
                    proof {
                        assert(d0[p as int].id == c.id@);
                        assert(has_id(d0, c.id@));
                    }
                    return Err(ApplyError::AlreadyExists);
                }
                proof {
                    if p < d0.len() {
                        lemma_id_less_total(d0[p as int].id, c.id@);
                    }
                    assert forall|i: int| p <= i < d0.len() implies id_less(c.id@, #[trigger] d0[i].id) by {
                        if i > p {
                            lemma_id_less_transitive(c.id@, d0[p as int].id, d0[i].id);
                        }
                    }
                    assert(!has_id(d0, c.id@)) by {
                        if has_id(d0, c.id@) {
                            let k = choose|k: int| 0 <= k < d0.len() && d0[k].id == c.id@;
                            lemma_id_less_irreflexive(c.id@);
                        }
                    }
                    assert(splits_at(d0, c.id@, p as int));
                    lemma_insert_pos(d0, c.id@);
                }
                let callback = match c.callback {
                    Some(cb) => Some(cb.into_document()),
                    None => None,
                };
                let doc = ScheduleDocument {
                    id: c.id,
                    tags: c.tags,
                    request: c.request.into_document(),
                    schedule: c.schedule,
                    schedule_at: c.schedule_at,
                    callback,
                    created_at: at,
                    updated_at: at,
                    last_run: None,
                    status: ScheduleStatus::Scheduled,
                };
                let dto = ScheduleDto::of_document(&doc);
                self.docs.insert(p, doc);
                proof {
                    assert(self.docs() =~= apply_docs(d0, c0));
                }
                Ok(ScheduleEventResponse::Created(dto))
            },
            ScheduleData::Update(u, at) => {
                match self.position(&u.id) {
                    None => Err(ApplyError::NotFound),
                    Some(i) => {
                        let old_doc = self.docs.remove(i);
                        let callback = match u.callback {
                            Some(cb) => Some(cb.into_document()),
                            None => None,
                        };
                        let doc = ScheduleDocument {
                            id: old_doc.id,
                            tags: u.tags,
                            request: u.request.into_document(),
                            schedule: u.schedule,
                            schedule_at: u.schedule_at,
                            callback,
                            created_at: old_doc.created_at,
                            updated_at: at,
                            last_run: old_doc.last_run,
                            status: old_doc.status,
                        };
                        let dto = ScheduleDto::of_document(&doc);
                        self.docs.insert(i, doc);
                        proof {
                            assert(self.docs() =~= apply_docs(d0, c0));
                        }
                        Ok(ScheduleEventResponse::Updated(dto))
                    },
                }
            },
            ScheduleData::Delete(id, _) => {
                match self.position(&id) {
                    None => Err(ApplyError::NotFound),
                    Some(i) => {
                        let _ = self.docs.remove(i);
                        proof {
                            assert(self.docs() =~= apply_docs(d0, c0));
                        }
                        Ok(ScheduleEventResponse::Deleted(id))
                    },
                }
            },
            ScheduleData::MarkFired(id, t, s) => {
                match self.position(&id) {
                    None => Err(ApplyError::NotFound),
                    Some(i) => {
                        let old_doc = self.docs.remove(i);
                        let doc = ScheduleDocument {
                            id: old_doc.id,
                            tags: old_doc.tags,
                            request: old_doc.request,
                            schedule: old_doc.schedule,
                            schedule_at: old_doc.schedule_at,
                            callback: old_doc.callback,
                            created_at: old_doc.created_at,
                            updated_at: old_doc.updated_at,
                            last_run: Some(t),
                            status: s,
                        };
                        self.docs.insert(i, doc);
                        proof {
                            assert(self.docs() =~= apply_docs(d0, c0));
                        }
                        Ok(ScheduleEventResponse::Fired(id))
                    },
                }
            },
        }
    }

    /// Applies a batch of indexed commands, strictly in ascending index order,
    /// as repeated `apply_entry` would. A batch out of order is refused whole
    /// (`OutOfOrder`) and changes nothing.
    pub fn apply_batch(&mut self, entries: Vec<(u64, ScheduleData)>) -> (r: Result<(), ApplyError>)
        requires
            old(self).wf(),
        ensures
            final(self).wf(),
            r is Err <==> !ascending(entries@),
            r is Err ==> r == Err::<(), ApplyError>(ApplyError::OutOfOrder) && final(self).docs()
                == old(self).docs() && final(self).last_applied() == old(self).last_applied(),
            r is Ok ==> final(self).docs() == apply_all(old(self).docs(), entries@),
            r is Ok ==> final(self).last_applied() == (if entries@.len() == 0 {
                old(self).last_applied()
            } else {
                entries@.last().0
            }),
    {
        let ghost es = entries@;
        let ghost d0 = self.docs();
        let n = entries.len();
        let mut i: usize = 1;
        while i < n
            invariant
                1 <= i,
                self.wf(),
                self.docs() == d0,
                self.last_applied() == old(self).last_applied(),
                n == es.len(),
                es == entries@,
                n > 0 ==> i <= n,
                forall|a: int, b: int| 0 <= a < b < i && b < n ==> es[a].0 < es[b].0,
            decreases n - i,
        {
            if entries[i - 1].0 >= entries[i].0 {
                return Err(ApplyError::OutOfOrder);
            }
            proof {
                assert forall|a: int, b: int| 0 <= a < b < i + 1 && b < n implies es[a].0 < es[b].0 by {
                    if b == i && a < i - 1 {
                        assert(es[a].0 < es[i - 1].0);
                    }
                }
            }
            i = i + 1;
        }
        let mut rest = entries;
        let mut k: usize = 0;
        proof {
            assert(es.skip(0) =~= es);
            assert(es.take(0) =~= Seq::<(u64, ScheduleData)>::empty());
        }
        while rest.len() > 0
            invariant
                self.wf(),
                k <= n,
                n == es.len(),
                rest@ == es.skip(k as int),
                self.docs() == apply_all(d0, es.take(k as int)),
                k == 0 ==> self.last_applied() == old(self).last_applied(),
                k > 0 ==> self.last_applied() == es[k - 1].0,
            decreases rest.len(),
        {
            proof {
                assert(es.take(k as int + 1).drop_last() =~= es.take(k as int));
                assert(es.skip(k as int)[0] == es[k as int]);
            }
            let (idx, cmd) = rest.remove(0);
            let _ = self.apply_entry(idx, cmd);
            proof {
                assert(rest@ =~= es.skip(k as int + 1));
            }
            k = k + 1;
        }
        proof {
            assert(es.take(n as int) =~= es);
        }
        Ok(())
    }
}

} // verus!
