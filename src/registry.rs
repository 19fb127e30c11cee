//! The scheduler's worker registry: one liveness row per worker name, the
//! known topics, and which worker listens on which topic. Every row update
//! is guarded by the row's last-seen instant, so reports that arrive out of
//! order never move a row back in time.

use vstd::prelude::*;
use crate::broker::str_equal;
use crate::config::views;
use crate::messages::{StatusMessage, WorkerDetails, WorkerStatus, WorkerStatusDetails};

verus! {

/// Liveness of one worker.
#[derive(Clone, Copy, PartialEq, Eq, Structural, Debug)]
pub struct WorkerRow {
    pub status: WorkerStatus,
    pub last_seen: i64,
    pub job_id: Option<u128>,
    pub started_at: Option<i64>,
    pub shutdown_at: Option<i64>,
}

pub struct WorkerRecord {
    pub worker_name: String,
    pub row: WorkerRow,
}

pub struct WorkerRegistry {
    pub workers: Vec<WorkerRecord>,
    pub topics: Vec<String>,
    pub worker_topics: Vec<(String, String)>,
}

/// The rows of `ws` by worker name.
pub open spec fn row_map(ws: Seq<WorkerRecord>) -> Map<Seq<char>, WorkerRow>
    decreases ws.len(),
{
    if ws.len() == 0 {
        Map::empty()
    } else {
        row_map(ws.drop_last()).insert(ws.last().worker_name@, ws.last().row)
    }
}

pub open spec fn names_unique(ws: Seq<WorkerRecord>) -> bool {
    forall|i: int, j: int| 0 <= i < j < ws.len() ==> ws[i].worker_name@ != ws[j].worker_name@
}

pub open spec fn link_views(ls: Seq<(String, String)>) -> Seq<(Seq<char>, Seq<char>)> {
    ls.map_values(|p: (String, String)| (p.0@, p.1@))
}

proof fn lemma_row_map_lookup(ws: Seq<WorkerRecord>)
    requires
        names_unique(ws),
    ensures
        forall|i: int|
            0 <= i < ws.len() ==> row_map(ws).contains_key(#[trigger] ws[i].worker_name@)
                && row_map(ws)[ws[i].worker_name@] == ws[i].row,
        forall|n: Seq<char>|
            #[trigger] row_map(ws).contains_key(n) ==> exists|i: int|
                0 <= i < ws.len() && ws[i].worker_name@ == n,
    decreases ws.len(),
{
    if ws.len() > 0 {
        let d = ws.drop_last();
        lemma_row_map_lookup(d);
        assert forall|i: int| 0 <= i < ws.len() implies row_map(ws).contains_key(
            #[trigger] ws[i].worker_name@,
        ) && row_map(ws)[ws[i].worker_name@] == ws[i].row by {
            if i < ws.len() - 1 {
                assert(d[i] == ws[i]);
            }
        }
        assert forall|n: Seq<char>| #[trigger] row_map(ws).contains_key(n) implies exists|i: int|
            0 <= i < ws.len() && ws[i].worker_name@ == n by {
            if n != ws.last().worker_name@ {
                let i = choose|i: int| 0 <= i < d.len() && d[i].worker_name@ == n;
                assert(ws[i] == d[i]);
            }
        }
    }
}

proof fn lemma_row_map_update(ws: Seq<WorkerRecord>, i: int, w: WorkerRecord)
    requires
        names_unique(ws),
        0 <= i < ws.len(),
        w.worker_name@ == ws[i].worker_name@,
    ensures
        row_map(ws.update(i, w)) == row_map(ws).insert(w.worker_name@, w.row),
    decreases ws.len(),
{
    let u = ws.update(i, w);
    if i == ws.len() - 1 {
        assert(u.drop_last() =~= ws.drop_last());
        assert(row_map(u) =~= row_map(ws).insert(w.worker_name@, w.row));
    } else {
        assert(u.drop_last() =~= ws.drop_last().update(i, w));
        lemma_row_map_update(ws.drop_last(), i, w);
        assert(ws.last().worker_name@ != w.worker_name@);
        assert(row_map(u) =~= row_map(ws).insert(w.worker_name@, w.row));
    }
}

/// The row of a worker after a lifecycle report at `ts`: created when the
/// worker is new, otherwise replaced only when `ts` is later than its last
/// sighting. Going online sets the start instant, going offline the
/// shutdown instant; either clears the current job.
pub open spec fn row_after_lifecycle(old: Option<WorkerRow>, status: WorkerStatus, ts: i64) -> WorkerRow {
    match old {
        None => WorkerRow {
            status,
            last_seen: ts,
            job_id: None,
            started_at: if status == WorkerStatus::Online {
                Some(ts)
            } else {
                None
            },
            shutdown_at: if status == WorkerStatus::Offline {
                Some(ts)
            } else {
                None
            },
        },
        Some(r) => if r.last_seen < ts {
            WorkerRow {
                status,
                last_seen: ts,
                job_id: None,
                started_at: if status == WorkerStatus::Online {
                    Some(ts)
                } else {
                    r.started_at
                },
                shutdown_at: if status == WorkerStatus::Offline {
                    Some(ts)
                } else {
                    r.shutdown_at
                },
            }
        } else {
            r
        },
    }
}

/// The row of a known worker after a job report at `ts`.
pub open spec fn row_after_job(r: WorkerRow, job_id: Option<u128>, ts: i64) -> WorkerRow {
    if r.last_seen < ts {
        WorkerRow { last_seen: ts, job_id, ..r }
    } else {
        r
    }
}

/// The row of a known worker after a heartbeat at `ts`.
pub open spec fn row_after_heartbeat(r: WorkerRow, ts: i64) -> WorkerRow {
    if r.last_seen < ts {
        WorkerRow { last_seen: ts, ..r }
    } else {
        r
    }
}

/// Rows after a job report: an unknown worker stays unknown.
pub open spec fn rows_after_job(
    rows: Map<Seq<char>, WorkerRow>,
    name: Seq<char>,
    job_id: Option<u128>,
    ts: i64,
) -> Map<Seq<char>, WorkerRow> {
    if rows.contains_key(name) {
        rows.insert(name, row_after_job(rows[name], job_id, ts))
    } else {
        rows
    }
}

/// Rows after a heartbeat: an unknown worker stays unknown.
pub open spec fn rows_after_heartbeat(rows: Map<Seq<char>, WorkerRow>, name: Seq<char>, ts: i64) -> Map<
    Seq<char>,
    WorkerRow,
> {
    if rows.contains_key(name) {
        rows.insert(name, row_after_heartbeat(rows[name], ts))
    } else {
        rows
    }
}

pub open spec fn rows_after_lifecycle(
    rows: Map<Seq<char>, WorkerRow>,
    name: Seq<char>,
    status: WorkerStatus,
    ts: i64,
) -> Map<Seq<char>, WorkerRow> {
    rows.insert(
        name,
        row_after_lifecycle(
            if rows.contains_key(name) {
                Some(rows[name])
            } else {
                None
            },
            status,
            ts,
        ),
    )
}

/// Pairs linking worker `name` to each topic of `ts`.
pub open spec fn links_for(name: Seq<char>, ts: Set<Seq<char>>) -> Set<(Seq<char>, Seq<char>)> {
    Set::new(|p: (Seq<char>, Seq<char>)| p.0 == name && ts.contains(p.1))
}

/// `links` without the pairs of worker `name`.
pub open spec fn links_without(links: Set<(Seq<char>, Seq<char>)>, name: Seq<char>) -> Set<
    (Seq<char>, Seq<char>),
> {
    links.filter(|p: (Seq<char>, Seq<char>)| p.0 != name)
}

/// The topics a lifecycle report names.
pub open spec fn topics_of(d: WorkerDetails) -> Set<Seq<char>> {
    views(d.worker_topics@).to_set()
}

/// Rows, topics and links of a registry.
pub type RegistryState = (Map<Seq<char>, WorkerRow>, Set<Seq<char>>, Set<(Seq<char>, Seq<char>)>);

/// The job a job report names, if any.
pub open spec fn reported_job(j: Option<crate::messages::WorkerStatusJobDetails>) -> Option<u128> {
    match j {
        Some(d) => Some(d.job_id),
        None => None,
    }
}

/// A lifecycle report at `ts` updates the row of worker `name`: the worker
/// is new, or was last seen before `ts`.
pub open spec fn lifecycle_applies(rows: Map<Seq<char>, WorkerRow>, name: Seq<char>, ts: i64) -> bool {
    !rows.contains_key(name) || rows[name].last_seen < ts
}

/// What a lifecycle report does to the worker's topics.
#[derive(Clone, Copy, PartialEq, Eq, Structural, Debug)]
pub enum TopicChange {
    /// Record the reported topics and link the worker to them.
    Record,
    /// Drop every link of the worker.
    Drop,
}

pub open spec fn topic_change_spec(status: WorkerStatus) -> TopicChange {
    if status == WorkerStatus::Online {
        TopicChange::Record
    } else {
        TopicChange::Drop
    }
}

/// The topic change that follows a lifecycle report with `status`: going
/// online records the reported topics, going offline purges the worker's
/// links. Only the worker's row is guarded by its last sighting; the topic
/// change follows every lifecycle report.
pub fn topic_change(status: WorkerStatus) -> (r: TopicChange)
    ensures
        r == topic_change_spec(status),
{
    if status == WorkerStatus::Online {
        TopicChange::Record
    } else {
        TopicChange::Drop
    }
}

/// The registry after a status report: a lifecycle report updates the row
/// (when it is newer) and records (online) or drops (offline) the worker's
/// topics; job reports and heartbeats update a known worker's row.
pub open spec fn after_status(s: RegistryState, msg: StatusMessage) -> RegistryState {
    let n = msg.worker_name@;
    let ts = msg.timestamp;
    match msg.status {
        WorkerStatusDetails::Lifecycle(d) => {
            let rows = rows_after_lifecycle(s.0, n, d.worker_status, ts);
            match topic_change_spec(d.worker_status) {
                TopicChange::Record => (rows, s.1 + topics_of(d), s.2 + links_for(n, topics_of(d))),
                TopicChange::Drop => (rows, s.1, links_without(s.2, n)),
            }
        },
        WorkerStatusDetails::Job(j) => (rows_after_job(s.0, n, reported_job(j), ts), s.1, s.2),
        WorkerStatusDetails::Heartbeat => (rows_after_heartbeat(s.0, n, ts), s.1, s.2),
    }
}

impl WorkerRegistry {
    /// Worker names are unique, and so are topic names and worker–topic
    /// pairs.
    pub open spec fn wf(&self) -> bool {
        &&& names_unique(self.workers@)
        &&& crate::config::no_duplicates(views(self.topics@))
        &&& forall|i: int, j: int|
            0 <= i < j < self.worker_topics@.len() ==> link_views(self.worker_topics@)[i]
                != link_views(self.worker_topics@)[j]
    }

    pub open spec fn state(&self) -> RegistryState {
        (self.rows(), self.topic_set(), self.link_set())
    }

    /// Rows by worker name.
    pub open spec fn rows(&self) -> Map<Seq<char>, WorkerRow> {
        row_map(self.workers@)
    }

    /// Names of the known topics.
    pub open spec fn topic_set(&self) -> Set<Seq<char>> {
        views(self.topics@).to_set()
    }

    /// Pairs (worker name, topic name) of who listens on what.
    pub open spec fn link_set(&self) -> Set<(Seq<char>, Seq<char>)> {
        link_views(self.worker_topics@).to_set()
    }

    pub fn new() -> (r: Self)
        ensures
            r.wf(),
            r.rows() == Map::<Seq<char>, WorkerRow>::empty(),
            r.topic_set() == Set::<Seq<char>>::empty(),
            r.link_set() == Set::<(Seq<char>, Seq<char>)>::empty(),
    {
        let r = WorkerRegistry { workers: Vec::new(), topics: Vec::new(), worker_topics: Vec::new() };
        assert(views(r.topics@).to_set() =~= Set::<Seq<char>>::empty());
        assert(link_views(r.worker_topics@).to_set() =~= Set::<(Seq<char>, Seq<char>)>::empty());
        r
    }

    /// Position of the worker called `name`.
    pub fn find_worker(&self, name: &str) -> (r: Option<usize>)
        requires
            self.wf(),
        ensures
            r is None <==> !self.rows().contains_key(name@),
            r matches Some(i) ==> i < self.workers@.len() && self.workers@[i as int].worker_name@
                == name@,
    {
        proof {
            lemma_row_map_lookup(self.workers@);
        }
        let mut i: usize = 0;
        while i < self.workers.len()
            invariant
                0 <= i <= self.workers@.len(),
                names_unique(self.workers@),
                forall|k: int| 0 <= k < i ==> self.workers@[k].worker_name@ != name@,
            decreases self.workers@.len() - i,
        {
            if str_equal(self.workers[i].worker_name.as_str(), name) {
                proof {
                    lemma_row_map_lookup(self.workers@);
                }
                return Some(i);
            }
            i = i + 1;
        }
        proof {
            lemma_row_map_lookup(self.workers@);
        }
        None
    }

    /// The row of the worker called `name`, if it is known.
    pub fn get_row(&self, name: &str) -> (r: Option<WorkerRow>)
        requires
            self.wf(),
        ensures
            r is None <==> !self.rows().contains_key(name@),
            r matches Some(w) ==> w == self.rows()[name@],
    {
        match self.find_worker(name) {
            None => None,
            Some(i) => {
                proof {
                    lemma_row_map_lookup(self.workers@);
                }
                Some(self.workers[i].row)
            },
        }
    }

    /// Sets the row of `name`, adding the worker when it is new.
    fn put_row(&mut self, name: &String, row: WorkerRow)
        requires
            old(self).wf(),
        ensures
            final(self).wf(),
            final(self).rows() == old(self).rows().insert(name@, row),
            final(self).topics == old(self).topics,
            final(self).worker_topics == old(self).worker_topics,
    {
        match self.find_worker(name.as_str()) {
            Some(i) => {
                let ghost ws = self.workers@;
                let rec = WorkerRecord { worker_name: name.clone(), row };
                self.workers.set(i, rec);
                proof {
                    lemma_row_map_update(ws, i as int, rec);
                    assert forall|a: int, b: int| 0 <= a < b < self.workers@.len() implies self.workers@[a].worker_name@
                        != self.workers@[b].worker_name@ by {
                        if a != i {
                            assert(self.workers@[a] == ws[a]);
                        }
                        if b != i {
                            assert(self.workers@[b] == ws[b]);
                        }
                    }
                }
            },
            None => {
                let ghost ws = self.workers@;
                proof {
                    lemma_row_map_lookup(ws);
                }
                self.workers.push(WorkerRecord { worker_name: name.clone(), row });
                proof {
                    assert(self.workers@.drop_last() =~= ws);
                    assert forall|a: int, b: int| 0 <= a < b < self.workers@.len() implies self.workers@[a].worker_name@
                        != self.workers@[b].worker_name@ by {
                        assert(self.workers@[a] == ws[a]);
                        if b < ws.len() {
                            assert(self.workers@[b] == ws[b]);
                        }
                    }
                }
            },
        }
    }

    /// A lifecycle report of worker `worker_name` at `timestamp`; tells
    /// whether it updated the row.
    pub fn update_worker_status(&mut self, worker_name: &String, status: WorkerStatus, timestamp: i64) -> (r:
        bool)
        requires
            old(self).wf(),
        ensures
            final(self).wf(),
            r == lifecycle_applies(old(self).rows(), worker_name@, timestamp),
            final(self).rows() == rows_after_lifecycle(old(self).rows(), worker_name@, status, timestamp),
            final(self).topics == old(self).topics,
            final(self).worker_topics == old(self).worker_topics,
    {
        let current = self.get_row(worker_name.as_str());
        let applies = match current {
            None => true,
            Some(r) => r.last_seen < timestamp,
        };
        let row = match current {
            None => WorkerRow {
                status,
                last_seen: timestamp,
                job_id: None,
                started_at: if status == WorkerStatus::Online {
                    Some(timestamp)
                } else {
                    None
                },
                shutdown_at: if status == WorkerStatus::Offline {
                    Some(timestamp)
                } else {
                    None
                },
            },
            Some(r) => if r.last_seen < timestamp {
                WorkerRow {
                    status,
                    last_seen: timestamp,
                    job_id: None,
                    started_at: if status == WorkerStatus::Online {
                        Some(timestamp)
                    } else {
                        r.started_at
                    },
                    shutdown_at: if status == WorkerStatus::Offline {
                        Some(timestamp)
                    } else {
                        r.shutdown_at
                    },
                }
            } else {
                r
            },
        };
        self.put_row(worker_name, row);
        applies
    }

    /// A job report of worker `worker_name` at `timestamp`.
    pub fn update_worker_job(&mut self, worker_name: &String, job_id: Option<u128>, timestamp: i64)
        requires
            old(self).wf(),
        ensures
            final(self).wf(),
            final(self).rows() == rows_after_job(old(self).rows(), worker_name@, job_id, timestamp),
            final(self).topics == old(self).topics,
            final(self).worker_topics == old(self).worker_topics,
    {
        match self.get_row(worker_name.as_str()) {
            None => {},
            Some(r) => {
                if r.last_seen < timestamp {
                    self.put_row(
                        worker_name,
                        WorkerRow {
                            status: r.status,
                            last_seen: timestamp,
                            job_id,
                            started_at: r.started_at,
                            shutdown_at: r.shutdown_at,
                        },
                    );
                } else {
                    proof {
                        assert(old(self).rows().insert(worker_name@, r) =~= old(self).rows());
                    }
                }
            },
        }
    }

    /// A heartbeat of worker `worker_name` at `timestamp`.
    pub fn update_worker_heartbeat(&mut self, worker_name: &String, timestamp: i64)
        requires
            old(self).wf(),
        ensures
            final(self).wf(),
            final(self).rows() == rows_after_heartbeat(old(self).rows(), worker_name@, timestamp),
            final(self).topics == old(self).topics,
            final(self).worker_topics == old(self).worker_topics,
    {
        match self.get_row(worker_name.as_str()) {
            None => {},
            Some(r) => {
                if r.last_seen < timestamp {
                    self.put_row(
                        worker_name,
                        WorkerRow {
                            status: r.status,
                            last_seen: timestamp,
                            job_id: r.job_id,
                            started_at: r.started_at,
                            shutdown_at: r.shutdown_at,
                        },
                    );
                } else {
                    proof {
                        assert(old(self).rows().insert(worker_name@, r) =~= old(self).rows());
                    }
                }
            },
        }
    }
}


impl WorkerRegistry {
    /// Adds `t` to the known topics.
    fn add_topic_name(&mut self, t: &String)
        requires
            old(self).wf(),
        ensures
            final(self).wf(),
            final(self).topic_set() == old(self).topic_set().insert(t@),
            final(self).workers == old(self).workers,
            final(self).worker_topics == old(self).worker_topics,
    {
        let ghost vs = views(self.topics@);
        if crate::config::contains_str(&self.topics, t.as_str()) {
            assert(vs.to_set().insert(t@) =~= vs.to_set());
            return;
        }
        self.topics.push(t.clone());
        proof {
            assert(views(self.topics@) =~= vs.push(t@));
            vs.lemma_push_to_set_commute(t@);
            assert forall|i: int, j: int| 0 <= i < j < views(self.topics@).len() implies views(self.topics@)[i]
                != views(self.topics@)[j] by {
                if j == vs.len() {
                    assert(vs[i] == views(self.topics@)[i]);
                }
            }
        }
    }

    /// Whether worker `name` is linked to topic `t`.
    fn has_link(&self, name: &str, t: &str) -> (r: bool)
        ensures
            r == link_views(self.worker_topics@).contains((name@, t@)),
    {
        let mut i: usize = 0;
        while i < self.worker_topics.len()
            invariant
                0 <= i <= self.worker_topics@.len(),
                forall|k: int| 0 <= k < i ==> link_views(self.worker_topics@)[k] != (name@, t@),
            decreases self.worker_topics@.len() - i,
        {
            let p = &self.worker_topics[i];
            if str_equal(p.0.as_str(), name) && str_equal(p.1.as_str(), t) {
                assert(link_views(self.worker_topics@)[i as int] == (name@, t@));
                return true;
            }
            assert(link_views(self.worker_topics@)[i as int] == (p.0@, p.1@));
            i = i + 1;
        }
        false
    }

    /// Links worker `name` to topic `t`.
    fn add_link(&mut self, name: &String, t: &String)
        requires
            old(self).wf(),
        ensures
            final(self).wf(),
            final(self).link_set() == old(self).link_set().insert((name@, t@)),
            final(self).workers == old(self).workers,
            final(self).topics == old(self).topics,
    {
        let ghost ls = link_views(self.worker_topics@);
        if self.has_link(name.as_str(), t.as_str()) {
            assert(ls.to_set().insert((name@, t@)) =~= ls.to_set());
            return;
        }
        self.worker_topics.push((name.clone(), t.clone()));
        proof {
            assert(link_views(self.worker_topics@) =~= ls.push((name@, t@)));
            ls.lemma_push_to_set_commute((name@, t@));
            assert forall|i: int, j: int|
                0 <= i < j < self.worker_topics@.len() implies link_views(self.worker_topics@)[i]
                != link_views(self.worker_topics@)[j] by {
                if j == ls.len() {
                    assert(ls[i] == link_views(self.worker_topics@)[i]);
                }
            }
        }
    }

    /// Records each topic of `topics` as known and links worker
    /// `worker_name` to it.
    pub fn upsert_worker_topics(&mut self, worker_name: &String, topics: &Vec<String>)
        requires
            old(self).wf(),
        ensures
            final(self).wf(),
            final(self).topic_set() == old(self).topic_set() + views(topics@).to_set(),
            final(self).link_set() == old(self).link_set() + links_for(
                worker_name@,
                views(topics@).to_set(),
            ),
            final(self).workers == old(self).workers,
    {
        let mut k: usize = 0;
        while k < topics.len()
            invariant
                0 <= k <= topics@.len(),
                self.wf(),
                self.topic_set() == old(self).topic_set() + views(topics@.subrange(0, k as int)).to_set(),
                self.link_set() == old(self).link_set() + links_for(
                    worker_name@,
                    views(topics@.subrange(0, k as int)).to_set(),
                ),
                self.workers == old(self).workers,
            decreases topics@.len() - k,
        {
            let ghost before = views(topics@.subrange(0, k as int));
            let t = &topics[k];
            self.add_topic_name(t);
            self.add_link(worker_name, t);
            proof {
                assert(views(topics@.subrange(0, k as int + 1)) =~= before.push(t@));
                before.lemma_push_to_set_commute(t@);
                assert(self.topic_set() =~= old(self).topic_set() + before.push(t@).to_set());
                assert(self.link_set() =~= old(self).link_set() + links_for(
                    worker_name@,
                    before.push(t@).to_set(),
                ));
            }
            k = k + 1;
        }
        assert(topics@.subrange(0, k as int) =~= topics@);
    }

    /// Drops every link of worker `worker_name`.
    pub fn remove_worker_topics(&mut self, worker_name: &String)
        requires
            old(self).wf(),
        ensures
            final(self).wf(),
            final(self).link_set() == links_without(old(self).link_set(), worker_name@),
            final(self).workers == old(self).workers,
            final(self).topics == old(self).topics,
    {
        let ghost old_ls = link_views(self.worker_topics@);
        let mut kept: Vec<(String, String)> = Vec::new();
        let mut i: usize = 0;
        while i < self.worker_topics.len()
            invariant
                0 <= i <= self.worker_topics@.len(),
                old_ls == link_views(self.worker_topics@),
                self.wf(),
                forall|a: int, b: int|
                    0 <= a < b < kept@.len() ==> link_views(kept@)[a] != link_views(kept@)[b],
                forall|a: int|
                    #![trigger link_views(kept@)[a]]
                    0 <= a < kept@.len() ==> exists|j: int|
                        0 <= j < i && link_views(kept@)[a] == old_ls[j],
                link_views(kept@).to_set() == links_without(
                    old_ls.subrange(0, i as int).to_set(),
                    worker_name@,
                ),
            decreases self.worker_topics@.len() - i,
        {
            let ghost before = link_views(kept@);
            let ghost pre = old_ls.subrange(0, i as int);
            let p = &self.worker_topics[i];
            proof {
                assert(old_ls[i as int] == (p.0@, p.1@));
                assert(old_ls.subrange(0, i as int + 1) =~= pre.push(old_ls[i as int]));
                pre.lemma_push_to_set_commute(old_ls[i as int]);
            }
            if !str_equal(p.0.as_str(), worker_name.as_str()) {
                kept.push((p.0.clone(), p.1.clone()));
                proof {
                    assert(link_views(kept@) =~= before.push(old_ls[i as int]));
                    before.lemma_push_to_set_commute(old_ls[i as int]);
                    assert(link_views(kept@).to_set() =~= links_without(
                        old_ls.subrange(0, i as int + 1).to_set(),
                        worker_name@,
                    ));
                    assert forall|a: int, b: int| 0 <= a < b < kept@.len() implies link_views(kept@)[a]
                        != link_views(kept@)[b] by {
                        if b == before.len() {
                            let j = choose|j: int| 0 <= j < i && before[a] == old_ls[j];
                            assert(link_views(kept@)[a] == before[a]);
                        }
                    }
                    assert forall|a: int|
                        #![trigger link_views(kept@)[a]]
                        0 <= a < kept@.len() implies exists|j: int|
                        0 <= j < i + 1 && link_views(kept@)[a] == old_ls[j] by {
                        if a < before.len() {
                            let j = choose|j: int| 0 <= j < i && before[a] == old_ls[j];
                            assert(link_views(kept@)[a] == before[a]);
                        } else {
                            assert(link_views(kept@)[a] == old_ls[i as int]);
                        }
                    }
                }
            } else {
                proof {
                    assert(link_views(kept@).to_set() =~= links_without(
                        old_ls.subrange(0, i as int + 1).to_set(),
                        worker_name@,
                    ));
                }
            }
            i = i + 1;
        }
        assert(old_ls.subrange(0, i as int) =~= old_ls);
        self.worker_topics = kept;
    }

    /// Applies one status report of a worker.
    pub fn handle_status(&mut self, msg: StatusMessage)
        requires
            old(self).wf(),
        ensures
            final(self).wf(),
            final(self).state() == after_status(old(self).state(), msg),
    {
        let ghost m = msg;
        let StatusMessage { worker_name, status, timestamp } = msg;
        match status {
            WorkerStatusDetails::Lifecycle(details) => {
                let ws = details.worker_status;
                self.update_worker_status(&worker_name, ws, timestamp);
                match topic_change(ws) {
                    TopicChange::Record => self.upsert_worker_topics(&worker_name, &details.worker_topics),
                    TopicChange::Drop => self.remove_worker_topics(&worker_name),
                }
            },
            WorkerStatusDetails::Job(job_details) => {
                let job_id = match job_details {
                    Some(d) => Some(d.job_id),
                    None => None,
                };
                self.update_worker_job(&worker_name, job_id, timestamp);
            },
            WorkerStatusDetails::Heartbeat => {
                self.update_worker_heartbeat(&worker_name, timestamp);
            },
        }
    }
}

/// Two reports of the same worker leave its last sighting at the later of
/// their instants, whichever order they are applied in, when the worker was
/// last seen before both (or, for a worker not yet known, when both are
/// lifecycle reports).
pub proof fn lemma_last_seen_is_latest(s: RegistryState, u1: StatusMessage, u2: StatusMessage)
    requires
        u1.worker_name@ == u2.worker_name@,
        s.0.contains_key(u1.worker_name@) ==> s.0[u1.worker_name@].last_seen < u1.timestamp
            && s.0[u1.worker_name@].last_seen < u2.timestamp,
        !s.0.contains_key(u1.worker_name@) ==> u1.status is Lifecycle && u2.status is Lifecycle,
    ensures
        after_status(after_status(s, u1), u2).0.contains_key(u1.worker_name@),
        after_status(after_status(s, u2), u1).0.contains_key(u1.worker_name@),
        after_status(after_status(s, u1), u2).0[u1.worker_name@].last_seen == if u1.timestamp
            >= u2.timestamp {
            u1.timestamp
        } else {
            u2.timestamp
        },
        after_status(after_status(s, u2), u1).0[u1.worker_name@].last_seen == if u1.timestamp
            >= u2.timestamp {
            u1.timestamp
        } else {
            u2.timestamp
        },
{
}

/// After any offline report the worker has no topic links, whatever its
/// last sighting.
pub proof fn lemma_offline_drops_links(s: RegistryState, msg: StatusMessage, t: Seq<char>)
    requires
        msg.status matches WorkerStatusDetails::Lifecycle(d) && d.worker_status
            == WorkerStatus::Offline,
    ensures
        !after_status(s, msg).2.contains((msg.worker_name@, t)),
{
}

/// Taking in the same offline report twice leaves the registry as taking
/// it in once.
pub proof fn lemma_offline_idempotent(s: RegistryState, msg: StatusMessage)
    requires
        msg.status matches WorkerStatusDetails::Lifecycle(d) && d.worker_status
            == WorkerStatus::Offline,
    ensures
        after_status(after_status(s, msg), msg) == after_status(s, msg),
{
    let once = after_status(s, msg);
    let twice = after_status(once, msg);
    assert(twice.0 =~= once.0);
    assert(twice.2 =~= once.2);
}

} // verus!
