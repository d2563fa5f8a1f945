//! The task store and the shared server state around it.
//!
//! The store allocates task identities from a strictly increasing counter,
//! records the owning session of every task, enforces owner matching on every
//! status or cancel request — an unknown id and a wrong-owner id are
//! deliberately indistinguishable — and reclaims finished records only after
//! a retention window has passed since their terminal status.

use vstd::prelude::*;

use crate::connection_manager::ConnectionManager;
use crate::project_files::{find_project, ProjectStore};
use crate::task::{
    spec_begin_running, spec_step, EngineSignal, Handle, Status,
};

verus! {

/// How long a finished task record stays queryable before eviction, in
/// seconds.
pub const RETENTION_SECS: u64 = 900;

/// The deadline given to every unit of work, in seconds.
pub const TASK_TIMEOUT_SECS: u64 = 600;

/// The outbound queue bound given to each listener connection.
pub const CONNECTION_QUEUE_BOUND: usize = 100;

/// One tracked task: its identity, the session that created it, the handle
/// shared with its engine, and the moment its terminal status was recorded.
pub struct TaskRecord {
    /// The task's identity, allocated from the store's counter.
    pub id: u64,
    /// The opaque session identity recorded at creation; it never changes.
    pub chat_id: String,
    /// The capability bridging store and engine.
    pub handle: Handle,
    /// When a terminal status was committed, if it has been; the eviction
    /// clock starts here.
    pub terminal_at: Option<u64>,
}

/// Index of the record with the given task identity, if present.
pub open spec fn find_task(tasks: Seq<TaskRecord>, id: u64) -> Option<int> {
    if exists|k: int| 0 <= k < tasks.len() && (#[trigger] tasks[k]).id == id {
        Some(choose|k: int| 0 <= k < tasks.len() && (#[trigger] tasks[k]).id == id)
    } else {
        None
    }
}

/// Index of the record a request may see: present and owned by the
/// requesting session. An unknown id and a known id with the wrong owner
/// both come out `None` — indistinguishable to the caller.
pub open spec fn spec_lookup(tasks: Seq<TaskRecord>, id: u64, chat_id: Seq<char>) -> Option<int> {
    match find_task(tasks, id) {
        Some(k) => if tasks[k].chat_id@ == chat_id {
            Some(k)
        } else {
            None
        },
        None => None,
    }
}

/// Whether a record's retention window has passed: a terminal status was
/// recorded and strictly more than the retention delay has elapsed since.
pub open spec fn expired(r: TaskRecord, now: u64) -> bool {
    match r.terminal_at {
        Some(t) => now > t + RETENTION_SECS,
        None => false,
    }
}

/// The records that survive eviction at a given moment, in order: exactly
/// those whose retention window has not yet passed.
pub open spec fn surviving(tasks: Seq<TaskRecord>, now: u64) -> Seq<TaskRecord>
    decreases tasks.len(),
{
    if tasks.len() == 0 {
        Seq::empty()
    } else if expired(tasks[0], now) {
        surviving(tasks.drop_first(), now)
    } else {
        seq![tasks[0]] + surviving(tasks.drop_first(), now)
    }
}

/// The shared state behind the service: the task store, the connection
/// registry, the projects image, and the configuration recorded at startup.
pub struct ApiStateInner {
    /// The bearer token every request must present.
    pub api_token: String,
    /// The registry of live listener connections.
    pub connection_manager: ConnectionManager,
    /// All tasks currently tracked, in creation order.
    pub tasks: Vec<TaskRecord>,
    /// The identity the next created task will get.
    pub current_id: u64,
    /// The configured root directory for project files, as text.
    pub projects_dir: String,
    /// The in-memory image of the projects root.
    pub projects: ProjectStore,
}

impl ApiStateInner {
    /// Well-formedness: task identities are unique and below the counter, a
    /// recorded eviction moment means a terminal status and the other way
    /// round, and the registry and projects image are themselves well formed.
    pub open spec fn wf(self) -> bool {
        &&& forall|i: int, j: int|
            0 <= i < j < self.tasks@.len() ==> (#[trigger] self.tasks@[i]).id != (
            #[trigger] self.tasks@[j]).id
        &&& forall|i: int|
            0 <= i < self.tasks@.len() ==> (#[trigger] self.tasks@[i]).id < self.current_id
        &&& forall|i: int|
            0 <= i < self.tasks@.len() ==> ((#[trigger] self.tasks@[i]).terminal_at is Some
                <==> self.tasks@[i].handle.status.spec_is_terminal())
        &&& self.connection_manager.wf()
        &&& self.projects.wf()
    }

    /// Fresh state: no tasks, no connections, no projects, counter at zero.
    pub fn new(api_token: String, projects_dir: String) -> (r: ApiStateInner)
        ensures
            r.wf(),
            r.api_token == api_token,
            r.projects_dir == projects_dir,
            r.tasks@.len() == 0,
            r.current_id == 0,
            r.connection_manager.connections@.len() == 0,
            r.projects.projects@.len() == 0,
    {
        ApiStateInner {
            api_token,
            connection_manager: ConnectionManager::new(CONNECTION_QUEUE_BOUND),
            tasks: Vec::new(),
            current_id: 0,
            projects_dir,
            projects: ProjectStore::new(),
        }
    }

    /// Whether a presented bearer token matches the configured one.
    pub fn api_token_valid(&self, api_token: &String) -> (r: bool)
        ensures
            r == (self.api_token@ == api_token@),
    {
        self.api_token == *api_token
    }

    /// A fresh opaque session identity for a client.
    /// Relies on `uuid::Uuid::new_v4` and its hyphenated `Display` form: a
    /// random version-4 UUID always formats as exactly 36 characters; nothing
    /// else can be promised of a random value.
    #[verifier::external_body]
    pub fn generate_random_chat_id(&self) -> (r: String)
        ensures
            r@.len() == 36,
    {
        uuid::Uuid::new_v4().to_string()
    }

    /// Allocates the next task identity: returns the counter and increments
    /// it.
    fn increment_current_task_id(&mut self) -> (id: u64)
        requires
            old(self).current_id < u64::MAX,
        ensures
            id == old(self).current_id,
            *final(self) == (ApiStateInner { current_id: (old(self).current_id + 1) as u64, ..*old(self) }),
    {
        let id = self.current_id;
        self.current_id = self.current_id + 1;
        id
    }

    /// Creates a process task for the given session: allocates the next
    /// identity and inserts its record, queued and not yet cancelled, before
    /// any work begins. Everything else is untouched.
    pub fn run_task(&mut self, chat_id: String) -> (id: u64)
        requires
            old(self).wf(),
            old(self).current_id < u64::MAX,
        ensures
            final(self).wf(),
            id == old(self).current_id,
            final(self).current_id == old(self).current_id + 1,
            final(self).tasks@ == old(self).tasks@.push(
                (TaskRecord {
                    id,
                    chat_id,
                    handle: (Handle { status: Status::Queued, cancel_requested: false }),
                    terminal_at: None,
                }),
            ),
            find_task(old(self).tasks@, id) is None,
            final(self).api_token == old(self).api_token,
            final(self).projects_dir == old(self).projects_dir,
            final(self).connection_manager == old(self).connection_manager,
            final(self).projects == old(self).projects,
    {
        let id = self.increment_current_task_id();
        let record = TaskRecord { id, chat_id, handle: Handle::new(), terminal_at: None };
        self.tasks.push(record);
        id
    }

    /// Creates a download-and-extract task for the given session, handed the
    /// result of creating the project's directory: on an I/O fault the fault
    /// is propagated and no task is registered; otherwise the project exists
    /// in the image, the next identity is allocated, and the record is
    /// inserted, queued and not yet cancelled.
    pub fn run_download_task(
        &mut self,
        chat_id: String,
        project_name: String,
        dir_result: Result<(), std::io::Error>,
    ) -> (r: Result<u64, std::io::Error>)
        requires
            old(self).wf(),
            old(self).current_id < u64::MAX,
        ensures
            final(self).wf(),
            dir_result is Err ==> r is Err && final(self).tasks@ == old(self).tasks@
                && final(self).current_id == old(self).current_id && final(self).projects == old(
                self,
            ).projects,
            dir_result is Ok ==> {
                &&& r == Ok::<u64, std::io::Error>(old(self).current_id)
                &&& final(self).current_id == old(self).current_id + 1
                &&& final(self).tasks@ == old(self).tasks@.push(
                    (TaskRecord {
                        id: old(self).current_id,
                        chat_id,
                        handle: (Handle { status: Status::Queued, cancel_requested: false }),
                        terminal_at: None,
                    }),
                )
                &&& find_project(final(self).projects.projects@, project_name@) is Some
            },
            final(self).api_token == old(self).api_token,
            final(self).projects_dir == old(self).projects_dir,
            final(self).connection_manager == old(self).connection_manager,
    {
        match dir_result {
            Err(e) => Err(e),
            Ok(_) => {
                self.projects.ensure_project(project_name);
                let id = self.increment_current_task_id();
                let record = TaskRecord { id, chat_id, handle: Handle::new(), terminal_at: None };
                self.tasks.push(record);
                Ok(id)
            },
        }
    }

    /// Sends a cancellation request to the task with the given id and
    /// returns right away: found if the record exists and is owned by the
    /// requesting session, in which case the cancel flag is set and nothing
    /// else changes; otherwise not found — with an unknown id and a
    /// wrong-owner id deliberately indistinguishable — and nothing changes.
    pub fn cancel_task(&mut self, id: u64, chat_id: &String) -> (r: Option<u64>)
        requires
            old(self).wf(),
        ensures
            final(self).wf(),
            (match spec_lookup(old(self).tasks@, id, chat_id@) {
                Some(k) => {
                    &&& r == Some(id)
                    &&& final(self).tasks@.len() == old(self).tasks@.len()
                    &&& (forall|j: int|
                        0 <= j < old(self).tasks@.len() && j != k ==> final(self).tasks@[j] == old(
                            self,
                        ).tasks@[j])
                    &&& final(self).tasks@[k] == (TaskRecord {
                        handle: (Handle {
                            cancel_requested: true,
                            ..old(self).tasks@[k].handle
                        }),
                        ..old(self).tasks@[k]
                    })
                },
                None => r is None && *final(self) == *old(self),
            }),
            final(self).current_id == old(self).current_id,
            final(self).api_token == old(self).api_token,
            final(self).projects_dir == old(self).projects_dir,
            final(self).connection_manager == old(self).connection_manager,
            final(self).projects == old(self).projects,
    {
        let n = self.tasks.len();
        let mut i: usize = 0;
        while i < n
            invariant
                old(self).wf(),
                n == self.tasks@.len(),
                *self == *old(self),
                0 <= i <= n,
                forall|j: int| 0 <= j < i ==> (#[trigger] self.tasks@[j]).id != id,
            decreases n - i,
        {
            if self.tasks[i].id == id {
                proof {
                    lemma_task_index_unique(old(self).tasks@, id, i as int);
                }
                if self.tasks[i].chat_id == *chat_id {
                    let t = &mut self.tasks[i];
                    t.handle.send_cancel_signal();
                    return Some(id);
                } else {
                    return None;
                }
            }
            i = i + 1;
        }
        proof {
            assert(find_task(old(self).tasks@, id) is None);
        }
        None
    }

    /// Reads the latest known status of the task with the given id: a
    /// non-blocking snapshot if the record exists and is owned by the
    /// requesting session; otherwise not found, with an unknown id and a
    /// wrong-owner id deliberately indistinguishable.
    pub fn task_status(&self, id: u64, chat_id: &String) -> (r: Option<Status>)
        requires
            self.wf(),
        ensures
            (match spec_lookup(self.tasks@, id, chat_id@) {
                Some(k) => r == Some(self.tasks@[k].handle.status),
                None => r is None,
            }),
    {
        let n = self.tasks.len();
        let mut i: usize = 0;
        while i < n
            invariant
                self.wf(),
                n == self.tasks@.len(),
                0 <= i <= n,
                forall|j: int| 0 <= j < i ==> (#[trigger] self.tasks@[j]).id != id,
            decreases n - i,
        {
            if self.tasks[i].id == id {
                proof {
                    lemma_task_index_unique(self.tasks@, id, i as int);
                }
                if self.tasks[i].chat_id == *chat_id {
                    return Some(self.tasks[i].handle.status());
                } else {
                    return None;
                }
            }
            i = i + 1;
        }
        proof {
            assert(find_task(self.tasks@, id) is None);
        }
        None
    }

    /// Marks the task's unit of work as started: `Queued` becomes `Running`.
    /// A task already past `Queued` — in particular one already terminal —
    /// is left as it is, and an unknown id changes nothing.
    pub fn task_started(&mut self, id: u64)
        requires
            old(self).wf(),
        ensures
            final(self).wf(),
            (match find_task(old(self).tasks@, id) {
                Some(k) => {
                    &&& final(self).tasks@.len() == old(self).tasks@.len()
                    &&& (forall|j: int|
                        0 <= j < old(self).tasks@.len() && j != k ==> final(self).tasks@[j] == old(
                            self,
                        ).tasks@[j])
                    &&& final(self).tasks@[k] == (TaskRecord {
                        handle: (Handle {
                            status: spec_begin_running(old(self).tasks@[k].handle.status),
                            ..old(self).tasks@[k].handle
                        }),
                        ..old(self).tasks@[k]
                    })
                },
                None => *final(self) == *old(self),
            }),
            final(self).current_id == old(self).current_id,
            final(self).api_token == old(self).api_token,
            final(self).projects_dir == old(self).projects_dir,
            final(self).connection_manager == old(self).connection_manager,
            final(self).projects == old(self).projects,
    {
        let n = self.tasks.len();
        let mut i: usize = 0;
        while i < n
            invariant
                old(self).wf(),
                n == self.tasks@.len(),
                *self == *old(self),
                0 <= i <= n,
                forall|j: int| 0 <= j < i ==> (#[trigger] self.tasks@[j]).id != id,
            decreases n - i,
        {
            if self.tasks[i].id == id {
                proof {
                    lemma_task_index_unique(old(self).tasks@, id, i as int);
                }
                let t = &mut self.tasks[i];
                t.handle.begin_running();
                return ;
            }
            i = i + 1;
        }
        proof {
            assert(find_task(old(self).tasks@, id) is None);
        }
    }

    /// Commits the first engine signal to resolve for the task with the
    /// given id: the handle's status takes the corresponding terminal state —
    /// or stays as it is if already terminal — and the moment of the first
    /// terminal commit is recorded once, starting the retention clock. An
    /// unknown id changes nothing.
    pub fn commit_signal(&mut self, id: u64, sig: EngineSignal, now: u64)
        requires
            old(self).wf(),
        ensures
            final(self).wf(),
            (match find_task(old(self).tasks@, id) {
                Some(k) => {
                    &&& final(self).tasks@.len() == old(self).tasks@.len()
                    &&& (forall|j: int|
                        0 <= j < old(self).tasks@.len() && j != k ==> final(self).tasks@[j] == old(
                            self,
                        ).tasks@[j])
                    &&& final(self).tasks@[k].id == old(self).tasks@[k].id
                    &&& final(self).tasks@[k].chat_id == old(self).tasks@[k].chat_id
                    &&& final(self).tasks@[k].handle.status == spec_step(
                        old(self).tasks@[k].handle.status,
                        sig,
                    )
                    &&& final(self).tasks@[k].handle.cancel_requested == old(
                        self,
                    ).tasks@[k].handle.cancel_requested
                    &&& final(self).tasks@[k].terminal_at == (if old(
                        self,
                    ).tasks@[k].terminal_at is Some {
                        old(self).tasks@[k].terminal_at
                    } else {
                        Some(now)
                    })
                },
                None => *final(self) == *old(self),
            }),
            final(self).current_id == old(self).current_id,
            final(self).api_token == old(self).api_token,
            final(self).projects_dir == old(self).projects_dir,
            final(self).connection_manager == old(self).connection_manager,
            final(self).projects == old(self).projects,
    {
        let n = self.tasks.len();
        let mut i: usize = 0;
        while i < n
            invariant
                old(self).wf(),
                n == self.tasks@.len(),
                *self == *old(self),
                0 <= i <= n,
                forall|j: int| 0 <= j < i ==> (#[trigger] self.tasks@[j]).id != id,
            decreases n - i,
        {
            if self.tasks[i].id == id {
                proof {
                    lemma_task_index_unique(old(self).tasks@, id, i as int);
                }
                let mut h = self.tasks[i].handle;
                h.commit(sig);
                self.tasks[i].handle = h;
                if self.tasks[i].terminal_at.is_none() {
                    self.tasks[i].terminal_at = Some(now);
                }
                return ;
            }
            i = i + 1;
        }
        proof {
            assert(find_task(old(self).tasks@, id) is None);
        }
    }

    /// Lists the file names of a project under the configured root, in
    /// creation order; a missing project reports not found.
    pub fn list_files(&self, project_name: String) -> (r: Result<
        Vec<String>,
        crate::project_files::ListFilesError,
    >)
        requires
            self.wf(),
        ensures
            (match find_project(self.projects.projects@, project_name@) {
                Some(p) => {
                    &&& r matches Ok(names)
                    &&& names@.len() == self.projects.projects@[p].files@.len()
                    &&& (forall|i: int|
                        0 <= i < names@.len() ==> #[trigger] names@[i]
                            == self.projects.projects@[p].files@[i].name)
                },
                None => r matches Err(e) && e is NotFound,
            }),
    {
        self.projects.list_files(&project_name)
    }

    /// Reads the text of one file of a project under the configured root; a
    /// missing project or file reports not found.
    pub fn get_file(&self, project_name: String, file_name: String) -> (r: Result<
        String,
        crate::project_files::GetFileError,
    >)
        requires
            self.wf(),
        ensures
            (match find_project(self.projects.projects@, project_name@) {
                Some(p) => match crate::project_files::find_file(
                    self.projects.projects@[p].files@,
                    file_name@,
                ) {
                    Some(f) => r matches Ok(text) && text
                        == self.projects.projects@[p].files@[f].content,
                    None => r matches Err(e) && e is NotFound,
                },
                None => r matches Err(e) && e is NotFound,
            }),
    {
        self.projects.get_file(&project_name, &file_name)
    }

    /// Removes every record whose retention window has passed: a record is
    /// evicted exactly when strictly more than the retention delay has gone
    /// by since its terminal status was recorded; every other record keeps
    /// its place and its state.
    pub fn evict_expired(&mut self, now: u64)
        requires
            old(self).wf(),
        ensures
            final(self).wf(),
            final(self).tasks@ == surviving(old(self).tasks@, now),
            final(self).current_id == old(self).current_id,
            final(self).api_token == old(self).api_token,
            final(self).projects_dir == old(self).projects_dir,
            final(self).connection_manager == old(self).connection_manager,
            final(self).projects == old(self).projects,
    {
        let mut i: usize = self.tasks.len();
        proof {
            assert(old(self).tasks@.skip(i as int) =~= Seq::<TaskRecord>::empty());
            assert(old(self).tasks@.subrange(0, i as int) =~= old(self).tasks@);
            assert(old(self).tasks@.subrange(0, i as int) + surviving(
                old(self).tasks@.skip(i as int),
                now,
            ) =~= old(self).tasks@);
        }
        while i > 0
            invariant
                old(self).wf(),
                0 <= i <= old(self).tasks@.len(),
                i <= self.tasks@.len(),
                self.current_id == old(self).current_id,
                self.api_token == old(self).api_token,
                self.projects_dir == old(self).projects_dir,
                self.connection_manager == old(self).connection_manager,
                self.projects == old(self).projects,
                self.tasks@ == old(self).tasks@.subrange(0, i as int) + surviving(
                    old(self).tasks@.skip(i as int),
                    now,
                ),
                forall|p: int, q: int|
                    0 <= p < q < self.tasks@.len() ==> (#[trigger] self.tasks@[p]).id != (
                    #[trigger] self.tasks@[q]).id,
                forall|p: int|
                    0 <= p < self.tasks@.len() ==> (#[trigger] self.tasks@[p]).id
                        < self.current_id,
                forall|p: int|
                    0 <= p < self.tasks@.len() ==> ((#[trigger] self.tasks@[p]).terminal_at is Some
                        <==> self.tasks@[p].handle.status.spec_is_terminal()),
            decreases i,
        {
            let ghost pre = self.tasks@;
            let expire = match self.tasks[i - 1].terminal_at {
                Some(t) => now > t && now - t > RETENTION_SECS,
                None => false,
            };
            proof {
                assert(expire == expired(old(self).tasks@[i - 1], now));
                assert(old(self).tasks@.skip(i as int - 1).drop_first() =~= old(
                    self,
                ).tasks@.skip(i as int));
                assert(old(self).tasks@.skip(i as int - 1)[0] == old(self).tasks@[i - 1]);
            }
            if expire {
                self.tasks.remove(i - 1);
                proof {
                    assert(self.tasks@ =~= old(self).tasks@.subrange(0, i as int - 1) + surviving(
                        old(self).tasks@.skip(i as int - 1),
                        now,
                    ));
                }
            } else {
                proof {
                    assert(self.tasks@ =~= old(self).tasks@.subrange(0, i as int - 1) + surviving(
                        old(self).tasks@.skip(i as int - 1),
                        now,
                    ));
                }
            }
            i = i - 1;
        }
        proof {
            assert(old(self).tasks@.skip(0) =~= old(self).tasks@);
            assert(old(self).tasks@.subrange(0, 0) + surviving(old(self).tasks@, now) =~= surviving(
                old(self).tasks@,
                now,
            ));
        }
    }
}

/// The shared, clonable server state: everything lives behind one inner
/// value.
pub struct ApiState {
    /// The state all request handlers share.
    pub inner: ApiStateInner,
}

impl ApiState {
    /// Fresh server state with the given bearer token and projects root.
    pub fn new(api_token: String, projects_dir: String) -> (r: ApiState)
        ensures
            r.inner.wf(),
            r.inner.api_token == api_token,
            r.inner.projects_dir == projects_dir,
            r.inner.tasks@.len() == 0,
            r.inner.current_id == 0,
            r.inner.connection_manager.connections@.len() == 0,
            r.inner.projects.projects@.len() == 0,
    {
        ApiState { inner: ApiStateInner::new(api_token, projects_dir) }
    }

    /// Whether a presented bearer token matches the configured one.
    pub fn api_token_valid(&self, api_token: &String) -> (r: bool)
        ensures
            r == (self.inner.api_token@ == api_token@),
    {
        self.inner.api_token_valid(api_token)
    }
}

/// In a record sequence with pairwise distinct identities, the index holding
/// a given identity is the only one, and `find_task` returns it.
proof fn lemma_task_index_unique(tasks: Seq<TaskRecord>, id: u64, i: int)
    requires
        forall|p: int, q: int|
            0 <= p < q < tasks.len() ==> (#[trigger] tasks[p]).id != (#[trigger] tasks[q]).id,
        0 <= i < tasks.len(),
        tasks[i].id == id,
    ensures
        forall|j: int| 0 <= j < tasks.len() && (#[trigger] tasks[j]).id == id ==> j == i,
        find_task(tasks, id) == Some(i),
{
    assert forall|j: int| 0 <= j < tasks.len() && (#[trigger] tasks[j]).id == id implies j == i by {
        if j < i {
            assert(tasks[j].id != tasks[i].id);
        } else if j > i {
            assert(tasks[i].id != tasks[j].id);
        }
    }
}

/// No two task identities issued while concurrently live are equal: in a
/// well-formed store any two distinct records carry distinct identities.
pub proof fn lemma_live_task_ids_unique(s: ApiStateInner, i: int, j: int)
    requires
        s.wf(),
        0 <= i < s.tasks@.len(),
        0 <= j < s.tasks@.len(),
        i != j,
    ensures
        s.tasks@[i].id != s.tasks@[j].id,
{
}

/// `status` and `cancel` on an unknown id and on a known id with the wrong
/// owner are indistinguishable: both lookups come out `None`, so both
/// requests answer not found and leave the store unchanged.
pub proof fn lemma_unknown_and_wrong_owner_indistinguishable(
    tasks: Seq<TaskRecord>,
    unknown_id: u64,
    owner1: Seq<char>,
    known_id: u64,
    owner2: Seq<char>,
)
    requires
        find_task(tasks, unknown_id) is None,
        (match find_task(tasks, known_id) {
            Some(k) => tasks[k].chat_id@ != owner2,
            None => true,
        }),
    ensures
        spec_lookup(tasks, unknown_id, owner1) is None,
        spec_lookup(tasks, known_id, owner2) is None,
        spec_lookup(tasks, unknown_id, owner1) == spec_lookup(tasks, known_id, owner2),
{
}

/// A task record is present as long as its retention window has not passed —
/// up to and including the instant (terminal moment + retention delay) — and
/// absent from the surviving records at any later instant.
pub proof fn lemma_eviction_boundary(tasks: Seq<TaskRecord>, now: u64, i: int)
    requires
        0 <= i < tasks.len(),
    ensures
        !expired(tasks[i], now) ==> surviving(tasks, now).contains(tasks[i]),
        expired(tasks[i], now) ==> !surviving(tasks, now).contains(tasks[i]),
    decreases tasks.len(),
{
    lemma_surviving_not_expired(tasks, now);
    if expired(tasks[i], now) {
        if surviving(tasks, now).contains(tasks[i]) {
            let j = choose|j: int|
                0 <= j < surviving(tasks, now).len() && surviving(tasks, now)[j] == tasks[i];
            assert(!expired(surviving(tasks, now)[j], now));
        }
    } else if tasks.len() > 0 {
        if i == 0 {
            assert(surviving(tasks, now)[0] == tasks[0]);
        } else {
            lemma_eviction_boundary(tasks.drop_first(), now, i - 1);
            assert(tasks.drop_first()[i - 1] == tasks[i]);
            let sub = surviving(tasks.drop_first(), now);
            let j = choose|j: int| 0 <= j < sub.len() && sub[j] == tasks[i];
            if expired(tasks[0], now) {
                assert(surviving(tasks, now)[j] == tasks[i]);
            } else {
                assert(surviving(tasks, now)[j + 1] == tasks[i]);
            }
        }
    }
}

/// Every record that survives eviction is within its retention window.
pub proof fn lemma_surviving_not_expired(tasks: Seq<TaskRecord>, now: u64)
    ensures
        forall|j: int|
            0 <= j < surviving(tasks, now).len() ==> !expired(
                #[trigger] surviving(tasks, now)[j],
                now,
            ),
    decreases tasks.len(),
{
    if tasks.len() > 0 {
        lemma_surviving_not_expired(tasks.drop_first(), now);
        assert forall|j: int|
            0 <= j < surviving(tasks, now).len() implies !expired(
            #[trigger] surviving(tasks, now)[j],
            now,
        ) by {
            if !expired(tasks[0], now) && j > 0 {
                assert(surviving(tasks, now)[j] == surviving(tasks.drop_first(), now)[j - 1]);
            } else if expired(tasks[0], now) {
                assert(surviving(tasks, now)[j] == surviving(tasks.drop_first(), now)[j]);
            }
        }
    }
}

} // verus!
