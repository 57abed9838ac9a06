use vstd::prelude::*;

verus! {

/// How a session's shell is started.
#[derive(Clone, Debug)]
pub struct PtyConfig {
    pub shell: String,
    pub args: Vec<String>,
    pub env_vars: Vec<(String, String)>,
    pub working_dir: String,
    pub rows: u16,
    pub cols: u16,
}

impl PtyConfig {
    /// The configuration of a session for which nothing was chosen: the
    /// user's shell `shell`, or the platform's shell where there is none;
    /// the directory `current_dir`, or the root where there is none; no
    /// arguments; `TERM` and `COLORTERM` set; 24 rows of 80 columns.
    pub fn with_defaults(shell: Option<String>, current_dir: Option<String>, windows: bool) -> (c:
        PtyConfig)
        ensures
            c.shell@ == (match shell {
                Some(s) => if windows {
                    "cmd.exe"@
                } else {
                    s@
                },
                None => if windows {
                    "cmd.exe"@
                } else {
                    "/bin/bash"@
                },
            }),
            c.working_dir@ == (match current_dir {
                Some(d) => d@,
                None => "/"@,
            }),
            c.args@.len() == 0,
            c.env_vars@.len() == 2,
            c.env_vars@[0].0@ == "TERM"@,
            c.env_vars@[0].1@ == "xterm-256color"@,
            c.env_vars@[1].0@ == "COLORTERM"@,
            c.env_vars@[1].1@ == "truecolor"@,
            c.rows == 24,
            c.cols == 80,
    {
        let shell_path: String = if windows {
            "cmd.exe".to_owned()
        } else {
            match shell {
                Some(s) => s,
                None => "/bin/bash".to_owned(),
            }
        };
        let dir: String = match current_dir {
            Some(d) => d,
            None => "/".to_owned(),
        };
        let mut env_vars: Vec<(String, String)> = Vec::new();
        env_vars.push(("TERM".to_owned(), "xterm-256color".to_owned()));
        env_vars.push(("COLORTERM".to_owned(), "truecolor".to_owned()));
        PtyConfig { shell: shell_path, args: Vec::new(), env_vars, working_dir: dir, rows: 24, cols: 80 }
    }
}

/// Why an operation on a session failed.
#[derive(Clone, Copy, Debug, PartialEq, Eq, Structural)]
pub enum PtyError {
    /// The pseudo-terminal could not be opened or the shell not started.
    SpawnFailed,
    /// There is no session with that id.
    NoSuchSession,
    /// The operating system refused the new size.
    ResizeFailed,
    /// Every id was given out.
    IdsExhausted,
}

/// What the manager knows of one session.
pub struct SessionRecord {
    pub id: u32,
    pub config: PtyConfig,
    pub running: bool,
}

/// The index of the session `id` among `sessions[from..]`, if it is there.
pub open spec fn session_index(sessions: Seq<SessionRecord>, id: u32, from: int) -> Option<int>
    decreases sessions.len() - from,
{
    if from < 0 || from >= sessions.len() {
        None
    } else if sessions[from].id == id {
        Some(from)
    } else {
        session_index(sessions, id, from + 1)
    }
}

/// The sessions of `sessions` whose child still runs, in order.
pub open spec fn running_only(sessions: Seq<SessionRecord>) -> Seq<SessionRecord>
    decreases sessions.len(),
{
    if sessions.len() == 0 {
        Seq::empty()
    } else if sessions.last().running {
        running_only(sessions.drop_last()).push(sessions.last())
    } else {
        running_only(sessions.drop_last())
    }
}

/// The ids of the sessions of `sessions` whose child has exited, in order.
pub open spec fn exited_ids(sessions: Seq<SessionRecord>) -> Seq<u32>
    decreases sessions.len(),
{
    if sessions.len() == 0 {
        Seq::empty()
    } else if sessions.last().running {
        exited_ids(sessions.drop_last())
    } else {
        exited_ids(sessions.drop_last()).push(sessions.last().id)
    }
}

/// The ids rise along `sessions`, and all lie below `bound`.
pub open spec fn ids_rise(sessions: Seq<SessionRecord>, bound: int) -> bool {
    &&& forall|i: int, j: int| 0 <= i < j < sessions.len() ==> sessions[i].id < sessions[j].id
    &&& forall|i: int| 0 <= i < sessions.len() ==> sessions[i].id < bound
}

/// Dropping the sessions that have exited keeps the ids rising.
pub proof fn lemma_running_only_rises(sessions: Seq<SessionRecord>, bound: int)
    requires
        ids_rise(sessions, bound),
    ensures
        ids_rise(running_only(sessions), bound),
    decreases sessions.len(),
{
    if sessions.len() > 0 {
        let rest = sessions.drop_last();
        let last = sessions.last();
        assert(ids_rise(rest, last.id as int)) by {
            assert forall|i: int| 0 <= i < rest.len() implies rest[i].id < last.id by {
                assert(rest[i] == sessions[i]);
                assert(last == sessions[sessions.len() - 1]);
            }
            assert forall|i: int, j: int| 0 <= i < j < rest.len() implies rest[i].id < rest[j].id by {
                assert(rest[i] == sessions[i] && rest[j] == sessions[j]);
            }
        }
        lemma_running_only_rises(rest, last.id as int);
    }
}

/// The id that the next session gets is the id of no registered session:
/// ids rise, and a removed session's id lies below the next one, so no id
/// is given out twice.
pub proof fn law_next_id_is_fresh(sessions: Seq<SessionRecord>, next_id: u32)
    requires
        ids_rise(sessions, next_id as int),
    ensures
        session_index(sessions, next_id, 0) is None,
        forall|id: u32| id >= next_id ==> session_index(sessions, id, 0) is None,
{
    assert forall|id: u32| id >= next_id implies session_index(sessions, id, 0) is None by {
        lemma_no_session_from(sessions, id, 0);
    }
}

/// A session id that no session of `sessions[from..]` has is not found
/// there.
proof fn lemma_no_session_from(sessions: Seq<SessionRecord>, id: u32, from: int)
    requires
        0 <= from,
        forall|i: int| from <= i < sessions.len() ==> sessions[i].id != id,
    ensures
        session_index(sessions, id, from) is None,
    decreases sessions.len() - from,
{
    if from < sessions.len() {
        lemma_no_session_from(sessions, id, from + 1);
    }
}

/// The state of a session manager as a mathematical value.
pub struct Registry {
    pub sessions: Seq<SessionRecord>,
    pub next_id: u32,
}

impl Registry {
    /// The session `id`, if it is registered.
    pub open spec fn session(self, id: u32) -> Option<SessionRecord> {
        match session_index(self.sessions, id, 0) {
            Some(i) => Some(self.sessions[i]),
            None => None,
        }
    }

    /// The registry without the session `id`.
    pub open spec fn without(self, id: u32) -> Registry {
        Registry {
            sessions: match session_index(self.sessions, id, 0) {
                Some(i) => self.sessions.remove(i),
                None => self.sessions,
            },
            ..self
        }
    }

    /// The registry with the session at index `i` replaced by `record`.
    pub open spec fn with_record(self, i: int, record: SessionRecord) -> Registry {
        Registry { sessions: self.sessions.update(i, record), ..self }
    }
}

/// The registry of sessions: which ids are in use, how each session was
/// configured, and whether its child still runs. Ids rise from zero and are
/// never given out twice.
pub struct PtyManager {
    pub(crate) sessions: Vec<SessionRecord>,
    pub(crate) next_id: u32,
}

impl PtyManager {
    /// The state of this manager as a mathematical value.
    pub open(crate) spec fn view(&self) -> Registry {
        Registry { sessions: self.sessions@, next_id: self.next_id }
    }

    /// The ids of the sessions rise and lie below the next id.
    pub open spec fn wf(&self) -> bool {
        ids_rise(self@.sessions, self@.next_id as int)
    }

    /// A manager without sessions.
    pub fn new() -> (m: PtyManager)
        ensures
            m.wf(),
            m@ == (Registry { sessions: Seq::empty(), next_id: 0 }),
    {
        PtyManager { sessions: Vec::new(), next_id: 0 }
    }

    /// The index of the session `id`; the number of sessions where there
    /// is none.
    fn find(&self, id: u32) -> (at: usize)
        ensures
            at <= self@.sessions.len(),
            at < self@.sessions.len() ==> session_index(self@.sessions, id, 0) == Some(at as int)
                && self@.sessions[at as int].id == id,
            at == self@.sessions.len() ==> session_index(self@.sessions, id, 0) is None,
    {
        let mut i: usize = 0;
        while i < self.sessions.len()
            invariant
                i <= self.sessions@.len(),
                session_index(self@.sessions, id, 0) == session_index(self@.sessions, id, i as int),
            decreases self.sessions@.len() - i,
        {
            if self.sessions[i].id == id {
                return i;
            }
            i += 1;
        }
        i
    }

    /// Registers a session with the configuration `config`. `spawned`
    /// says whether its pseudo-terminal was opened and its shell started:
    /// where it was not, or no id is left, nothing is registered and the
    /// error says which. Returns the new session's id.
    pub fn create_session(&mut self, config: PtyConfig, spawned: bool) -> (r: Result<u32, PtyError>)
        requires
            old(self).wf(),
        ensures
            final(self).wf(),
            !spawned ==> r == Err::<u32, PtyError>(PtyError::SpawnFailed) && final(self)@ == old(
                self,
            )@,
            spawned && old(self)@.next_id == u32::MAX ==> r == Err::<u32, PtyError>(
                PtyError::IdsExhausted,
            ) && final(self)@ == old(self)@,
            spawned && old(self)@.next_id < u32::MAX ==> r == Ok::<u32, PtyError>(old(self)@.next_id)
                && final(self)@ == (Registry {
                sessions: old(self)@.sessions.push(
                    SessionRecord { id: old(self)@.next_id, config, running: true },
                ),
                next_id: (old(self)@.next_id + 1) as u32,
            }),
    {
        if !spawned {
            return Err(PtyError::SpawnFailed);
        }
        if self.next_id == u32::MAX {
            return Err(PtyError::IdsExhausted);
        }
        let id = self.next_id;
        self.sessions.push(SessionRecord { id, config, running: true });
        self.next_id = id + 1;
        Ok(id)
    }

    /// The session `id`, if it is registered.
    pub fn get_session(&self, id: u32) -> (record: Option<&SessionRecord>)
        ensures
            match record {
                Some(s) => self@.session(id) == Some(*s),
                None => self@.session(id) is None,
            },
    {
        let at = self.find(id);
        if at < self.sessions.len() {
            Some(&self.sessions[at])
        } else {
            None
        }
    }

    /// Removes the session `id`. Returns what was known of it, if it was
    /// registered.
    pub fn remove_session(&mut self, id: u32) -> (record: Option<SessionRecord>)
        requires
            old(self).wf(),
        ensures
            final(self).wf(),
            final(self)@ == old(self)@.without(id),
            record == old(self)@.session(id),
    {
        let at = self.find(id);
        if at < self.sessions.len() {
            let ghost before = self@.sessions;
            let record = self.sessions.remove(at);
            proof {
                let after = self@.sessions;
                assert forall|i: int, j: int| 0 <= i < j < after.len() implies after[i].id
                    < after[j].id by {
                    let i0 = if i < at { i } else { i + 1 };
                    let j0 = if j < at { j } else { j + 1 };
                    assert(after[i] == before[i0] && after[j] == before[j0]);
                }
                assert forall|i: int| 0 <= i < after.len() implies after[i].id < self.next_id by {
                    let i0 = if i < at { i } else { i + 1 };
                    assert(after[i] == before[i0]);
                }
            }
            Some(record)
        } else {
            None
        }
    }

    /// The ids of the registered sessions, rising.
    pub fn list_sessions(&self) -> (ids: Vec<u32>)
        ensures
            ids@.len() == self@.sessions.len(),
            forall|i: int| 0 <= i < ids@.len() ==> ids@[i] == self@.sessions[i].id,
    {
        let mut ids: Vec<u32> = Vec::new();
        let mut i: usize = 0;
        while i < self.sessions.len()
            invariant
                i <= self.sessions@.len(),
                ids@.len() == i,
                forall|j: int| 0 <= j < i ==> ids@[j] == self.sessions@[j].id,
            decreases self.sessions@.len() - i,
        {
            ids.push(self.sessions[i].id);
            i += 1;
        }
        ids
    }

    /// Whether the session `id` is registered and its child runs.
    pub fn is_alive(&self, id: u32) -> (alive: bool)
        ensures
            alive == (self@.session(id) is Some && self@.session(id)->0.running),
    {
        let at = self.find(id);
        at < self.sessions.len() && self.sessions[at].running
    }

    /// Records that the child of the session `id` has exited, or was
    /// killed. Returns whether there is such a session.
    pub fn mark_exited(&mut self, id: u32) -> (known: bool)
        requires
            old(self).wf(),
        ensures
            final(self).wf(),
            known == (old(self)@.session(id) is Some),
            match session_index(old(self)@.sessions, id, 0) {
                Some(i) => final(self)@ == old(self)@.with_record(
                    i,
                    SessionRecord { running: false, ..old(self)@.sessions[i] },
                ),
                None => final(self)@ == old(self)@,
            },
    {
        let at = self.find(id);
        if at < self.sessions.len() {
            self.sessions[at].running = false;
            true
        } else {
            false
        }
    }

    /// Records the new size of the session `id`. `applied` says whether
    /// the operating system took the size: where it did not, or there is no
    /// such session, nothing changes and the error says which.
    pub fn resize(&mut self, id: u32, rows: u16, cols: u16, applied: bool) -> (r: Result<(), PtyError>)
        requires
            old(self).wf(),
        ensures
            final(self).wf(),
            match session_index(old(self)@.sessions, id, 0) {
                Some(i) => if applied {
                    r is Ok && final(self)@ == old(self)@.with_record(
                        i,
                        SessionRecord {
                            config: PtyConfig { rows, cols, ..old(self)@.sessions[i].config },
                            ..old(self)@.sessions[i]
                        },
                    )
                } else {
                    r == Err::<(), PtyError>(PtyError::ResizeFailed) && final(self)@ == old(self)@
                },
                None => r == Err::<(), PtyError>(PtyError::NoSuchSession) && final(self)@ == old(
                    self,
                )@,
            },
    {
        let at = self.find(id);
        if at >= self.sessions.len() {
            return Err(PtyError::NoSuchSession);
        }
        if !applied {
            return Err(PtyError::ResizeFailed);
        }
        let ghost before = self@.sessions;
        self.sessions[at].config.rows = rows;
        self.sessions[at].config.cols = cols;
        assert(self.sessions@ =~= before.update(
            at as int,
            SessionRecord {
                config: PtyConfig { rows, cols, ..before[at as int].config },
                ..before[at as int]
            },
        ));
        Ok(())
    }

    /// Removes the sessions whose child has exited. Returns their ids.
    pub fn cleanup_dead_sessions(&mut self) -> (removed: Vec<u32>)
        requires
            old(self).wf(),
        ensures
            final(self).wf(),
            final(self)@ == (Registry { sessions: running_only(old(self)@.sessions), ..old(self)@ }),
            removed@ == exited_ids(old(self)@.sessions),
    {
        let ghost before = self@.sessions;
        let mut removed: Vec<u32> = Vec::new();
        let mut i: usize = 0;
        let ghost mut done: int = 0;
        assert(before.subrange(0, 0) =~= Seq::<SessionRecord>::empty());
        assert(self.sessions@ =~= running_only(before.subrange(0, 0)) + before);
        assert(before.subrange(0, before.len() as int) =~= before);
        while i < self.sessions.len()
            invariant
                0 <= done <= before.len(),
                self.next_id == old(self).next_id,
                i == running_only(before.subrange(0, done)).len(),
                self.sessions@ == running_only(before.subrange(0, done)) + before.subrange(
                    done,
                    before.len() as int,
                ),
                removed@ == exited_ids(before.subrange(0, done)),
            decreases before.len() - done,
        {
            let ghost kept = running_only(before.subrange(0, done));
            let ghost upto = before.subrange(0, done + 1);
            assert(upto.drop_last() =~= before.subrange(0, done));
            assert(upto.last() == before[done]);
            assert(self.sessions@[i as int] == before[done]);
            if self.sessions[i].running {
                i += 1;
            } else {
                let gone = self.sessions.remove(i);
                removed.push(gone.id);
            }
            proof {
                done = done + 1;
                assert(self.sessions@ =~= running_only(before.subrange(0, done)) + before.subrange(
                    done,
                    before.len() as int,
                ));
            }
        }
        proof {
            assert(done == before.len());
            assert(before.subrange(0, done) =~= before);
            assert(self.sessions@ =~= running_only(before));
            lemma_running_only_rises(before, self.next_id as int);
        }
        removed
    }
}

impl Default for PtyManager {
    fn default() -> (m: Self)
        ensures
            m.wf(),
            m@ == (Registry { sessions: Seq::empty(), next_id: 0 }),
    {
        PtyManager::new()
    }
}

/// How one attempt to read from a pseudo-terminal ended.
#[derive(Clone, Copy, Debug, PartialEq, Eq, Structural)]
pub enum ReadOutcome {
    /// So many bytes were read.
    Data(usize),
    /// Nothing is there yet.
    WouldBlock,
    /// The read failed.
    Failed,
}

/// What the reading task of a session does next.
#[derive(Clone, Copy, Debug, PartialEq, Eq, Structural)]
pub enum ReaderAction {
    /// Publish the first so many bytes of the buffer, and read on.
    Publish(usize),
    /// Wait a moment, and read on.
    Wait,
    /// End the task.
    Stop,
}

/// What the reading task does after a read, as a mathematical value: it
/// ends where the session no longer runs, at the end of the output (a read
/// of no bytes) and after a failure; it waits where nothing is there yet;
/// else it publishes what was read.
pub open spec fn reader_step(running: bool, outcome: ReadOutcome) -> ReaderAction {
    if !running {
        ReaderAction::Stop
    } else {
        match outcome {
            ReadOutcome::Data(n) => if n == 0 {
                ReaderAction::Stop
            } else {
                ReaderAction::Publish(n)
            },
            ReadOutcome::WouldBlock => ReaderAction::Wait,
            ReadOutcome::Failed => ReaderAction::Stop,
        }
    }
}

/// What the reading task of a session does after a read. Whether anyone
/// has subscribed plays no part: what is read is published all the same.
pub fn reader_action(running: bool, outcome: ReadOutcome) -> (action: ReaderAction)
    ensures
        action == reader_step(running, outcome),
{
    if !running {
        ReaderAction::Stop
    } else {
        match outcome {
            ReadOutcome::Data(n) => if n == 0 {
                ReaderAction::Stop
            } else {
                ReaderAction::Publish(n)
            },
            ReadOutcome::WouldBlock => ReaderAction::Wait,
            ReadOutcome::Failed => ReaderAction::Stop,
        }
    }
}

} // verus!
