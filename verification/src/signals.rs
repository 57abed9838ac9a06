use vstd::prelude::*;

verus! {

/// A signal that the operating system delivers to the terminal.
#[derive(Clone, Copy, Debug, PartialEq, Eq, Structural)]
pub enum SignalEvent {
    /// The user pressed the interrupt key.
    Interrupt,
    /// The process was asked to terminate.
    Terminate,
    /// The controlling terminal hung up.
    Hangup,
    /// The user pressed the quit key.
    Quit,
    /// The window changed its size.
    WindowChange,
}

/// What the terminal was asked to do by signals, and has not done yet.
/// There is one handler: it cannot be copied, so that what one task
/// records of a signal is what every other task reads. Tasks share it by
/// holding the one value behind a lock.
#[derive(Debug, PartialEq, Eq, Structural)]
pub struct SignalHandler {
    pub shutdown_requested: bool,
    pub resize_requested: bool,
}

impl SignalHandler {
    /// A handler with nothing asked.
    pub fn new() -> (h: SignalHandler)
        ensures
            h == (SignalHandler { shutdown_requested: false, resize_requested: false }),
    {
        SignalHandler { shutdown_requested: false, resize_requested: false }
    }

    /// The handler after the signal `event`: a window change asks for a
    /// resize, every other signal for a shutdown.
    pub open spec fn after(self, event: SignalEvent) -> SignalHandler {
        SignalHandler {
            shutdown_requested: self.shutdown_requested || event != SignalEvent::WindowChange,
            resize_requested: self.resize_requested || event == SignalEvent::WindowChange,
        }
    }

    /// Records the signal `event`.
    pub fn on_signal(&mut self, event: SignalEvent)
        ensures
            *final(self) == old(self).after(event),
    {
        match event {
            SignalEvent::WindowChange => {
                self.resize_requested = true;
            },
            _ => {
                self.shutdown_requested = true;
            },
        }
    }

    /// Whether a shutdown was asked for.
    pub fn is_shutdown_requested(&self) -> (r: bool)
        ensures
            r == self.shutdown_requested,
    {
        self.shutdown_requested
    }

    /// Whether a resize was asked for and not yet cleared.
    pub fn is_resize_requested(&self) -> (r: bool)
        ensures
            r == self.resize_requested,
    {
        self.resize_requested
    }

    /// Marks the resize as done.
    pub fn clear_resize_request(&mut self)
        ensures
            *final(self) == (SignalHandler { resize_requested: false, ..*old(self) }),
    {
        self.resize_requested = false;
    }

    /// Asks for a shutdown.
    pub fn request_shutdown(&mut self)
        ensures
            *final(self) == (SignalHandler { shutdown_requested: true, ..*old(self) }),
    {
        self.shutdown_requested = true;
    }
}

impl Default for SignalHandler {
    fn default() -> (h: Self)
        ensures
            h == (SignalHandler { shutdown_requested: false, resize_requested: false }),
    {
        SignalHandler::new()
    }
}

/// Process groups as a mathematical value: group ids with the ids of
/// their processes, in the order in which the groups were first used.
pub type Groups = Seq<(i32, Seq<i32>)>;

/// The groups of `groups` as mathematical values.
pub open spec fn groups_view(groups: Vec<(i32, Vec<i32>)>) -> Groups {
    Seq::new(groups@.len(), |i: int| (groups@[i].0, groups@[i].1@))
}

/// The index of the group `id` among `groups[from..]`, if it is there.
pub open spec fn group_index(groups: Groups, id: i32, from: int) -> Option<int>
    decreases groups.len() - from,
{
    if from < 0 || from >= groups.len() {
        None
    } else if groups[from].0 == id {
        Some(from)
    } else {
        group_index(groups, id, from + 1)
    }
}

/// The processes of the group `id`, if there is such a group.
pub open spec fn group_processes(groups: Groups, id: i32) -> Option<Seq<i32>> {
    match group_index(groups, id, 0) {
        Some(i) => Some(groups[i].1),
        None => None,
    }
}

/// The processes of `pids` that are not `pid`, in order.
pub open spec fn pids_without(pids: Seq<i32>, pid: i32) -> Seq<i32>
    decreases pids.len(),
{
    if pids.len() == 0 {
        Seq::empty()
    } else if pids.last() == pid {
        pids_without(pids.drop_last(), pid)
    } else {
        pids_without(pids.drop_last(), pid).push(pids.last())
    }
}

/// `groups` after the process `pid` joined the group `id`: at the end of
/// the group, which is new and last where it was not there.
pub open spec fn groups_with(groups: Groups, id: i32, pid: i32) -> Groups {
    match group_index(groups, id, 0) {
        Some(i) => groups.update(i, (id, groups[i].1.push(pid))),
        None => groups.push((id, seq![pid])),
    }
}

/// `groups` after the process `pid` left the group `id`; a group that
/// no process is left in is gone.
pub open spec fn groups_without(groups: Groups, id: i32, pid: i32) -> Groups {
    match group_index(groups, id, 0) {
        Some(i) => if pids_without(groups[i].1, pid).len() == 0 {
            groups.remove(i)
        } else {
            groups.update(i, (id, pids_without(groups[i].1, pid)))
        },
        None => groups,
    }
}

/// `groups` without the group `id`.
pub open spec fn groups_less(groups: Groups, id: i32) -> Groups {
    match group_index(groups, id, 0) {
        Some(i) => groups.remove(i),
        None => groups,
    }
}

/// The processes of `pids` that are not `pid`, computed.
fn drop_pid(pids: &Vec<i32>, pid: i32) -> (kept: Vec<i32>)
    ensures
        kept@ == pids_without(pids@, pid),
{
    let mut kept: Vec<i32> = Vec::new();
    let mut i: usize = 0;
    assert(pids@.subrange(0, 0) =~= Seq::<i32>::empty());
    while i < pids.len()
        invariant
            i <= pids@.len(),
            kept@ == pids_without(pids@.subrange(0, i as int), pid),
        decreases pids@.len() - i,
    {
        assert(pids@.subrange(0, i + 1).drop_last() =~= pids@.subrange(0, i as int));
        if pids[i] != pid {
            kept.push(pids[i]);
        }
        i += 1;
    }
    assert(pids@.subrange(0, pids@.len() as int) =~= pids@);
    kept
}

/// Which processes belong to which group, for signals that go to a
/// whole group.
pub struct ProcessManager {
    pub(crate) process_groups: Vec<(i32, Vec<i32>)>,
}

impl ProcessManager {
    /// The groups as a mathematical value.
    pub open(crate) spec fn view(&self) -> Groups {
        groups_view(self.process_groups)
    }

    /// A manager without groups.
    pub fn new() -> (m: ProcessManager)
        ensures
            m@ == Seq::<(i32, Seq<i32>)>::empty(),
    {
        let m = ProcessManager { process_groups: Vec::new() };
        assert(m@ =~= Seq::<(i32, Seq<i32>)>::empty());
        m
    }

    /// The index of the group `id`; the number of groups where there is
    /// none.
    fn find(&self, id: i32) -> (at: usize)
        ensures
            at <= self@.len(),
            at < self@.len() ==> group_index(self@, id, 0) == Some(at as int) && self@[at as int].0
                == id,
            at == self@.len() ==> group_index(self@, id, 0) is None,
    {
        let mut i: usize = 0;
        while i < self.process_groups.len()
            invariant
                i <= self.process_groups@.len(),
                group_index(self@, id, 0) == group_index(self@, id, i as int),
            decreases self.process_groups@.len() - i,
        {
            if self.process_groups[i].0 == id {
                return i;
            }
            i += 1;
        }
        i
    }

    /// Puts the process `pid` into the group `group_id`.
    pub fn add_process_to_group(&mut self, group_id: i32, pid: i32)
        ensures
            final(self)@ == groups_with(old(self)@, group_id, pid),
    {
        let ghost before = self@;
        let at = self.find(group_id);
        if at < self.process_groups.len() {
            self.process_groups[at].1.push(pid);
            assert(self@ =~= before.update(at as int, (group_id, before[at as int].1.push(pid))));
        } else {
            let mut pids: Vec<i32> = Vec::new();
            pids.push(pid);
            assert(pids@ =~= seq![pid]);
            self.process_groups.push((group_id, pids));
            assert(self@ =~= before.push((group_id, seq![pid])));
        }
    }

    /// Takes the process `pid` out of the group `group_id`, and removes
    /// the group where no process is left in it.
    pub fn remove_process_from_group(&mut self, group_id: i32, pid: i32)
        ensures
            final(self)@ == groups_without(old(self)@, group_id, pid),
    {
        let ghost before = self@;
        let at = self.find(group_id);
        if at < self.process_groups.len() {
            let kept = drop_pid(&self.process_groups[at].1, pid);
            if kept.len() == 0 {
                self.process_groups.remove(at);
                assert(self@ =~= before.remove(at as int));
            } else {
                self.process_groups[at] = (group_id, kept);
                assert(self@ =~= before.update(at as int, (group_id, kept@)));
            }
        }
    }

    /// The ids of the groups, in the order in which they were first used.
    pub fn list_groups(&self) -> (ids: Vec<i32>)
        ensures
            ids@.len() == self@.len(),
            forall|i: int| 0 <= i < ids@.len() ==> ids@[i] == self@[i].0,
    {
        let mut ids: Vec<i32> = Vec::new();
        let mut i: usize = 0;
        while i < self.process_groups.len()
            invariant
                i <= self.process_groups@.len(),
                ids@.len() == i,
                forall|j: int| 0 <= j < i ==> ids@[j] == self.process_groups@[j].0,
            decreases self.process_groups@.len() - i,
        {
            ids.push(self.process_groups[i].0);
            i += 1;
        }
        ids
    }

    /// The processes of the group `group_id`, if there is such a group.
    pub fn get_group_processes(&self, group_id: i32) -> (pids: Option<&Vec<i32>>)
        ensures
            match pids {
                Some(p) => group_processes(self@, group_id) == Some(p@),
                None => group_processes(self@, group_id) is None,
            },
    {
        let at = self.find(group_id);
        if at < self.process_groups.len() {
            Some(&self.process_groups[at].1)
        } else {
            None
        }
    }

    /// Forgets the group `group_id`, as after its processes were
    /// terminated. Returns the processes it had, if there was such a group.
    pub fn remove_group(&mut self, group_id: i32) -> (pids: Option<Vec<i32>>)
        ensures
            final(self)@ == groups_less(old(self)@, group_id),
            match pids {
                Some(p) => group_processes(old(self)@, group_id) == Some(p@),
                None => group_processes(old(self)@, group_id) is None,
            },
    {
        let ghost before = self@;
        let at = self.find(group_id);
        if at < self.process_groups.len() {
            let group = self.process_groups.remove(at);
            assert(self@ =~= before.remove(at as int));
            Some(group.1)
        } else {
            None
        }
    }
}

impl Default for ProcessManager {
    fn default() -> (m: Self)
        ensures
            m@ == Seq::<(i32, Seq<i32>)>::empty(),
    {
        ProcessManager::new()
    }
}

} // verus!
