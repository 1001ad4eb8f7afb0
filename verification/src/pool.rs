//! The daemon's table of started processes. Each slot holds the handle of
//! a running process together with the buffer of its output; a stopped
//! process leaves an empty slot behind, so process ids are never reused.
use crate::log_buffer::{ClientId, LogBuffer, LogView};
use vstd::prelude::*;

verus! {

/// The abstract state of a [`Pool`]: one entry per process id, `None` for a
/// stopped process, otherwise its handle and the state of its output buffer.
pub type Slots<H> = Seq<Option<(H, LogView)>>;

/// Whether process `pid` is present and running.
pub open spec fn is_running<H>(s: Slots<H>, pid: int) -> bool {
    0 <= pid < s.len() && s[pid] is Some
}

/// The output buffer of running process `pid`.
pub open spec fn log_of<H>(s: Slots<H>, pid: int) -> LogView {
    (s[pid]->0).1
}

/// The handle of running process `pid`.
pub open spec fn handle_of<H>(s: Slots<H>, pid: int) -> H {
    (s[pid]->0).0
}

/// The number of running processes.
pub open spec fn running_count<H>(s: Slots<H>) -> nat
    decreases s.len(),
{
    if s.len() == 0 {
        0
    } else {
        running_count(s.drop_last()) + (if s.last() is Some {
            1nat
        } else {
            0nat
        })
    }
}

/// Every output buffer in the pool is well-formed.
pub open spec fn slots_wf<H>(s: Slots<H>) -> bool {
    forall|pid: int| #[trigger] is_running(s, pid) ==> log_of(s, pid).wf()
}

/// Never more processes run than were ever added.
pub proof fn lemma_running_count_bounded<H>(s: Slots<H>)
    ensures
        running_count(s) <= s.len(),
    decreases s.len(),
{
    if s.len() > 0 {
        lemma_running_count_bounded(s.drop_last());
    }
}

/// Replacing one slot changes the number of running processes by the
/// difference between the old and the new slot.
pub proof fn lemma_running_count_update<H>(s: Slots<H>, pid: int, v: Option<(H, LogView)>)
    requires
        0 <= pid < s.len(),
    ensures
        running_count(s.update(pid, v)) == running_count(s) - (if s[pid] is Some {
            1int
        } else {
            0int
        }) + (if v is Some {
            1int
        } else {
            0int
        }),
    decreases s.len(),
{
    let t = s.update(pid, v);
    if pid < s.len() - 1 {
        assert(t.drop_last() =~= s.drop_last().update(pid, v));
        lemma_running_count_update(s.drop_last(), pid, v);
    } else {
        assert(t.drop_last() =~= s.drop_last());
    }
}

/// Adding a process makes one more process run; stopping a running one
/// makes one fewer run.
pub proof fn lemma_add_and_stop_count<H>(s: Slots<H>, child: H, pid: int)
    ensures
        running_count(s.push(Some((child, LogView::empty())))) == running_count(s) + 1,
        is_running(s, pid) ==> running_count(s.update(pid, None)) == running_count(s) - 1,
{
    assert(s.push(Some((child, LogView::empty()))).drop_last() =~= s);
    if is_running(s, pid) {
        lemma_running_count_update(s, pid, None);
    }
}

/// A stopped process stays stopped: after a stop, the process no longer
/// runs (so neither its log nor a second stop finds it), while every other
/// process id keeps its slot.
pub proof fn lemma_stopped_stays_stopped<H>(s: Slots<H>, pid: int, other: int)
    requires
        0 <= pid < s.len(),
        other != pid,
    ensures
        !is_running(s.update(pid, None), pid),
        s.update(pid, None).len() == s.len(),
        is_running(s.update(pid, None), other) == is_running(s, other),
        is_running(s, other) ==> s.update(pid, None)[other] == s[other],
{
}

/// A line written to a running process is handed out to each of its
/// clients at their next read, after the lines they had not read yet.
pub proof fn lemma_written_line_reaches_clients<H>(s: Slots<H>, pid: int, line: String, cid: u128)
    requires
        slots_wf(s),
        is_running(s, pid),
        log_of(s, pid).lines.len() < usize::MAX,
        log_of(s, pid).is_client(cid),
    ensures
        ({
            let t = s.update(pid, Some((handle_of(s, pid), log_of(s, pid).written(line))));
            log_of(t, pid).unread(cid) == log_of(s, pid).unread(cid).push(line)
        }),
{
    crate::log_buffer::lemma_write_reaches_every_client(log_of(s, pid), line, cid);
}

proof fn lemma_update_keeps_wf<H>(s: Slots<H>, pid: int, v: Option<(H, LogView)>)
    requires
        slots_wf(s),
        0 <= pid < s.len(),
        v matches Some(p) ==> p.1.wf(),
    ensures
        slots_wf(s.update(pid, v)),
{
    assert forall|q: int| #[trigger] is_running(s.update(pid, v), q) implies log_of(
        s.update(pid, v),
        q,
    ).wf() by {
        if q != pid {
            assert(is_running(s, q));
        }
    }
}

struct Process<H> {
    child: H,
    log_buffer: LogBuffer,
}

/// What [`Pool::stop`] found.
#[derive(Debug, PartialEq, Eq)]
pub enum StopOutcome<H> {
    /// The process was running; here is its handle.
    Stopped(H),
    /// The process had been stopped before.
    AlreadyStopped,
    /// No process was ever given this id.
    Unknown,
}

/// A pool of processes with their output buffers.
pub struct Pool<H> {
    processes: Vec<Option<Process<H>>>,
}

spec fn slot_view<H>(p: Option<Process<H>>) -> Option<(H, LogView)> {
    match p {
        Some(p) => Some((p.child, p.log_buffer@)),
        None => None,
    }
}

impl<H> View for Pool<H> {
    type V = Slots<H>;

    closed spec fn view(&self) -> Slots<H> {
        self.processes@.map_values(|p: Option<Process<H>>| slot_view(p))
    }
}

impl<H> Pool<H> {
    /// An empty pool.
    pub fn new() -> (pool: Self)
        ensures
            pool@ == Seq::<Option<(H, LogView)>>::empty(),
            slots_wf(pool@),
    {
        let pool = Pool { processes: Vec::new() };
        assert(pool@ =~= Seq::<Option<(H, LogView)>>::empty());
        pool
    }

    /// Adds a started process with an empty output buffer and returns its
    /// process id, which is the number of processes added before it.
    pub fn add(&mut self, child: H) -> (pid: usize)
        requires
            slots_wf(old(self)@),
        ensures
            pid == old(self)@.len(),
            final(self)@ == old(self)@.push(Some((child, LogView::empty()))),
            slots_wf(final(self)@),
    {
        let pid: usize = self.processes.len();
        let log_buffer = LogBuffer::new();
        self.processes.push(Some(Process { child, log_buffer }));
        assert(self@ =~= old(self)@.push(Some((child, LogView::empty()))));
        assert forall|q: int| #[trigger] is_running(self@, q) implies log_of(self@, q).wf() by {
            if q < pid {
                assert(is_running(old(self)@, q));
            }
        }
        pid
    }

    /// Appends a line of output to process `pid`. Returns whether the
    /// process was running; a line for a stopped or unknown process is
    /// dropped.
    pub fn write(&mut self, pid: usize, line: String) -> (accepted: bool)
        requires
            slots_wf(old(self)@),
        ensures
            accepted == is_running(old(self)@, pid as int),
            accepted ==> final(self)@ == old(self)@.update(
                pid as int,
                Some((handle_of(old(self)@, pid as int), log_of(old(self)@, pid as int).written(line))),
            ),
            !accepted ==> final(self)@ == old(self)@,
            slots_wf(final(self)@),
    {
        if pid >= self.processes.len() {
            return false;
        }
        let mut slot: Option<Process<H>> = None;
        self.processes.set_and_swap(pid, &mut slot);
        match slot {
            Some(mut process) => {
                assert(is_running(old(self)@, pid as int));
                assert(process.log_buffer@ == log_of(old(self)@, pid as int));
                process.log_buffer.write(line);
                self.processes.set(pid, Some(process));
                proof {
                    lemma_update_keeps_wf(old(self)@, pid as int, slot_view(Some(process)));
                }
                assert(self@ =~= old(self)@.update(
                    pid as int,
                    Some((handle_of(old(self)@, pid as int), log_of(old(self)@, pid as int).written(line))),
                ));
                true
            },
            None => {
                self.processes.set(pid, None);
                assert(self@ =~= old(self)@);
                false
            },
        }
    }

    /// The unread output of process `pid` for client `cid`, or `None` when
    /// the process is stopped or unknown.
    pub fn log(&mut self, pid: usize, cid: ClientId) -> (lines: Option<Vec<String>>)
        requires
            slots_wf(old(self)@),
        ensures
            lines is Some <==> is_running(old(self)@, pid as int),
            lines matches Some(l) ==> l@ == log_of(old(self)@, pid as int).unread(cid.0),
            lines is Some ==> final(self)@ == old(self)@.update(
                pid as int,
                Some((handle_of(old(self)@, pid as int), log_of(old(self)@, pid as int).consumed(cid.0))),
            ),
            lines is None ==> final(self)@ == old(self)@,
            slots_wf(final(self)@),
    {
        if pid >= self.processes.len() {
            return None;
        }
        let mut slot: Option<Process<H>> = None;
        self.processes.set_and_swap(pid, &mut slot);
        match slot {
            Some(mut process) => {
                assert(is_running(old(self)@, pid as int));
                assert(process.log_buffer@ == log_of(old(self)@, pid as int));
                let lines = process.log_buffer.consume_unread(&cid);
                self.processes.set(pid, Some(process));
                proof {
                    lemma_update_keeps_wf(old(self)@, pid as int, slot_view(Some(process)));
                }
                assert(self@ =~= old(self)@.update(
                    pid as int,
                    Some((handle_of(old(self)@, pid as int), log_of(old(self)@, pid as int).consumed(cid.0))),
                ));
                Some(lines)
            },
            None => {
                self.processes.set(pid, None);
                assert(self@ =~= old(self)@);
                None
            },
        }
    }

    /// Stops process `pid`: its slot is emptied and its handle is handed
    /// back so that the caller can end the process. A process that was
    /// already stopped, or an id that was never given out, changes nothing.
    pub fn stop(&mut self, pid: usize) -> (outcome: StopOutcome<H>)
        requires
            slots_wf(old(self)@),
        ensures
            outcome is Stopped <==> is_running(old(self)@, pid as int),
            outcome is AlreadyStopped <==> (pid < old(self)@.len() && old(self)@[pid as int] is None),
            outcome is Unknown <==> pid >= old(self)@.len(),
            outcome matches StopOutcome::Stopped(c) ==> c == handle_of(old(self)@, pid as int)
                && final(self)@ == old(self)@.update(pid as int, None),
            !(outcome is Stopped) ==> final(self)@ == old(self)@,
            slots_wf(final(self)@),
    {
        if pid >= self.processes.len() {
            return StopOutcome::Unknown;
        }
        let mut slot: Option<Process<H>> = None;
        self.processes.set_and_swap(pid, &mut slot);
        match slot {
            Some(process) => {
                proof {
                    lemma_update_keeps_wf(old(self)@, pid as int, None);
                }
                assert(self@ =~= old(self)@.update(pid as int, None));
                StopOutcome::Stopped(process.child)
            },
            None => {
                assert(self@ =~= old(self)@);
                StopOutcome::AlreadyStopped
            },
        }
    }

    /// The number of running processes.
    pub fn len(&self) -> (n: usize)
        ensures
            n == running_count(self@),
    {
        let mut n: usize = 0;
        let mut i: usize = 0;
        while i < self.processes.len()
            invariant
                i <= self.processes@.len(),
                n == running_count(self@.take(i as int)),
                n <= i,
            decreases self.processes@.len() - i,
        {
            assert(self@.take(i + 1).drop_last() =~= self@.take(i as int));
            if self.processes[i].is_some() {
                n = n + 1;
            }
            i = i + 1;
        }
        assert(self@.take(i as int) =~= self@);
        n
    }
}

} // verus!
