use vstd::prelude::*;

use crate::events::{terminal_event, terminal_event_for, Event, EventView, ExitOutcome, ExitOutcomeView};
use crate::git::strings_view;
use crate::registry::Registry;
use vstd::slice::slice_to_vec;

verus! {

/// Why an operation on a session or watched process was refused.
#[derive(Debug, Clone, Copy, PartialEq, Eq, Structural)]
pub enum CoreError {
    /// An entry is already live under the id.
    AlreadyExists,
    /// No live session or process has the id.
    NotFound,
}

/// One live interactive session: its shell's process id, the size its
/// terminal was last given, and the input bytes not yet handed to the child.
pub struct Session {
    pub pid: u32,
    pub rows: u16,
    pub cols: u16,
    pub pending: Vec<u8>,
}

/// Mathematical form of [`Session`].
pub struct SessionView {
    pub pid: u32,
    pub rows: u16,
    pub cols: u16,
    pub pending: Seq<u8>,
}

impl View for Session {
    type V = SessionView;

    open spec fn view(&self) -> SessionView {
        SessionView { pid: self.pid, rows: self.rows, cols: self.cols, pending: self.pending@ }
    }
}

/// Mathematical form of a [`Supervisor`]: the live interactive sessions and
/// the live watched one-shot processes, by id.
pub struct SupervisorView {
    pub sessions: Map<Seq<char>, SessionView>,
    pub processes: Map<Seq<char>, u32>,
}

/// Whether `id` names a live session or watched process.
pub open spec fn is_live(s: SupervisorView, id: Seq<char>) -> bool {
    s.sessions.contains_key(id) || s.processes.contains_key(id)
}

/// The state after a session with a fresh terminal of `rows`×`cols` is registered.
pub open spec fn after_open_session(s: SupervisorView, id: Seq<char>, pid: u32, rows: u16, cols: u16) -> SupervisorView {
    if is_live(s, id) {
        s
    } else {
        SupervisorView {
            sessions: s.sessions.insert(id, SessionView { pid, rows, cols, pending: Seq::empty() }),
            ..s
        }
    }
}

/// The state after a watched process is registered.
pub open spec fn after_track(s: SupervisorView, id: Seq<char>, pid: u32) -> SupervisorView {
    if is_live(s, id) {
        s
    } else {
        SupervisorView { processes: s.processes.insert(id, pid), ..s }
    }
}

/// The state after `data` is written to session `id`: it is queued verbatim
/// behind the input not yet delivered.
pub open spec fn after_write(s: SupervisorView, id: Seq<char>, data: Seq<u8>) -> SupervisorView {
    if s.sessions.contains_key(id) {
        let old = s.sessions[id];
        SupervisorView {
            sessions: s.sessions.insert(id, SessionView { pending: old.pending + data, ..old }),
            ..s
        }
    } else {
        s
    }
}

/// The state after the queued input of session `id` is taken for delivery.
pub open spec fn after_take_input(s: SupervisorView, id: Seq<char>) -> SupervisorView {
    if s.sessions.contains_key(id) {
        let old = s.sessions[id];
        SupervisorView {
            sessions: s.sessions.insert(id, SessionView { pending: Seq::empty(), ..old }),
            ..s
        }
    } else {
        s
    }
}

/// The state after session `id` is given a new terminal size.
pub open spec fn after_resize(s: SupervisorView, id: Seq<char>, rows: u16, cols: u16) -> SupervisorView {
    if s.sessions.contains_key(id) {
        let old = s.sessions[id];
        SupervisorView {
            sessions: s.sessions.insert(id, SessionView { rows, cols, ..old }),
            ..s
        }
    } else {
        s
    }
}

/// The state after the exit of the child of `id` was observed.
pub open spec fn after_finish(s: SupervisorView, id: Seq<char>) -> SupervisorView {
    SupervisorView { sessions: s.sessions.remove(id), processes: s.processes.remove(id) }
}

/// The event that observing the exit of the child of `id` emits: its one
/// terminal event if `id` is still live, and none otherwise.
pub open spec fn finish_event(s: SupervisorView, id: Seq<char>, outcome: ExitOutcomeView) -> Option<EventView> {
    if is_live(s, id) {
        Some(terminal_event(id, outcome))
    } else {
        None
    }
}

/// The process id that a cancel request for `id` terminates, if `id` is live.
pub open spec fn cancel_target(s: SupervisorView, id: Seq<char>) -> Option<u32> {
    if s.sessions.contains_key(id) {
        Some(s.sessions[id].pid)
    } else if s.processes.contains_key(id) {
        Some(s.processes[id])
    } else {
        None
    }
}

/// The tables of live interactive sessions and watched one-shot processes.
///
/// An id is live in at most one of the two tables. Entries are added when a
/// child was started and removed only when its exit is observed.
pub struct Supervisor {
    sessions: Registry<Session>,
    processes: Registry<u32>,
}

impl View for Supervisor {
    type V = SupervisorView;

    closed spec fn view(&self) -> SupervisorView {
        SupervisorView {
            sessions: self.sessions@.map_values(|v: Session| v@),
            processes: self.processes@,
        }
    }
}

impl Supervisor {
    pub closed spec fn wf(&self) -> bool {
        &&& self.sessions.wf()
        &&& self.processes.wf()
        &&& forall|k: Seq<char>| !(#[trigger] self.sessions@.contains_key(k) && #[trigger] self.processes@.contains_key(k))
    }

    /// A supervisor with nothing live.
    pub fn new() -> (r: Self)
        ensures
            r.wf(),
            r@.sessions == Map::<Seq<char>, SessionView>::empty(),
            r@.processes == Map::<Seq<char>, u32>::empty(),
    {
        let r = Supervisor { sessions: Registry::new(), processes: Registry::new() };
        assert(r@.sessions =~= Map::<Seq<char>, SessionView>::empty());
        r
    }

    /// Whether `id` names a live session or watched process.
    pub fn is_live(&self, id: &str) -> (r: bool)
        requires
            self.wf(),
        ensures
            r == is_live(self@, id@),
    {
        self.sessions.contains(id) || self.processes.contains(id)
    }

    /// Registers an interactive session whose shell was started as `pid` on a
    /// terminal of `rows`×`cols`. Refused if `id` is live already.
    pub fn open_session(&mut self, id: String, pid: u32, rows: u16, cols: u16) -> (r: Result<(), CoreError>)
        requires
            old(self).wf(),
        ensures
            final(self).wf(),
            final(self)@ == after_open_session(old(self)@, id@, pid, rows, cols),
            r is Ok <==> !is_live(old(self)@, id@),
            r is Err ==> r == Err::<(), CoreError>(CoreError::AlreadyExists),
            r is Ok ==> is_live(final(self)@, id@),
    {
        if self.is_live(id.as_str()) {
            return Err(CoreError::AlreadyExists);
        }
        let ghost k = id@;
        let session = Session { pid, rows, cols, pending: Vec::new() };
        let _ = self.sessions.register(id, session);
        assert(self@.sessions =~= old(self)@.sessions.insert(k, SessionView { pid, rows, cols, pending: Seq::empty() }));
        Ok(())
    }

    /// The live interactive session `id`, if any; nothing is removed.
    pub fn lookup_session(&self, id: &str) -> (r: Option<&Session>)
        requires
            self.wf(),
        ensures
            r is None <==> !self@.sessions.contains_key(id@),
            r matches Some(s) ==> s@ == self@.sessions[id@],
    {
        self.sessions.lookup(id)
    }

    /// Registers a one-shot process started as `pid` for cancellation.
    /// Refused if `id` is live already.
    pub fn track(&mut self, id: String, pid: u32) -> (r: Result<(), CoreError>)
        requires
            old(self).wf(),
        ensures
            final(self).wf(),
            final(self)@ == after_track(old(self)@, id@, pid),
            r is Ok <==> !is_live(old(self)@, id@),
            r is Err ==> r == Err::<(), CoreError>(CoreError::AlreadyExists),
            r is Ok ==> is_live(final(self)@, id@),
    {
        if self.is_live(id.as_str()) {
            return Err(CoreError::AlreadyExists);
        }
        let _ = self.processes.register(id, pid);
        assert(self@.sessions =~= old(self)@.sessions);
        Ok(())
    }

    /// Queues `data` verbatim as input for session `id`, behind what is
    /// already queued; no line terminator is added.
    pub fn write(&mut self, id: &str, data: &[u8]) -> (r: Result<(), CoreError>)
        requires
            old(self).wf(),
        ensures
            final(self).wf(),
            final(self)@ == after_write(old(self)@, id@, data@),
            r is Ok <==> old(self)@.sessions.contains_key(id@),
            r is Err ==> r == Err::<(), CoreError>(CoreError::NotFound),
    {
        match self.sessions.remove(id) {
            None => {
                assert(self@.sessions =~= old(self)@.sessions);
                Err(CoreError::NotFound)
            },
            Some(mut session) => {
                let mut extra: Vec<u8> = slice_to_vec(data);
                session.pending.append(&mut extra);
                let _ = self.sessions.register(id.to_owned(), session);
                assert(self@.sessions =~= after_write(old(self)@, id@, data@).sessions);
                Ok(())
            }
        }
    }

    /// Takes the input queued for session `id`, in the order it was written,
    /// leaving its queue empty.
    pub fn take_input(&mut self, id: &str) -> (r: Result<Vec<u8>, CoreError>)
        requires
            old(self).wf(),
        ensures
            final(self).wf(),
            final(self)@ == after_take_input(old(self)@, id@),
            r is Err <==> !old(self)@.sessions.contains_key(id@),
            r is Err ==> r == Err::<Vec<u8>, CoreError>(CoreError::NotFound),
            r matches Ok(bytes) ==> bytes@ == old(self)@.sessions[id@].pending,
    {
        match self.sessions.remove(id) {
            None => {
                assert(self@.sessions =~= old(self)@.sessions);
                Err(CoreError::NotFound)
            },
            Some(session) => {
                let Session { pid, rows, cols, pending } = session;
                let _ = self.sessions.register(id.to_owned(), Session { pid, rows, cols, pending: Vec::new() });
                assert(self@.sessions =~= after_take_input(old(self)@, id@).sessions);
                Ok(pending)
            }
        }
    }

    /// Records a new terminal size for session `id`. An unknown id changes
    /// nothing and produces no event.
    pub fn resize(&mut self, id: &str, rows: u16, cols: u16) -> (r: Result<(), CoreError>)
        requires
            old(self).wf(),
        ensures
            final(self).wf(),
            final(self)@ == after_resize(old(self)@, id@, rows, cols),
            r is Ok <==> old(self)@.sessions.contains_key(id@),
            r is Err ==> r == Err::<(), CoreError>(CoreError::NotFound) && final(self)@ == old(self)@,
    {
        match self.sessions.remove(id) {
            None => {
                assert(self@.sessions =~= old(self)@.sessions);
                Err(CoreError::NotFound)
            },
            Some(session) => {
                let Session { pid, pending, .. } = session;
                let _ = self.sessions.register(id.to_owned(), Session { pid, rows, cols, pending });
                assert(self@.sessions =~= after_resize(old(self)@, id@, rows, cols).sessions);
                Ok(())
            }
        }
    }

    /// The process id to terminate, with its process group, for a cancel or
    /// kill request on `id`. Nothing is removed here: the entry leaves when the
    /// exit of the child is observed.
    pub fn cancel(&self, id: &str) -> (r: Result<u32, CoreError>)
        requires
            self.wf(),
        ensures
            cancel_target(self@, id@) matches Some(pid) ==> r == Ok::<u32, CoreError>(pid),
            cancel_target(self@, id@) is None ==> r == Err::<u32, CoreError>(CoreError::NotFound),
    {
        match self.sessions.lookup(id) {
            Some(session) => Ok(session.pid),
            None => match self.processes.lookup(id) {
                Some(pid) => Ok(*pid),
                None => Err(CoreError::NotFound),
            },
        }
    }

    /// Decides what follows an attempt to start the streaming process `id`.
    /// An id that is live already is refused with nothing emitted, so the
    /// live stream keeps its one terminal event; the host stops the child.
    /// Otherwise a started child is registered for cancellation and no event
    /// is due yet, and a child that could not start gets its error event and
    /// leaves no entry.
    pub fn begin_streaming(&mut self, id: String, started: Result<u32, String>) -> (r: Result<Option<Event>, CoreError>)
        requires
            old(self).wf(),
        ensures
            final(self).wf(),
            is_live(old(self)@, id@) ==> r == Err::<Option<Event>, CoreError>(CoreError::AlreadyExists)
                && final(self)@ == old(self)@,
            !is_live(old(self)@, id@) ==> match started {
                Ok(pid) => r == Ok::<Option<Event>, CoreError>(None) && final(self)@ == after_track(old(self)@, id@, pid),
                Err(m) => (r matches Ok(Some(e)) && e@ == (EventView::Error { id: id@, message: m@ }))
                    && final(self)@ == old(self)@,
            },
    {
        if self.is_live(id.as_str()) {
            return Err(CoreError::AlreadyExists);
        }
        match started {
            Ok(pid) => {
                let _ = self.track(id, pid);
                Ok(None)
            },
            Err(message) => Ok(Some(Event::Error { id, message })),
        }
    }

    /// Every live id, sessions and processes alike, each once.
    pub fn live_ids(&self) -> (r: Vec<String>)
        requires
            self.wf(),
        ensures
            forall|k: Seq<char>| is_live(self@, k) <==> #[trigger] strings_view(r@).contains(k),
    {
        let mut a = self.sessions.ids();
        let b = self.processes.ids();
        let ghost av = a@.map_values(|s: String| s@);
        let ghost bv = b@.map_values(|s: String| s@);
        let mut i: usize = 0;
        while i < b.len()
            invariant
                i <= b@.len(),
                bv == b@.map_values(|s: String| s@),
                a@.map_values(|s: String| s@) == av + bv.take(i as int),
            decreases b@.len() - i,
        {
            let ghost before = a@;
            a.push(b[i].clone());
            assert(a@.map_values(|s: String| s@) =~= before.map_values(|s: String| s@).push(b@[i as int]@));
            assert(bv.take(i + 1) =~= bv.take(i as int).push(bv[i as int]));
            i = i + 1;
        }
        assert(bv.take(b@.len() as int) =~= bv);
        let ghost rv = a@.map_values(|s: String| s@);
        assert(rv == strings_view(a@));
        assert forall|k: Seq<char>| is_live(self@, k) <==> #[trigger] rv.contains(k) by {
            assert(self@.sessions.contains_key(k) <==> self.sessions@.contains_key(k));
            if rv.contains(k) {
                let j = choose|j: int| 0 <= j < rv.len() && rv[j] == k;
                if j < av.len() {
                    assert(av[j] == k);
                    assert(av.contains(k));
                } else {
                    assert(bv[j - av.len()] == k);
                    assert(bv.contains(k));
                }
            }
            if av.contains(k) {
                let j = choose|j: int| 0 <= j < av.len() && av[j] == k;
                assert(rv[j] == k);
            }
            if bv.contains(k) {
                let j = choose|j: int| 0 <= j < bv.len() && bv[j] == k;
                assert(rv[av.len() + j] == k);
            }
        }
        a
    }

    /// Records that the child of `id` has ended: the entry is removed, and
    /// the one terminal event of `id` is returned if it was still live. A
    /// second observation of the same exit is a no-op.
    pub fn finish(&mut self, id: String, outcome: ExitOutcome) -> (r: Option<Event>)
        requires
            old(self).wf(),
        ensures
            final(self).wf(),
            final(self)@ == after_finish(old(self)@, id@),
            !is_live(final(self)@, id@),
            r is Some <==> is_live(old(self)@, id@),
            r matches Some(e) ==> finish_event(old(self)@, id@, outcome@) == Some(e@),
    {
        let s = self.sessions.remove(id.as_str());
        let t = self.processes.remove(id.as_str());
        assert(self@.sessions =~= old(self)@.sessions.remove(id@));
        if s.is_some() || t.is_some() {
            Some(terminal_event_for(id, outcome))
        } else {
            None
        }
    }
}

/// A step that may race with the end of a child: a cancel request, or the
/// exit watcher observing the exit with some outcome.
pub enum RaceStep {
    Cancel,
    Observe(ExitOutcomeView),
}

/// The state after `steps` were applied to `id`, in order.
pub open spec fn after_steps(s: SupervisorView, id: Seq<char>, steps: Seq<RaceStep>) -> SupervisorView
    decreases steps.len(),
{
    if steps.len() == 0 {
        s
    } else {
        let next = match steps[0] {
            RaceStep::Cancel => s,
            RaceStep::Observe(_) => after_finish(s, id),
        };
        after_steps(next, id, steps.drop_first())
    }
}

/// How many terminal events for `id` the `steps` emit, in order.
pub open spec fn terminal_events(s: SupervisorView, id: Seq<char>, steps: Seq<RaceStep>) -> nat
    decreases steps.len(),
{
    if steps.len() == 0 {
        0
    } else {
        match steps[0] {
            RaceStep::Cancel => terminal_events(s, id, steps.drop_first()),
            RaceStep::Observe(o) => {
                let emitted: nat = if finish_event(s, id, o) is Some { 1 } else { 0 };
                emitted + terminal_events(after_finish(s, id), id, steps.drop_first())
            },
        }
    }
}

proof fn lemma_steps_when_gone(s: SupervisorView, id: Seq<char>, steps: Seq<RaceStep>)
    requires
        !is_live(s, id),
    ensures
        terminal_events(s, id, steps) == 0,
        !is_live(after_steps(s, id, steps), id),
    decreases steps.len(),
{
    if steps.len() > 0 {
        match steps[0] {
            RaceStep::Cancel => lemma_steps_when_gone(s, id, steps.drop_first()),
            RaceStep::Observe(_) => lemma_steps_when_gone(after_finish(s, id), id, steps.drop_first()),
        }
    }
}

/// A session opened under a fresh id is live as soon as the open returns;
/// writes, resizes and taking input keep it live; and the observation of
/// its exit emits its terminal event and removes it in the same step.
pub proof fn law_live_from_open_until_exit(
    s: SupervisorView,
    id: Seq<char>,
    pid: u32,
    rows: u16,
    cols: u16,
    data: Seq<u8>,
    outcome: ExitOutcomeView,
)
    requires
        !is_live(s, id),
    ensures
        is_live(after_open_session(s, id, pid, rows, cols), id),
        forall|t: SupervisorView| is_live(t, id) ==> {
            &&& is_live(#[trigger] after_write(t, id, data), id)
            &&& is_live(after_resize(t, id, rows, cols), id)
            &&& is_live(after_take_input(t, id), id)
            &&& finish_event(t, id, outcome) matches Some(e) && e.id() == id && e.is_terminal()
            &&& !is_live(after_finish(t, id), id)
        },
{
}

/// Two writes `a` then `b` to a live session queue all of `a` before any
/// byte of `b`, behind the input already queued.
pub proof fn law_write_order(s: SupervisorView, id: Seq<char>, a: Seq<u8>, b: Seq<u8>)
    requires
        s.sessions.contains_key(id),
    ensures
        after_write(after_write(s, id, a), id, b).sessions[id].pending == s.sessions[id].pending + a + b,
        after_write(after_write(after_take_input(s, id), id, a), id, b).sessions[id].pending == a + b,
{
    assert(Seq::<u8>::empty() + a =~= a);
}

/// However cancel requests and exit observations interleave, a live id
/// gets exactly one terminal event once its exit has been observed at least
/// once, and it is no longer live afterwards; an id that is not live gets none.
pub proof fn law_one_terminal_event(s: SupervisorView, id: Seq<char>, steps: Seq<RaceStep>)
    ensures
        is_live(s, id) && (exists|i: int| 0 <= i < steps.len() && #[trigger] steps[i] is Observe) ==> {
            &&& terminal_events(s, id, steps) == 1
            &&& !is_live(after_steps(s, id, steps), id)
        },
        !is_live(s, id) ==> terminal_events(s, id, steps) == 0,
    decreases steps.len(),
{
    if !is_live(s, id) {
        lemma_steps_when_gone(s, id, steps);
    } else if exists|i: int| 0 <= i < steps.len() && #[trigger] steps[i] is Observe {
        match steps[0] {
            RaceStep::Cancel => {
                let i = choose|i: int| 0 <= i < steps.len() && #[trigger] steps[i] is Observe;
                assert(steps.drop_first()[i - 1] is Observe);
                law_one_terminal_event(s, id, steps.drop_first());
            },
            RaceStep::Observe(o) => {
                lemma_steps_when_gone(after_finish(s, id), id, steps.drop_first());
            },
        }
    }
}

} // verus!
