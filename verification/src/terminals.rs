//! The terminals that the compositor runs, by identifier: the command each
//! was started with, its process handle and the surface that shows it.
//! Starting, signalling and polling processes is left to the caller, which
//! hands the handle in and takes it back out.

use vstd::prelude::*;
use std::collections::HashMap;

verus! {

broadcast use vstd::std_specs::hash::group_hash_axioms;

/// A running terminal: its identifier, the handle of its process, the
/// surface it is shown on, if any, and the command it runs.
#[derive(Debug)]
pub struct TerminalSession<P> {
    pub id: u64,
    pub process: P,
    pub surface_id: Option<u64>,
    pub command: String,
}

/// What polling a terminal's process told: it has exited, it is still
/// running, or its status could not be read.
#[derive(Debug, Clone, Copy, PartialEq, Eq, Structural)]
pub enum ProcessStatus {
    Exited,
    Running,
    Unknown,
}

/// The terminals left after forgetting, in the order of `statuses`, each
/// terminal reported exited that is still there.
pub open spec fn reaped_sessions<P>(m: Map<u64, TerminalSession<P>>, statuses: Seq<(u64, ProcessStatus)>) -> Map<u64, TerminalSession<P>>
    decreases statuses.len(),
{
    if statuses.len() == 0 {
        m
    } else {
        let before = reaped_sessions(m, statuses.drop_last());
        let (id, status) = statuses.last();
        if status == ProcessStatus::Exited && before.contains_key(id) { before.remove(id) } else { before }
    }
}

/// The terminals that forgetting by `statuses` removes, in that order.
pub open spec fn reaped_ids<P>(m: Map<u64, TerminalSession<P>>, statuses: Seq<(u64, ProcessStatus)>) -> Seq<u64>
    decreases statuses.len(),
{
    if statuses.len() == 0 {
        Seq::empty()
    } else {
        let before = reaped_sessions(m, statuses.drop_last());
        let ids = reaped_ids(m, statuses.drop_last());
        let (id, status) = statuses.last();
        if status == ProcessStatus::Exited && before.contains_key(id) { ids.push(id) } else { ids }
    }
}

/// The terminals by identifier; identifiers are handed out from 1 upwards
/// and never twice.
#[derive(Debug)]
pub struct TerminalManager<P> {
    terminals: HashMap<u64, TerminalSession<P>>,
    next_terminal_id: u64,
}

impl<P> TerminalManager<P> {
    #[verifier::type_invariant]
    closed spec fn inv(self) -> bool {
        &&& self.next_terminal_id >= 1
        &&& forall|k: u64| #[trigger] self.terminals@.contains_key(k)
            ==> k < self.next_terminal_id && self.terminals@[k].id == k
    }

    /// The terminals by identifier.
    pub closed spec fn sessions(&self) -> Map<u64, TerminalSession<P>> {
        self.terminals@
    }

    /// The identifier the next terminal gets.
    pub closed spec fn next_id(&self) -> u64 {
        self.next_terminal_id
    }

    /// A manager with no terminals; the first identifier is 1.
    pub fn new() -> (m: Self)
        ensures
            m.sessions() == Map::<u64, TerminalSession<P>>::empty(),
            m.next_id() == 1,
    {
        TerminalManager { terminals: HashMap::new(), next_terminal_id: 1 }
    }

    /// The identifier the next terminal gets.
    pub fn next_terminal_id(&self) -> (n: u64)
        ensures
            n == self.next_id(),
    {
        self.next_terminal_id
    }

    /// Hands out the identifier for the next terminal. The identifier is
    /// used up whether or not its process then starts.
    pub fn allocate_terminal_id(&mut self) -> (id: u64)
        requires
            old(self).next_id() < u64::MAX,
        ensures
            id == old(self).next_id(),
            !old(self).sessions().contains_key(id),
            final(self).next_id() == old(self).next_id() + 1,
            final(self).sessions() == old(self).sessions(),
    {
        proof {
            use_type_invariant(&*self);
        }
        let id = self.next_terminal_id;
        self.next_terminal_id = id + 1;
        id
    }

    /// Records the terminal `id`, started from `command`, whose process is
    /// `process`; it is shown on no surface yet.
    pub fn add_terminal(&mut self, id: u64, command: &str, process: P)
        requires
            id < old(self).next_id(),
            !old(self).sessions().contains_key(id),
        ensures
            final(self).next_id() == old(self).next_id(),
            final(self).sessions().dom() == old(self).sessions().dom().insert(id),
            forall|k: u64| #[trigger] old(self).sessions().contains_key(k)
                ==> final(self).sessions()[k] == old(self).sessions()[k],
            final(self).sessions()[id].id == id,
            final(self).sessions()[id].process == process,
            final(self).sessions()[id].surface_id == None::<u64>,
            final(self).sessions()[id].command@ == command@,
    {
        let session = TerminalSession { id, process, surface_id: None, command: command.to_string() };
        self.restore_terminal(session);
    }

    /// Starts a terminal from the outcome of starting its process: the
    /// identifier is used up either way, and the terminal is recorded when
    /// a process came back.
    pub fn spawn_terminal(&mut self, command: &str, spawned: Option<P>) -> (r: Option<u64>)
        requires
            old(self).next_id() < u64::MAX,
        ensures
            final(self).next_id() == old(self).next_id() + 1,
            r is Some <==> spawned is Some,
            r is None ==> final(self).sessions() == old(self).sessions(),
            r matches Some(id) ==> {
                &&& id == old(self).next_id()
                &&& !old(self).sessions().contains_key(id)
                &&& final(self).sessions().dom() == old(self).sessions().dom().insert(id)
                &&& forall|k: u64| #[trigger] old(self).sessions().contains_key(k)
                    ==> final(self).sessions()[k] == old(self).sessions()[k]
                &&& final(self).sessions()[id].id == id
                &&& final(self).sessions()[id].process == spawned->0
                &&& final(self).sessions()[id].surface_id == None::<u64>
                &&& final(self).sessions()[id].command@ == command@
            },
    {
        let id = self.allocate_terminal_id();
        match spawned {
            Some(process) => {
                self.add_terminal(id, command, process);
                Some(id)
            },
            None => None,
        }
    }

    /// Puts back a terminal that `remove_terminal` handed out.
    pub fn restore_terminal(&mut self, session: TerminalSession<P>)
        requires
            session.id < old(self).next_id(),
            !old(self).sessions().contains_key(session.id),
        ensures
            final(self).next_id() == old(self).next_id(),
            final(self).sessions() == old(self).sessions().insert(session.id, session),
    {
        proof {
            use_type_invariant(&*self);
        }
        let mut terminals = HashMap::new();
        std::mem::swap(&mut terminals, &mut self.terminals);
        terminals.insert(session.id, session);
        self.terminals = terminals;
    }

    /// Forgets the terminal `terminal_id` and hands it back, so that its
    /// process can be stopped.
    pub fn remove_terminal(&mut self, terminal_id: u64) -> (r: Option<TerminalSession<P>>)
        ensures
            final(self).next_id() == old(self).next_id(),
            final(self).sessions() == old(self).sessions().remove(terminal_id),
            match r {
                Some(s) => old(self).sessions().contains_key(terminal_id) && s == old(self).sessions()[terminal_id]
                    && s.id == terminal_id && terminal_id < old(self).next_id(),
                None => !old(self).sessions().contains_key(terminal_id),
            },
    {
        proof {
            use_type_invariant(&*self);
        }
        let mut terminals = HashMap::new();
        std::mem::swap(&mut terminals, &mut self.terminals);
        let r = terminals.remove(&terminal_id);
        self.terminals = terminals;
        r
    }

    /// Shows the terminal `terminal_id`, if there is one, on `surface_id`.
    pub fn associate_surface(&mut self, terminal_id: u64, surface_id: u64)
        ensures
            final(self).next_id() == old(self).next_id(),
            final(self).sessions().dom() == old(self).sessions().dom(),
            forall|k: u64| #[trigger] old(self).sessions().contains_key(k) && k != terminal_id
                ==> final(self).sessions()[k] == old(self).sessions()[k],
            old(self).sessions().contains_key(terminal_id) ==> {
                let (before, after) = (old(self).sessions()[terminal_id], final(self).sessions()[terminal_id]);
                &&& after.surface_id == Some(surface_id)
                &&& after.id == before.id
                &&& after.process == before.process
                &&& after.command == before.command
            },
    {
        match self.remove_terminal(terminal_id) {
            Some(session) => {
                let TerminalSession { id, process, surface_id: _, command } = session;
                self.restore_terminal(TerminalSession { id, process, surface_id: Some(surface_id), command });
                proof {
                    assert(self.sessions().dom() =~= old(self).sessions().dom());
                }
            },
            None => {
                proof {
                    assert(self.sessions() =~= old(self).sessions());
                }
            },
        }
    }

    /// The surface that shows the terminal `terminal_id`, if it exists and
    /// is shown.
    pub fn get_terminal_surface(&self, terminal_id: u64) -> (r: Option<u64>)
        ensures
            r == if self.sessions().contains_key(terminal_id) {
                self.sessions()[terminal_id].surface_id
            } else {
                None
            },
    {
        match self.terminals.get(&terminal_id) {
            Some(t) => t.surface_id,
            None => None,
        }
    }

    /// The identifiers of all terminals, each once, in no particular order.
    pub fn list_terminals(&self) -> (v: Vec<u64>)
        ensures
            v@.no_duplicates(),
            v@.to_set() == self.sessions().dom(),
    {
        let mut out: Vec<u64> = Vec::new();
        let ghost m = self.terminals@;
        for entry in it: self.terminals.iter()
            invariant
                m == self.terminals@,
                it.seq().no_duplicates(),
                forall|i: int| 0 <= i < it.seq().len() ==> m.contains_key(*it.seq()[i].0) && m[*it.seq()[i].0] == *it.seq()[i].1,
                out@.len() == it.index(),
                forall|i: int| 0 <= i < it.index() ==> out@[i] == *it.seq()[i].0,
                out@.no_duplicates(),
                forall|i: int| 0 <= i < out@.len() ==> m.contains_key(#[trigger] out@[i]),
                forall|k: u64| #[trigger] m.contains_key(k) ==> out@.contains(k)
                    || exists|j: int| it.index() <= j < it.seq().len() && *it.seq()[j].0 == k,
        {
            let (k, _) = entry;
            let ghost idx = it.index();
            let ghost prev = out@;
            proof {
                assert forall|i: int| 0 <= i < prev.len() implies prev[i] != *k by {
                    if prev[i] == *k {
                        assert(m[*it.seq()[i].0] == *it.seq()[i].1);
                        assert(m[*it.seq()[idx].0] == *it.seq()[idx].1);
                        assert(it.seq()[i] == it.seq()[idx]);
                    }
                }
            }
            out.push(*k);
            proof {
                assert(out@[idx] == *k);
                assert forall|q: u64| #[trigger] m.contains_key(q) implies out@.contains(q)
                    || exists|j: int| idx + 1 <= j < it.seq().len() && *it.seq()[j].0 == q by {
                    if prev.contains(q) {
                        let w = choose|w: int| 0 <= w < prev.len() && prev[w] == q;
                        assert(out@[w] == q);
                    } else {
                        let j = choose|j: int| idx <= j < it.seq().len() && *it.seq()[j].0 == q;
                        if j == idx {
                            assert(out@[idx] == q);
                        }
                    }
                }
            }
        }
        proof {
            assert forall|k: u64| out@.to_set().contains(k) <==> m.dom().contains(k) by {
                if m.contains_key(k) {
                    assert(out@.contains(k));
                }
                if out@.to_set().contains(k) {
                    let j = choose|j: int| 0 <= j < out@.len() && out@[j] == k;
                    assert(m.contains_key(out@[j]));
                }
            }
            assert(out@.to_set() =~= m.dom());
        }
        out
    }

    /// Forgets the terminals whose process has exited, given the status of
    /// each terminal's process; running terminals, and those whose status
    /// could not be read, are kept. Returns the identifiers forgotten.
    pub fn cleanup_finished_terminals(&mut self, statuses: Vec<(u64, ProcessStatus)>) -> (v: Vec<u64>)
        ensures
            final(self).next_id() == old(self).next_id(),
            final(self).sessions() == reaped_sessions(old(self).sessions(), statuses@),
            v@ == reaped_ids(old(self).sessions(), statuses@),
    {
        let mut finished: Vec<u64> = Vec::new();
        let mut i: usize = 0;
        while i < statuses.len()
            invariant
                i <= statuses@.len(),
                self.next_id() == old(self).next_id(),
                self.sessions() == reaped_sessions(old(self).sessions(), statuses@.subrange(0, i as int)),
                finished@ == reaped_ids(old(self).sessions(), statuses@.subrange(0, i as int)),
            decreases statuses@.len() - i,
        {
            let (id, status) = statuses[i];
            proof {
                assert(statuses@.subrange(0, i + 1).drop_last() =~= statuses@.subrange(0, i as int));
            }
            match status {
                ProcessStatus::Exited => {
                    match self.remove_terminal(id) {
                        Some(_) => {
                            finished.push(id);
                        },
                        None => {},
                    }
                },
                _ => {},
            }
            i += 1;
        }
        assert(statuses@.subrange(0, statuses@.len() as int) =~= statuses@);
        finished
    }

    /// The command and the surface of the terminal `terminal_id`, if it
    /// exists.
    pub fn get_terminal_info(&self, terminal_id: u64) -> (r: Option<(&str, Option<u64>)>)
        ensures
            match r {
                Some((command, surface)) => self.sessions().contains_key(terminal_id)
                    && command@ == self.sessions()[terminal_id].command@
                    && surface == self.sessions()[terminal_id].surface_id,
                None => !self.sessions().contains_key(terminal_id),
            },
    {
        match self.terminals.get(&terminal_id) {
            Some(t) => Some((t.command.as_str(), t.surface_id)),
            None => None,
        }
    }
}

impl<P> Default for TerminalManager<P> {
    fn default() -> (m: Self)
        ensures
            m.sessions() == Map::<u64, TerminalSession<P>>::empty(),
            m.next_id() == 1,
    {
        Self::new()
    }
}

} // verus!
