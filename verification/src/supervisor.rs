use vstd::prelude::*;
use vstd::string::StringExecFns;
use crate::errors::SupervisorError;
use crate::wire::{encode_command, encoded_command, Command};

verus! {

/// One step of a worker's lifecycle, as the supervisor records it.
pub enum LifeEvent {
    /// A worker process was created and stored under this token.
    Spawned(u64),
    /// The worker stored under this token was killed and waited for.
    Retired(u64),
}

/// The workers spawned and not yet retired after a lifecycle history.
pub open spec fn live_after(h: Seq<LifeEvent>) -> Set<u64>
    decreases h.len(),
{
    if h.len() == 0 {
        Set::empty()
    } else {
        match h.last() {
            LifeEvent::Spawned(id) => live_after(h.drop_last()).insert(id),
            LifeEvent::Retired(id) => live_after(h.drop_last()).remove(id),
        }
    }
}

/// The owner of the singleton worker: at most one process handle and at
/// most one input channel exist at any time, and the input channel is only
/// ever present alongside the handle it belongs to. The caller holds the
/// actual operating-system handles under the tokens recorded here.
pub struct Supervisor {
    handle: Option<u64>,
    input: Option<u64>,
    next_id: u64,
    history: Ghost<Seq<LifeEvent>>,
}

impl Supervisor {
    /// The token of the stored worker handle, if one is stored.
    pub closed spec fn handle_id(self) -> Option<u64> {
        self.handle
    }

    /// The token of the stored input channel, if one is stored.
    pub closed spec fn input_id(self) -> Option<u64> {
        self.input
    }

    /// Every lifecycle step taken so far, oldest first.
    pub closed spec fn history(self) -> Seq<LifeEvent> {
        self.history@
    }

    pub open spec fn wf(self) -> bool {
        &&& match self.handle_id() {
            Some(id) => live_after(self.history()) == Set::<u64>::empty().insert(id),
            None => live_after(self.history()) == Set::<u64>::empty(),
        }
        &&& (self.input_id() is Some ==> self.input_id() == self.handle_id())
    }

    /// A supervisor with no worker and an empty history.
    pub fn new() -> (r: Supervisor)
        ensures
            r.wf(),
            r.handle_id() is None,
            r.input_id() is None,
            r.history() == Seq::<LifeEvent>::empty(),
    {
        Supervisor { handle: None, input: None, next_id: 0, history: Ghost(Seq::empty()) }
    }

    /// Whether a worker handle is currently stored.
    pub fn is_running(&self) -> (r: bool)
        ensures
            r == (self.handle_id() is Some),
    {
        self.handle.is_some()
    }

    /// Whether a worker input channel is currently stored.
    pub fn has_input(&self) -> (r: bool)
        ensures
            r == (self.input_id() is Some),
    {
        self.input.is_some()
    }

    /// Tears the worker down: the input channel is cleared first, then the
    /// handle is retired. The returned pair names the input channel to drop
    /// and the process to kill and wait for, in that order; with no worker
    /// running both are `None`, nothing is owed, and the call is a no-op
    /// that neither errors nor blocks.
    pub fn kill_sidecar(&mut self) -> (r: (Option<u64>, Option<u64>))
        requires
            old(self).wf(),
        ensures
            final(self).wf(),
            final(self).handle_id() is None,
            final(self).input_id() is None,
            r.0 == old(self).input_id(),
            r.1 == old(self).handle_id(),
            final(self).history() == match old(self).handle_id() {
                Some(id) => old(self).history().push(LifeEvent::Retired(id)),
                None => old(self).history(),
            },
    {
        let input = self.input;
        self.input = None;
        let handle = self.handle;
        self.handle = None;
        match handle {
            Some(id) => {
                self.history = Ghost(self.history@.push(LifeEvent::Retired(id)));
                proof {
                    assert(self.history@.drop_last() =~= old(self).history());
                    assert(live_after(self.history@) =~= Set::<u64>::empty());
                }
            },
            None => {},
        }
        (input, handle)
    }

    /// Records a freshly spawned worker and hands back the token under
    /// which both its handle and its input channel are stored. A new worker
    /// is only ever recorded once the previous one is fully retired.
    pub fn register_start(&mut self) -> (r: u64)
        requires
            old(self).wf(),
            old(self).handle_id() is None,
            old(self).input_id() is None,
        ensures
            final(self).wf(),
            final(self).handle_id() == Some(r),
            final(self).input_id() == Some(r),
            final(self).history() == old(self).history().push(LifeEvent::Spawned(r)),
    {
        let id = self.next_id;
        if self.next_id < u64::MAX {
            self.next_id = self.next_id + 1;
        }
        self.handle = Some(id);
        self.input = Some(id);
        self.history = Ghost(self.history@.push(LifeEvent::Spawned(id)));
        proof {
            assert(self.history@.drop_last() =~= old(self).history());
        }
        id
    }

    /// Encodes `c` as its single-line wire document and, when an input
    /// channel is present, hands back the exact line — terminator included
    /// — for the caller to write and flush. With no worker running it fails
    /// with `NotRunning`; this function performs no input or output on any
    /// path, so a failed submission touches nothing.
    pub fn submit(&self, c: &Command) -> (r: Result<String, SupervisorError>)
        ensures
            self.input_id() is None ==> (r matches Err(e) && e matches
                SupervisorError::NotRunning),
            self.input_id() is Some ==> (r matches Ok(line) && line@ == encoded_command(*c)
                + seq!['\n']),
    {
        match self.input {
            Some(_) => {
                let mut line = encode_command(c);
                line.append("\n");
                proof {
                    reveal_strlit("\n");
                    assert(encoded_command(*c) + "\n"@ =~= encoded_command(*c) + seq!['\n']);
                }
                Ok(line)
            },
            None => Err(SupervisorError::NotRunning),
        }
    }

    /// Submits the command that carries `data` onto a channel: to the one
    /// named peer when a target is given, else to every connected peer.
    pub fn p2p_send(
        &self,
        channel_id: String,
        data: String,
        target_peer_id: Option<String>,
    ) -> (r: Result<String, SupervisorError>)
        ensures
            self.input_id() is None ==> (r matches Err(e) && e matches
                SupervisorError::NotRunning),
            self.input_id() is Some ==> (r matches Ok(line) && line@ == encoded_command(
                (Command::Send { channel_id, data, target_peer_id }),
            ) + seq!['\n']),
    {
        let c = Command::Send { channel_id, data, target_peer_id };
        self.submit(&c)
    }

    /// Submits the command that asks the worker to dial a remote peer.
    pub fn p2p_dial(&self, address: String) -> (r: Result<String, SupervisorError>)
        ensures
            self.input_id() is None ==> (r matches Err(e) && e matches
                SupervisorError::NotRunning),
            self.input_id() is Some ==> (r matches Ok(line) && line@ == encoded_command(
                (Command::Dial { address }),
            ) + seq!['\n']),
    {
        let c = Command::Dial { address };
        self.submit(&c)
    }
}

/// At most one worker is alive at any instant: after every sequence of
/// lifecycle steps the supervisor admits, the set of workers spawned and
/// not yet retired holds at most one element, and it is exactly the stored
/// handle — a new worker is recorded only after the previous one is fully
/// retired.
pub proof fn lemma_at_most_one_alive(s: Supervisor)
    requires
        s.wf(),
    ensures
        live_after(s.history()).len() <= 1,
        s.handle_id() is None ==> live_after(s.history()).len() == 0,
        s.handle_id() matches Some(id) ==> live_after(s.history()) == Set::<
            u64,
        >::empty().insert(id),
{
    match s.handle_id() {
        Some(id) => {
            assert(live_after(s.history()).len() == Set::<u64>::empty().insert(id).len());
            vstd::set_lib::lemma_set_empty_equivalency_len(Set::<u64>::empty());
            assert(Set::<u64>::empty().insert(id).len() == 1) by {
                vstd::set_lib::lemma_set_insert_finite_iff(Set::<u64>::empty(), id);
            }
        },
        None => {
            assert(live_after(s.history()).len() == Set::<u64>::empty().len());
        },
    }
}

} // verus!
