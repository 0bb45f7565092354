use vstd::prelude::*;
use vstd::string::StrSliceExecFns;
use vstd::string::StringExecFns;
use crate::text::{trim, trim_spec};
use crate::wire::{error_event, error_event_wire, log_event, log_event_wire};

verus! {

/// Whether `s` is one well-formed JSON document. Names the success of
/// `serde_json::from_str::<serde_json::Value>`, a function of `s` alone.
pub uninterp spec fn is_json(s: Seq<char>) -> bool;

/// The text a JSON document comes back as after one parse and serialize.
/// Names the result of `serde_json::to_string` applied to the value that
/// `serde_json::from_str::<serde_json::Value>` read from `s`; both depend
/// on `s` alone.
pub uninterp spec fn json_canon(s: Seq<char>) -> Seq<char>;

/// Relies on `serde_json::from_str::<serde_json::Value>` to decide whether
/// `s` holds one JSON document, and on `serde_json::to_string` to turn the
/// parsed value back into text. Serializing a `serde_json::Value` cannot
/// fail: its maps are keyed by strings.
#[verifier::external_body]
fn reserialize_json(s: &str) -> (r: Option<String>)
    ensures
        r is Some <==> is_json(s@),
        r matches Some(t) ==> t@ == json_canon(s@),
{
    match serde_json::from_str::<serde_json::Value>(s) {
        Ok(v) => serde_json::to_string(&v).ok(),
        Err(_) => None,
    }
}

/// What the relay does with one line of worker output.
pub enum LineAction {
    /// The line was blank and produces no event.
    Skip,
    /// The line was JSON: its reserialized text passes through.
    Forward(Seq<char>),
    /// The line was not JSON: it is wrapped as a log event.
    Wrap(Seq<char>),
}

/// The decision for one raw line: trim it; skip it when nothing remains;
/// pass it through when it parses as JSON; wrap it as a log event
/// otherwise, so that worker output is never dropped merely for not being
/// JSON.
pub open spec fn line_decision(l: Seq<char>) -> LineAction {
    let t = trim_spec(l);
    if t.len() == 0 {
        LineAction::Skip
    } else if is_json(t) {
        LineAction::Forward(json_canon(t))
    } else {
        LineAction::Wrap(t)
    }
}

/// One event the relay has handed to the sink.
pub enum Forwarded {
    /// A worker line passed through as JSON text.
    Passthrough(Seq<char>),
    /// A non-JSON worker line wrapped as a log event.
    Log(Seq<char>),
    /// A failed read of the worker's output stream.
    ReadError(Seq<char>),
    /// The one terminal event: the worker's output ended.
    Terminal,
}

/// How many terminal events a trace holds.
pub open spec fn terminal_count(t: Seq<Forwarded>) -> nat
    decreases t.len(),
{
    if t.len() == 0 {
        0
    } else {
        terminal_count(t.drop_last()) + (if t.last() is Terminal {
            1nat
        } else {
            0nat
        })
    }
}

proof fn lemma_terminal_count_push(t: Seq<Forwarded>, x: Forwarded)
    ensures
        terminal_count(t.push(x)) == terminal_count(t) + (if x is Terminal {
            1nat
        } else {
            0nat
        }),
{
    assert(t.push(x).drop_last() =~= t);
    assert(t.push(x).last() == x);
}

proof fn lemma_no_terminal(t: Seq<Forwarded>)
    requires
        terminal_count(t) == 0,
    ensures
        forall|i: int| 0 <= i < t.len() ==> !(t[i] is Terminal),
    decreases t.len(),
{
    if t.len() > 0 {
        lemma_no_terminal(t.drop_last());
        assert forall|i: int| 0 <= i < t.len() implies !(t[i] is Terminal) by {
            if i < t.len() - 1 {
                assert(t[i] == t.drop_last()[i]);
            }
        }
    }
}

/// The reader bound to one worker instance's output stream. It classifies
/// each line, records every event it forwards, and emits the single
/// terminal event as its last action when the stream ends.
pub struct Relay {
    reading: bool,
    finished: bool,
    trace: Ghost<Seq<Forwarded>>,
}

impl Relay {
    /// Whether the relay still consumes lines.
    pub closed spec fn is_reading(self) -> bool {
        self.reading
    }

    /// Whether the terminal event has been forwarded.
    pub closed spec fn is_finished(self) -> bool {
        self.finished
    }

    /// Every event forwarded so far, oldest first.
    pub closed spec fn trace(self) -> Seq<Forwarded> {
        self.trace@
    }

    pub open spec fn wf(self) -> bool {
        &&& (self.is_finished() ==> !self.is_reading())
        &&& terminal_count(self.trace()) == (if self.is_finished() {
            1nat
        } else {
            0nat
        })
        &&& (self.is_finished() ==> self.trace().len() > 0 && self.trace().last() is Terminal)
    }

    /// A relay for a freshly started worker: reading, nothing forwarded.
    pub fn new() -> (r: Relay)
        ensures
            r.wf(),
            r.is_reading(),
            !r.is_finished(),
            r.trace() == Seq::<Forwarded>::empty(),
    {
        Relay { reading: true, finished: false, trace: Ghost(Seq::empty()) }
    }

    /// Handles one line read from the worker's output: the result is the
    /// event to hand to the sink, or nothing for a blank line.
    pub fn on_line(&mut self, line: &str) -> (r: Option<String>)
        requires
            old(self).wf(),
            old(self).is_reading(),
        ensures
            final(self).wf(),
            final(self).is_reading(),
            !final(self).is_finished(),
            match line_decision(line@) {
                LineAction::Skip => r is None && final(self).trace() == old(self).trace(),
                LineAction::Forward(c) => r matches Some(w) && w@ == c && final(self).trace() == old(
                    self,
                ).trace().push(Forwarded::Passthrough(c)),
                LineAction::Wrap(t) => r matches Some(w) && w@ == log_event_wire(t)
                    && final(self).trace() == old(self).trace().push(Forwarded::Log(t)),
            },
    {
        let t = trim(line);
        if t.as_str().is_empty() {
            return None;
        }
        match reserialize_json(t.as_str()) {
            Some(canon) => {
                self.trace = Ghost(self.trace@.push(Forwarded::Passthrough(canon@)));
                proof {
                    lemma_terminal_count_push(
                        old(self).trace(),
                        Forwarded::Passthrough(canon@),
                    );
                }
                Some(canon)
            },
            None => {
                let w = log_event(t.as_str());
                self.trace = Ghost(self.trace@.push(Forwarded::Log(t@)));
                proof {
                    lemma_terminal_count_push(old(self).trace(), Forwarded::Log(t@));
                }
                Some(w)
            },
        }
    }

    /// Handles a failed read of the worker's output stream: the result is
    /// the synthesized error event, and the relay reads no further lines.
    pub fn on_read_error(&mut self, detail: &str) -> (r: String)
        requires
            old(self).wf(),
            old(self).is_reading(),
        ensures
            final(self).wf(),
            !final(self).is_reading(),
            !final(self).is_finished(),
            r@ == error_event_wire("stdout read error: "@ + detail@),
            final(self).trace() == old(self).trace().push(Forwarded::ReadError(detail@)),
    {
        let mut msg = String::from_str("stdout read error: ");
        msg.append(detail);
        let r = error_event(msg.as_str());
        self.reading = false;
        self.trace = Ghost(self.trace@.push(Forwarded::ReadError(detail@)));
        proof {
            lemma_terminal_count_push(old(self).trace(), Forwarded::ReadError(detail@));
        }
        r
    }

    /// The worker's output stream has ended: the result is the terminal
    /// event, forwarded unconditionally as the relay's last action. This is
    /// the sole way the sink learns that the worker terminated.
    pub fn on_exit(&mut self) -> (r: String)
        requires
            old(self).wf(),
            !old(self).is_finished(),
        ensures
            final(self).wf(),
            final(self).is_finished(),
            !final(self).is_reading(),
            r@ == error_event_wire("Sidecar process exited"@),
            final(self).trace() == old(self).trace().push(Forwarded::Terminal),
    {
        let r = error_event("Sidecar process exited");
        self.reading = false;
        self.finished = true;
        self.trace = Ghost(self.trace@.push(Forwarded::Terminal));
        proof {
            lemma_terminal_count_push(old(self).trace(), Forwarded::Terminal);
        }
        r
    }
}

/// A finished relay has forwarded exactly one terminal event, it is the
/// last event of the whole run, and no operation of a finished relay can
/// forward anything further.
pub proof fn lemma_single_terminal(r: Relay)
    requires
        r.wf(),
        r.is_finished(),
    ensures
        terminal_count(r.trace()) == 1,
        r.trace().len() > 0,
        r.trace().last() is Terminal,
        forall|i: int| 0 <= i < r.trace().len() - 1 ==> !(r.trace()[i] is Terminal),
{
    lemma_terminal_count_push(r.trace().drop_last(), r.trace().last());
    assert(r.trace().drop_last().push(r.trace().last()) =~= r.trace());
    lemma_no_terminal(r.trace().drop_last());
    assert forall|i: int| 0 <= i < r.trace().len() - 1 implies !(r.trace()[i] is Terminal) by {
        assert(r.trace()[i] == r.trace().drop_last()[i]);
    }
}

/// A worker line that one parse and serialize hand back unchanged is
/// forwarded exactly as it came: passthrough keeps such a line's whole
/// text, and with it the structure of the JSON document it carries.
pub proof fn lemma_passthrough_fidelity(l: Seq<char>)
    requires
        trim_spec(l).len() > 0,
        is_json(trim_spec(l)),
        json_canon(trim_spec(l)) == trim_spec(l),
    ensures
        line_decision(l) == LineAction::Forward(trim_spec(l)),
{
}

} // verus!
