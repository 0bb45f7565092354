use vstd::prelude::*;
use vstd::string::StringExecFns;
use crate::text::{append_escaped, esc_seq, lemma_esc_seq_clean};

verus! {

/// A JSON string literal holding the characters of `s`.
pub open spec fn json_string_of(s: Seq<char>) -> Seq<char> {
    seq!['"'] + esc_seq(s) + seq!['"']
}

/// Appends the JSON string literal for `s`.
pub fn append_json_string(out: &mut String, s: &str)
    ensures
        final(out)@ == old(out)@ + json_string_of(s@),
{
    out.append("\"");
    append_escaped(out, s);
    out.append("\"");
    proof {
        reveal_strlit("\"");
        assert(old(out)@ + "\""@ + esc_seq(s@) + "\""@ =~= old(out)@ + json_string_of(s@));
    }
}

/// A command for the worker. The vocabulary is closed: a command either
/// carries data onto a channel, to one peer or to all of them, or asks the
/// worker to dial a remote address.
pub enum Command {
    Send { channel_id: String, data: String, target_peer_id: Option<String> },
    Dial { address: String },
}

/// The single-line JSON document that carries `c` to the worker.
pub open spec fn encoded_command(c: Command) -> Seq<char> {
    match c {
        Command::Send { channel_id, data, target_peer_id } => {
            "{\"cmd\":\"send\",\"channelId\":"@ + json_string_of(channel_id@) + ",\"data\":"@
                + json_string_of(data@) + (match target_peer_id {
                Some(t) => ",\"targetPeerId\":"@ + json_string_of(t@),
                None => Seq::<char>::empty(),
            }) + "}"@
        },
        Command::Dial { address } => {
            "{\"cmd\":\"dial\",\"address\":"@ + json_string_of(address@) + "}"@
        },
    }
}

/// Encodes `c` as its wire document, without the terminating line break.
pub fn encode_command(c: &Command) -> (r: String)
    ensures
        r@ == encoded_command(*c),
{
    let mut out = String::new();
    match c {
        Command::Send { channel_id, data, target_peer_id } => {
            out.append("{\"cmd\":\"send\",\"channelId\":");
            append_json_string(&mut out, channel_id.as_str());
            out.append(",\"data\":");
            append_json_string(&mut out, data.as_str());
            match target_peer_id {
                Some(t) => {
                    out.append(",\"targetPeerId\":");
                    append_json_string(&mut out, t.as_str());
                },
                None => {},
            }
            out.append("}");
            proof {
                assert(out@ =~= encoded_command(*c));
            }
        },
        Command::Dial { address } => {
            out.append("{\"cmd\":\"dial\",\"address\":");
            append_json_string(&mut out, address.as_str());
            out.append("}");
            proof {
                assert(out@ =~= encoded_command(*c));
            }
        },
    }
    out
}

/// The event synthesized for a worker output line that is not JSON.
pub open spec fn log_event_wire(msg: Seq<char>) -> Seq<char> {
    "{\"type\":\"log\",\"message\":"@ + json_string_of(msg) + "}"@
}

/// The event synthesized for a condition of this core itself: a failed
/// stream read, or the end of the worker's output.
pub open spec fn error_event_wire(msg: Seq<char>) -> Seq<char> {
    "{\"type\":\"error\",\"message\":"@ + json_string_of(msg) + "}"@
}

pub fn log_event(msg: &str) -> (r: String)
    ensures
        r@ == log_event_wire(msg@),
{
    let mut out = String::new();
    out.append("{\"type\":\"log\",\"message\":");
    append_json_string(&mut out, msg);
    out.append("}");
    proof {
        assert(out@ =~= log_event_wire(msg@));
    }
    out
}

pub fn error_event(msg: &str) -> (r: String)
    ensures
        r@ == error_event_wire(msg@),
{
    let mut out = String::new();
    out.append("{\"type\":\"error\",\"message\":");
    append_json_string(&mut out, msg);
    out.append("}");
    proof {
        assert(out@ =~= error_event_wire(msg@));
    }
    out
}

/// No line break occurs anywhere in `s`.
pub open spec fn line_clean(s: Seq<char>) -> bool {
    forall|i: int| 0 <= i < s.len() ==> s[i] != '\n'
}

pub proof fn lemma_json_string_clean(s: Seq<char>)
    ensures
        line_clean(json_string_of(s)),
{
    lemma_esc_seq_clean(s);
    assert forall|i: int| 0 <= i < json_string_of(s).len() implies json_string_of(s)[i] != '\n' by {
        if 0 < i < 1 + esc_seq(s).len() {
            assert(json_string_of(s)[i] == esc_seq(s)[i - 1]);
        }
    }
}

/// A submitted line holds its whole command and exactly one line break,
/// at its end: writers that serialize whole lines therefore deliver each
/// message uninterleaved, whatever total order the writes take.
pub proof fn lemma_command_line_single_break(c: Command)
    ensures
        ({
            let l = encoded_command(c) + seq!['\n'];
            l.len() > 0 && l.last() == '\n' && forall|i: int| 0 <= i < l.len() - 1 ==> l[i] != '\n'
        }),
{
    lemma_encoded_command_clean(c);
    let l = encoded_command(c) + seq!['\n'];
    assert forall|i: int| 0 <= i < l.len() - 1 implies l[i] != '\n' by {
        assert(l[i] == encoded_command(c)[i]);
    }
}

/// An encoded command occupies one line: no character of it is a line
/// break, so the document and its terminator form exactly one line of the
/// worker's input, whole and uninterleaved with any other command.
pub proof fn lemma_encoded_command_clean(c: Command)
    ensures
        line_clean(encoded_command(c)),
{
    match c {
        Command::Send { channel_id, data, target_peer_id } => {
            reveal_strlit("{\"cmd\":\"send\",\"channelId\":");
            reveal_strlit(",\"data\":");
            reveal_strlit(",\"targetPeerId\":");
            reveal_strlit("}");
            lemma_json_string_clean(channel_id@);
            lemma_json_string_clean(data@);
            let mid = match target_peer_id {
                Some(t) => ",\"targetPeerId\":"@ + json_string_of(t@),
                None => Seq::<char>::empty(),
            };
            if target_peer_id is Some {
                lemma_json_string_clean(target_peer_id->0@);
                assert(line_clean(mid)) by {
                    assert forall|i: int| 0 <= i < mid.len() implies mid[i] != '\n' by {
                        if i >= ",\"targetPeerId\":"@.len() {
                            assert(mid[i] == json_string_of(target_peer_id->0@)[i
                                - ",\"targetPeerId\":"@.len()]);
                        }
                    }
                }
            }
            let whole = "{\"cmd\":\"send\",\"channelId\":"@ + json_string_of(channel_id@)
                + ",\"data\":"@ + json_string_of(data@) + mid + "}"@;
            assert forall|i: int| 0 <= i < whole.len() implies whole[i] != '\n' by {
                let a = "{\"cmd\":\"send\",\"channelId\":"@.len() as int;
                let b = a + json_string_of(channel_id@).len();
                let d = b + ",\"data\":"@.len();
                let e = d + json_string_of(data@).len();
                let f = e + mid.len();
                if a <= i < b {
                    assert(whole[i] == json_string_of(channel_id@)[i - a]);
                } else if d <= i < e {
                    assert(whole[i] == json_string_of(data@)[i - d]);
                } else if e <= i < f {
                    assert(whole[i] == mid[i - e]);
                }
            }
        },
        Command::Dial { address } => {
            reveal_strlit("{\"cmd\":\"dial\",\"address\":");
            reveal_strlit("}");
            lemma_json_string_clean(address@);
            let whole = "{\"cmd\":\"dial\",\"address\":"@ + json_string_of(address@) + "}"@;
            assert forall|i: int| 0 <= i < whole.len() implies whole[i] != '\n' by {
                let a = "{\"cmd\":\"dial\",\"address\":"@.len() as int;
                let b = a + json_string_of(address@).len();
                if a <= i < b {
                    assert(whole[i] == json_string_of(address@)[i - a]);
                }
            }
        },
    }
}

} // verus!
