use vstd::prelude::*;
use vstd::string::StrSliceExecFns;
use vstd::string::StringExecFns;
use crate::errors::SupervisorError;
use crate::text::{append_hex_digit, hex_char};

verus! {

/// Paths in this model are written with `/` between components; the host
/// normalizes the platform's separators before handing a path in.
///
/// The index of the last separator in `s`, or a negative value when `s`
/// holds none.
pub open spec fn last_slash(s: Seq<char>) -> int
    decreases s.len(),
{
    if s.len() == 0 {
        -1
    } else if s[s.len() - 1] == '/' {
        s.len() - 1
    } else {
        last_slash(s.drop_last())
    }
}

pub proof fn lemma_last_slash(s: Seq<char>)
    ensures
        -1 <= last_slash(s) < s.len(),
        last_slash(s) >= 0 ==> s[last_slash(s)] == '/',
        forall|j: int| last_slash(s) < j < s.len() ==> s[j] != '/',
    decreases s.len(),
{
    if s.len() == 0 {
    } else if s[s.len() - 1] == '/' {
    } else {
        lemma_last_slash(s.drop_last());
        assert forall|j: int| last_slash(s) < j < s.len() implies s[j] != '/' by {
            if j < s.len() - 1 {
                assert(s.drop_last()[j] == s[j]);
            }
        }
        if last_slash(s) >= 0 {
            assert(s.drop_last()[last_slash(s)] == s[last_slash(s)]);
        }
    }
}

/// A position that carries a separator with none to its right is the last
/// separator; a string with no separator at all has none.
pub proof fn lemma_last_slash_unique(s: Seq<char>, k: int)
    requires
        -1 <= k < s.len(),
        k >= 0 ==> s[k] == '/',
        forall|j: int| k < j < s.len() ==> s[j] != '/',
    ensures
        last_slash(s) == k,
{
    lemma_last_slash(s);
    if last_slash(s) < k {
        assert(s[k] != '/');
    } else if k < last_slash(s) {
        assert(s[last_slash(s)] != '/');
    }
}

/// The directory holding `p`: the text before the last separator. A path
/// with no separator, or only a leading one, has no parent here: the walk
/// upward ends at the topmost named component.
pub open spec fn parent_spec(p: Seq<char>) -> Option<Seq<char>> {
    if last_slash(p) <= 0 {
        None
    } else {
        Some(p.subrange(0, last_slash(p)))
    }
}

/// The directory holding `p`, if the model gives it one.
pub fn parent_dir(p: &str) -> (r: Option<String>)
    ensures
        parent_spec(p@) is None ==> r is None,
        parent_spec(p@) matches Some(q) ==> (r matches Some(d) && d@ == q),
{
    let n = p.unicode_len();
    let mut i: usize = n;
    loop
        invariant
            i <= n,
            n == p@.len(),
            forall|j: int| i <= j < n ==> p@[j] != '/',
        ensures
            i <= n,
            n == p@.len(),
            forall|j: int| i <= j < n ==> p@[j] != '/',
            i == 0 || p@[i - 1] == '/',
        decreases i,
    {
        if i == 0 {
            break ;
        }
        if p.get_char(i - 1) == '/' {
            break ;
        }
        i = i - 1;
    }
    if i <= 1 {
        proof {
            lemma_last_slash_unique(p@, i as int - 1);
        }
        None
    } else {
        proof {
            lemma_last_slash_unique(p@, i as int - 1);
        }
        Some(String::from_str(p.substring_char(0, i - 1)))
    }
}

/// `dir` and `name` joined with a separator.
pub fn join(dir: &str, name: &str) -> (r: String)
    ensures
        r@ == dir@ + seq!['/'] + name@,
{
    let mut out = String::from_str(dir);
    out.append("/");
    out.append(name);
    proof {
        reveal_strlit("/");
        assert(dir@ + "/"@ + name@ =~= dir@ + seq!['/'] + name@);
    }
    out
}

/// The decimal digits of `n`, most significant first.
pub open spec fn dec_str(n: nat) -> Seq<char>
    decreases n,
{
    if n < 10 {
        seq![hex_char(n as int)]
    } else {
        dec_str(n / 10).push(hex_char((n % 10) as int))
    }
}

/// `n` written in decimal.
pub fn dec_digits(n: u64) -> (r: String)
    ensures
        r@ == dec_str(n as nat),
    decreases n,
{
    if n < 10 {
        let mut out = String::new();
        append_hex_digit(&mut out, n as u32);
        out
    } else {
        let mut out = dec_digits(n / 10);
        append_hex_digit(&mut out, (n % 10) as u32);
        proof {
            assert(dec_str((n / 10) as nat).push(hex_char((n % 10) as int)) =~= dec_str(
                (n / 10) as nat,
            ) + seq![hex_char((n % 10) as int)]);
        }
        out
    }
}

/// The application's private data directory beneath the platform's
/// application-data root.
pub fn app_data_dir(appdata: &str) -> (r: String)
    ensures
        r@ == appdata@ + seq!['/'] + "Concord"@,
{
    join(appdata, "Concord")
}

/// The diagnostics log file for one host-process instance. The name
/// carries the host's process identifier, so concurrently running
/// instances never collide on the same file.
pub fn sidecar_log_path(data_dir: &str, pid: u64) -> (r: String)
    ensures
        r@ == data_dir@ + seq!['/'] + "sidecar-"@ + dec_str(pid as nat) + ".log"@,
{
    let mut name = String::from_str("sidecar-");
    let digits = dec_digits(pid);
    name.append(digits.as_str());
    name.append(".log");
    let r = join(data_dir, name.as_str());
    proof {
        assert(r@ =~= data_dir@ + seq!['/'] + "sidecar-"@ + dec_str(pid as nat) + ".log"@);
    }
    r
}

/// The log query's answer given what the filesystem returned: the file's
/// text when it exists, the empty string when it does not. A missing file
/// is the expected state before any start, not an error.
pub fn get_sidecar_log(read: Option<String>) -> (r: Result<String, SupervisorError>)
    ensures
        read matches Some(s) ==> (r matches Ok(t) && t@ == s@),
        read is None ==> (r matches Ok(t) && t@ == Seq::<char>::empty()),
{
    match read {
        Some(s) => Ok(s),
        None => Ok(String::new()),
    }
}

/// Where the worker script stands and which directory the worker runs in,
/// given which layout the filesystem showed: the bundled production script
/// next to the executable wins; otherwise the ancestor directory `dev_dir`
/// in which the caller found the conventional development script; with
/// neither, nothing.
pub open spec fn script_choice(exe_dir: Seq<char>, bundled: bool, dev_dir: Option<String>) -> Option<
    (Seq<char>, Seq<char>),
> {
    if bundled {
        Some((exe_dir + seq!['/'] + "p2p-sidecar-bundle.js"@, exe_dir))
    } else {
        match dev_dir {
            Some(d) => Some((d@ + seq!['/'] + "scripts/p2p-sidecar.js"@, d@)),
            None => None,
        }
    }
}

/// Which interpreter runs the script: the binary bundled next to the
/// executable wins; otherwise the one the caller resolved from the search
/// path; with neither, nothing.
pub open spec fn interpreter_choice(
    exe_dir: Seq<char>,
    bundled: bool,
    from_path: Option<String>,
) -> Option<Seq<char>> {
    if bundled {
        Some(exe_dir + seq!['/'] + "node.exe"@)
    } else {
        match from_path {
            Some(p) => Some(p@),
            None => None,
        }
    }
}

/// The message that names both search strategies and the starting path.
pub open spec fn script_missing_note(exe_dir: Seq<char>) -> Seq<char> {
    "Sidecar script not found. Searched for p2p-sidecar-bundle.js in "@ + exe_dir
        + " and scripts/p2p-sidecar.js upward."@
}

pub open spec fn interpreter_missing_note() -> Seq<char> {
    "Node.js runtime not found. The bundled node.exe is missing and Node.js is not on PATH."@
}

/// Everything needed to spawn the worker, resolved once per start attempt.
#[derive(Debug)]
pub struct LaunchSpec {
    pub interpreter: String,
    pub script: String,
    pub working_dir: String,
}

/// Decides the script location and working directory from what the
/// filesystem showed, production layout first.
pub fn resolve_script(exe_dir: &str, bundled_exists: bool, dev_dir: Option<String>) -> (r: Result<
    (String, String),
    SupervisorError,
>)
    ensures
        match script_choice(exe_dir@, bundled_exists, dev_dir) {
            Some(sw) => r matches Ok(p) && p.0@ == sw.0 && p.1@ == sw.1,
            None => r matches Err(e) && e matches SupervisorError::ScriptNotFound(m) && m@
                == script_missing_note(exe_dir@),
        },
{
    if bundled_exists {
        let script = join(exe_dir, "p2p-sidecar-bundle.js");
        let workdir = String::from_str(exe_dir);
        Ok((script, workdir))
    } else {
        match dev_dir {
            Some(d) => {
                let script = join(d.as_str(), "scripts/p2p-sidecar.js");
                Ok((script, d))
            },
            None => {
                let mut m = String::from_str(
                    "Sidecar script not found. Searched for p2p-sidecar-bundle.js in ",
                );
                m.append(exe_dir);
                m.append(" and scripts/p2p-sidecar.js upward.");
                Err(SupervisorError::ScriptNotFound(m))
            },
        }
    }
}

/// Decides which interpreter runs the worker, bundled binary first, then
/// whatever the caller resolved from the search path.
pub fn resolve_interpreter(exe_dir: &str, bundled_exists: bool, from_path: Option<String>) -> (r:
    Result<String, SupervisorError>)
    ensures
        match interpreter_choice(exe_dir@, bundled_exists, from_path) {
            Some(ip) => r matches Ok(p) && p@ == ip,
            None => r matches Err(e) && e matches SupervisorError::InterpreterNotFound(m) && m@
                == interpreter_missing_note(),
        },
{
    if bundled_exists {
        Ok(join(exe_dir, "node.exe"))
    } else {
        match from_path {
            Some(p) => Ok(p),
            None => Err(
                SupervisorError::InterpreterNotFound(
                    String::from_str(
                        "Node.js runtime not found. The bundled node.exe is missing and Node.js is not on PATH.",
                    ),
                ),
            ),
        }
    }
}

/// Resolves the whole launch specification: script and working directory
/// first, then the interpreter, each failure named after what was missing.
pub fn resolve_launch(
    exe_dir: &str,
    bundled_script_exists: bool,
    dev_dir: Option<String>,
    bundled_node_exists: bool,
    node_from_path: Option<String>,
) -> (r: Result<LaunchSpec, SupervisorError>)
    ensures
        match script_choice(exe_dir@, bundled_script_exists, dev_dir) {
            None => r matches Err(e) && e matches SupervisorError::ScriptNotFound(m) && m@
                == script_missing_note(exe_dir@),
            Some(sw) => match interpreter_choice(exe_dir@, bundled_node_exists, node_from_path) {
                None => r matches Err(e) && e matches SupervisorError::InterpreterNotFound(m)
                    && m@ == interpreter_missing_note(),
                Some(ip) => r matches Ok(sp) && sp.interpreter@ == ip && sp.script@ == sw.0
                    && sp.working_dir@ == sw.1,
            },
        },
{
    match resolve_script(exe_dir, bundled_script_exists, dev_dir) {
        Ok(p) => match resolve_interpreter(exe_dir, bundled_node_exists, node_from_path) {
            Ok(interpreter) => Ok(
                LaunchSpec { interpreter, script: p.0, working_dir: p.1 },
            ),
            Err(e) => Err(e),
        },
        Err(e) => Err(e),
    }
}

/// In the development layout the working directory is the project root:
/// walking two levels up from the script gives back exactly the ancestor
/// directory the script was found under.
pub proof fn lemma_dev_workdir(d: Seq<char>)
    requires
        d.len() > 0,
    ensures
        ({
            let script = d + seq!['/'] + "scripts/p2p-sidecar.js"@;
            parent_spec(script) matches Some(p1) && parent_spec(p1) matches Some(p2) && p2 == d
        }),
{
    reveal_strlit("scripts/p2p-sidecar.js");
    let tail = "scripts/p2p-sidecar.js"@;
    let script = d + seq!['/'] + tail;
    assert(tail.len() == 22);
    assert(tail[7] == '/');
    lemma_last_slash_unique(script, d.len() as int + 8);
    let p1 = script.subrange(0, d.len() as int + 8);
    assert(parent_spec(script) == Some(p1));
    lemma_last_slash_unique(p1, d.len() as int);
    let p2 = p1.subrange(0, d.len() as int);
    assert(parent_spec(p1) == Some(p2));
    assert(p2 =~= d);
}

} // verus!
