use vstd::prelude::*;

verus! {

/// Every failure this library reports to a caller.
#[derive(Debug, PartialEq, Eq)]
pub enum SupervisorError {
    /// The private data directory cannot be determined or created.
    ConfigurationUnavailable(String),
    /// Neither deployment layout holds the worker script.
    ScriptNotFound(String),
    /// No interpreter binary could be resolved.
    InterpreterNotFound(String),
    /// The operating system refused to create the worker process.
    SpawnFailed(String),
    /// A captured stream of the worker is missing.
    PipeUnavailable(String),
    /// No worker is currently started.
    NotRunning,
    /// A command could not be encoded.
    SerializationFailed(String),
    /// Writing a command line to the worker failed.
    WriteFailed(String),
    /// Flushing the worker's input stream failed.
    FlushFailed(String),
    /// Reading from the worker's output stream failed.
    ReadFailed(String),
}

} // verus!
