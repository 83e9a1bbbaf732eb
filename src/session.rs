//! Decisions of the process session's pumps. The threads, pipes and the child process are
//! the caller's; each pump asks here what to do with what it observed.
use vstd::prelude::*;

verus! {

/// What one read from the child's output gave.
pub enum ReadOutcome {
    /// A line, with its line ending.
    Line(String),
    /// Nothing: the stream is at its end for now.
    EndOfStream,
    /// The read failed.
    Failed(String),
}

/// What the reader pump does next.
#[derive(Debug, PartialEq, Eq)]
pub enum ReaderAction {
    /// Show the line to the listener, if any, then queue it for the receiver.
    Forward(String),
    /// Wait for more data or for termination, then read again.
    WaitForData,
    /// Leave the pump.
    Stop,
}

/// The reader pump's decision: lines are forwarded; at the end of the stream it stops once
/// termination is signalled and waits otherwise, since the end of a live pipe does not mean
/// that the process exited; a failed read stops it.
pub fn reader_step(outcome: ReadOutcome, terminated: bool) -> (r: ReaderAction)
    ensures
        match outcome {
            ReadOutcome::Line(line) => r == ReaderAction::Forward(line),
            ReadOutcome::EndOfStream => r == if terminated {
                ReaderAction::Stop
            } else {
                ReaderAction::WaitForData
            },
            ReadOutcome::Failed(_) => r == ReaderAction::Stop,
        },
{
    match outcome {
        ReadOutcome::Line(line) => ReaderAction::Forward(line),
        ReadOutcome::EndOfStream => {
            if terminated {
                ReaderAction::Stop
            } else {
                ReaderAction::WaitForData
            }
        },
        ReadOutcome::Failed(_) => ReaderAction::Stop,
    }
}

/// The writer pump's decision after each write, whether or not the write succeeded: it goes
/// on until termination is signalled.
pub fn writer_continues(terminated: bool) -> (r: bool)
    ensures
        r == !terminated,
{
    !terminated
}

} // verus!
