//! Message types exchanged with realtime listeners.
//!
//! Outbound traffic is a tagged server message; the inbound schema currently
//! defines no client-originated variants.

use vstd::prelude::*;

verus! {

/// Which output stream of a task a chunk was captured from.
#[derive(Clone, Copy, Debug, PartialEq, Eq, Structural)]
pub enum IoType {
    Stdout,
    Stderr,
}

/// One ordered slice of a task's textual output, tagged by source stream.
#[derive(Debug)]
pub struct TaskIoChunk {
    /// Identity of the task that produced the output, as text.
    pub id: String,
    /// The captured text, decoded permissively from raw bytes.
    pub chunk: String,
    /// Which stream the bytes were read from.
    pub io_type: IoType,
}

/// A message the server broadcasts to every live listener.
#[derive(Debug)]
pub enum ServerMessage {
    /// A chunk of IO output from a task.
    TaskIoChunk(TaskIoChunk),
}

impl Clone for TaskIoChunk {
    fn clone(&self) -> (r: Self)
        ensures
            r == *self,
    {
        TaskIoChunk { id: self.id.clone(), chunk: self.chunk.clone(), io_type: self.io_type }
    }
}

impl Clone for ServerMessage {
    fn clone(&self) -> (r: Self)
        ensures
            r == *self,
    {
        match self {
            ServerMessage::TaskIoChunk(c) => ServerMessage::TaskIoChunk(c.clone()),
        }
    }
}

} // verus!
