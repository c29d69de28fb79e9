//! Log-writer construction. The writing itself is I/O and lives with the
//! embedding application; this core only assembles the writer value.

use vstd::prelude::*;

verus! {

/// A log writer that hands each formatted record to the wrapped sink,
/// blocking until the write completes. The sink is wrapped whole; writing
/// happens at the application's edge.
#[derive(Debug)]
pub struct BlockingWriter<W> {
    pub sink: W,
}

impl<W> BlockingWriter<W> {
    /// A blocking writer over the given sink.
    pub fn new(w: W) -> (r: Self)
        ensures
            r.sink == w,
    {
        Self { sink: w }
    }

    /// The wrapped sink.
    pub fn into_inner(self) -> (r: W)
        ensures
            r == self.sink,
    {
        self.sink
    }
}

} // verus!
