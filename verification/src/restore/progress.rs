//! Progress events of a running restore, and the in-memory component reader.

use vstd::prelude::*;

verus! {

/// A progress event emitted while a restore runs.
#[derive(Debug, Clone)]
pub enum RestoreProgressEvent {
    /// The device's own restore progress: an operation code and its
    /// completion percentage.
    Operation {
        /// The device's operation code.
        operation: u64,
        /// The operation's completion percentage (0 to 100).
        progress: u64,
    },
    /// A new host step began, named by the data type the device requested.
    Step(String),
    /// Byte progress while streaming a large image.
    Transfer {
        /// The component being streamed.
        component: String,
        /// Bytes sent so far.
        sent: u64,
        /// Total size in bytes, when known.
        total: Option<u64>,
    },
}

/// A component held in memory, handed out in reads.
#[derive(Debug)]
pub struct BufferedComponentReader {
    data: Vec<u8>,
    pos: usize,
}

impl BufferedComponentReader {
    /// The component's bytes.
    pub closed spec fn content(&self) -> Seq<u8> {
        self.data@
    }

    /// How many bytes have been handed out.
    pub closed spec fn position(&self) -> nat {
        self.pos as nat
    }

    /// Whether the reader's position lies within its data.
    pub closed spec fn wf(&self) -> bool {
        self.pos <= self.data@.len()
    }

    /// A reader at the start of `data`.
    pub fn new(data: Vec<u8>) -> (r: BufferedComponentReader)
        ensures
            r.wf(),
            r.content() == data@,
            r.position() == 0,
    {
        BufferedComponentReader { data, pos: 0 }
    }

    /// Copies the next bytes into `buf`: as many as fit and remain. Returns
    /// how many; 0 marks the end.
    pub fn read(&mut self, buf: &mut [u8]) -> (n: usize)
        requires
            old(self).wf(),
        ensures
            final(self).wf(),
            final(self).content() == old(self).content(),
            n == if old(self).content().len() - old(self).position() < old(buf)@.len() {
                (old(self).content().len() - old(self).position()) as nat
            } else {
                old(buf)@.len()
            },
            final(self).position() == old(self).position() + n,
            final(buf)@.len() == old(buf)@.len(),
            final(buf)@.take(n as int) == old(self).content().subrange(
                old(self).position() as int,
                old(self).position() + n,
            ),
            final(buf)@.skip(n as int) == old(buf)@.skip(n as int),
    {
        let remaining = self.data.len() - self.pos;
        let n = if remaining < buf.len() {
            remaining
        } else {
            buf.len()
        };
        let mut i: usize = 0;
        while i < n
            invariant
                self.pos + n <= self.data.len(),
                n <= buf@.len(),
                buf@.len() == old(buf)@.len(),
                i <= n,
                forall|k: int| 0 <= k < i ==> buf@[k] == self.data@[self.pos + k],
                forall|k: int| n <= k < buf@.len() ==> buf@[k] == old(buf)@[k],
            decreases n - i,
        {
            buf[i] = self.data[self.pos + i];
            i = i + 1;
        }
        assert(buf@.take(n as int) =~= self.data@.subrange(self.pos as int, self.pos + n));
        assert(buf@.skip(n as int) =~= old(buf)@.skip(n as int));
        self.pos = self.pos + n;
        n
    }
}

} // verus!
