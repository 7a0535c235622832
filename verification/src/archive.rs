//! Archives as a stream of chunks: the two ends that the packer and the unpacker see.

use vstd::prelude::*;

verus! {

broadcast use vstd::seq::group_seq_axioms;

/// Chunks that may be on their way between a packer or unpacker and the network.
pub const CHANNEL_CAP: usize = 256;

/// The chunk for a write: none for an empty one, so that there are no empty chunks.
pub fn chunk_of(buf: &[u8]) -> (r: Option<Vec<u8>>)
    ensures
        match r {
            Some(chunk) => chunk@ == buf@ && buf@.len() > 0,
            None => buf@.len() == 0,
        },
{
    if buf.len() == 0 {
        return None;
    }
    let mut chunk: Vec<u8> = Vec::new();
    chunk.extend_from_slice(buf);
    assert(chunk@ =~= buf@);
    Some(chunk)
}

/// Turns chunks into reads of any size.
#[derive(Debug)]
pub struct ChunkReader {
    leftover: Vec<u8>,
    pos: usize,
}

impl ChunkReader {
    /// The bytes that have come in and were not read yet.
    pub closed spec fn pending(&self) -> Seq<u8> {
        self.leftover@.skip(self.pos as int)
    }

    pub closed spec fn wf(&self) -> bool {
        self.pos <= self.leftover@.len()
    }

    pub fn new() -> (r: Self)
        ensures
            r.wf(),
            r.pending() == Seq::<u8>::empty(),
    {
        let r = ChunkReader { leftover: Vec::new(), pos: 0 };
        assert(r.pending() =~= Seq::<u8>::empty());
        r
    }

    /// Reads as much as fits into the buffer, and says how much. Says nothing where the
    /// next chunk is needed first; a read of no bytes never needs one.
    pub fn read(&mut self, buf: &mut [u8]) -> (r: Option<usize>)
        requires
            old(self).wf(),
        ensures
            final(self).wf(),
            final(buf)@.len() == old(buf)@.len(),
            match r {
                Some(n) => {
                    &&& n == if old(buf)@.len() < old(self).pending().len() {
                        old(buf)@.len()
                    } else {
                        old(self).pending().len()
                    }
                    &&& n > 0 || old(buf)@.len() == 0
                    &&& final(buf)@.take(n as int) == old(self).pending().take(n as int)
                    &&& final(buf)@.skip(n as int) == old(buf)@.skip(n as int)
                    &&& final(self).pending() == old(self).pending().skip(n as int)
                },
                None => {
                    &&& old(buf)@.len() > 0
                    &&& old(self).pending().len() == 0
                    &&& final(self).pending() == old(self).pending()
                    &&& final(buf)@ == old(buf)@
                },
            },
    {
        let ghost before = self.pending();
        let size: usize = self.leftover.len();
        let have: usize = size - self.pos;
        if buf.len() == 0 {
            assert(self.pending().skip(0) =~= self.pending());
            assert(buf@.take(0) =~= self.pending().take(0));
            return Some(0);
        }
        if have == 0 {
            return None;
        }
        let n: usize = if buf.len() < have {
            buf.len()
        } else {
            have
        };
        let ghost start = buf@;
        let mut i: usize = 0;
        while i < n
            invariant
                i <= n <= buf@.len(),
                size == self.leftover@.len(),
                n <= size - self.pos,
                self.pos <= size,
                buf@.len() == start.len(),
                before == self.pending(),
                forall|j: int| 0 <= j < i ==> buf@[j] == before[j],
                forall|j: int| i <= j < buf@.len() ==> buf@[j] == start[j],
            decreases n - i,
        {
            buf[i] = self.leftover[self.pos + i];
            i += 1;
        }
        self.pos = self.pos + n;
        assert(buf@.take(n as int) =~= before.take(n as int));
        assert(buf@.skip(n as int) =~= start.skip(n as int));
        assert(self.pending() =~= before.skip(n as int));
        Some(n)
    }

    /// Takes the next chunk, once all before it has been read. An empty one is no end:
    /// the next is needed then.
    pub fn feed(&mut self, chunk: Vec<u8>)
        requires
            old(self).pending().len() == 0,
        ensures
            final(self).wf(),
            final(self).pending() == chunk@,
    {
        self.leftover = chunk;
        self.pos = 0;
        assert(self.pending() =~= chunk@);
    }
}

/// What is done with a reader.
pub enum ReaderOp {
    /// A chunk comes in.
    Feed(Seq<u8>),
    /// So many bytes are read.
    Read(nat),
}

/// The bytes that were read and those that are pending after a series of operations. A
/// chunk is fed only when nothing is pending, and no more is read than is pending.
pub open spec fn read_all(pending: Seq<u8>, ops: Seq<ReaderOp>) -> (Seq<u8>, Seq<u8>)
    decreases ops.len(),
{
    if ops.len() == 0 {
        (Seq::empty(), pending)
    } else {
        match ops[0] {
            ReaderOp::Feed(chunk) => read_all(
                if pending.len() == 0 {
                    chunk
                } else {
                    pending
                },
                ops.skip(1),
            ),
            ReaderOp::Read(n) => {
                let k = if n < pending.len() {
                    n as int
                } else {
                    pending.len() as int
                };
                let (read, left) = read_all(pending.skip(k), ops.skip(1));
                (pending.take(k) + read, left)
            },
        }
    }
}

/// The chunks that came in when nothing was pending, one after the other.
pub open spec fn fed(pending: Seq<u8>, ops: Seq<ReaderOp>) -> Seq<u8>
    decreases ops.len(),
{
    if ops.len() == 0 {
        Seq::empty()
    } else {
        match ops[0] {
            ReaderOp::Feed(chunk) => if pending.len() == 0 {
                chunk + fed(chunk, ops.skip(1))
            } else {
                fed(pending, ops.skip(1))
            },
            ReaderOp::Read(n) => fed(
                pending.skip(
                    if n < pending.len() {
                        n as int
                    } else {
                        pending.len() as int
                    },
                ),
                ops.skip(1),
            ),
        }
    }
}

/// However large the reads are, what is read is what came in, in order and without a
/// gap; what is not read yet is pending.
pub proof fn reads_are_what_was_fed(pending: Seq<u8>, ops: Seq<ReaderOp>)
    ensures
        ({
            let (read, left) = read_all(pending, ops);
            read + left == pending + fed(pending, ops)
        }),
    decreases ops.len(),
{
    if ops.len() == 0 {
        assert(Seq::<u8>::empty() + pending =~= pending + Seq::<u8>::empty());
    } else {
        match ops[0] {
            ReaderOp::Feed(chunk) => {
                let now = if pending.len() == 0 {
                    chunk
                } else {
                    pending
                };
                reads_are_what_was_fed(now, ops.skip(1));
                let (read, left) = read_all(now, ops.skip(1));
                if pending.len() == 0 {
                    assert(pending + (chunk + fed(chunk, ops.skip(1))) =~= chunk + fed(
                        chunk,
                        ops.skip(1),
                    ));
                }
            },
            ReaderOp::Read(n) => {
                let k = if n < pending.len() {
                    n as int
                } else {
                    pending.len() as int
                };
                let rest = pending.skip(k);
                reads_are_what_was_fed(rest, ops.skip(1));
                let (read, left) = read_all(rest, ops.skip(1));
                let more = fed(rest, ops.skip(1));
                assert(pending =~= pending.take(k) + rest);
                assert((pending.take(k) + read) + left =~= pending.take(k) + (read + left));
                assert(pending + more =~= pending.take(k) + (rest + more));
            },
        }
    }
}

/// The name of a source in the archive: its own, or that of the place it stands for, or
/// the fallback.
pub fn archive_root_name<T>(own: Option<T>, canonical: Option<T>, fallback: T) -> (r: T)
    ensures
        r == match (own, canonical) {
            (Some(name), _) => name,
            (None, Some(name)) => name,
            (None, None) => fallback,
        },
{
    match own {
        Some(name) => name,
        None => match canonical {
            Some(name) => name,
            None => fallback,
        },
    }
}

/// So many chunks may be on their way.
pub proof fn channels_are_bounded()
    ensures
        CHANNEL_CAP == 256,
{
}

} // verus!
