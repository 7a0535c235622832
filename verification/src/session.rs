//! What the server keeps per client: the sinks of its open connections and the stream
//! back to it.
//!
//! The handles themselves (channels, signals) are of no concern here; each is a type
//! parameter: `W` takes bytes for a connection, `A` stops one, `R` resizes its
//! terminal, `S` is the stream to the client.

use std::collections::HashMap;
use vstd::prelude::*;

verus! {

broadcast use {vstd::seq::group_seq_axioms, vstd::std_specs::hash::group_hash_axioms};

/// One client's connections.
pub struct Session<W, A, R, S> {
    tcp_writers: HashMap<u32, W>,
    aborts: HashMap<u32, A>,
    pty_resize: HashMap<u32, R>,
    sse_tx: S,
}

/// What a session holds.
#[verifier::ext_equal]
pub struct SessionView<W, A, R, S> {
    /// Sinks for bytes from the client: TCP targets, terminals, archives.
    pub writers: Map<u32, W>,
    /// Signals that stop a TCP connection.
    pub aborts: Map<u32, A>,
    /// Sinks for new terminal sizes.
    pub resizers: Map<u32, R>,
    /// The stream to the client.
    pub sse: S,
}

impl<W, A, R, S> View for Session<W, A, R, S> {
    type V = SessionView<W, A, R, S>;

    closed spec fn view(&self) -> SessionView<W, A, R, S> {
        SessionView {
            writers: self.tcp_writers@,
            aborts: self.aborts@,
            resizers: self.pty_resize@,
            sse: self.sse_tx,
        }
    }
}

/// What a map holds under a key.
pub open spec fn at<V>(m: Map<u32, V>, id: u32) -> Option<V> {
    if m.contains_key(id) {
        Some(m[id])
    } else {
        None
    }
}

impl<W, A, R, S> Session<W, A, R, S> {
    /// A session without connections.
    pub fn new(sse: S) -> (r: Self)
        ensures
            r@ == (SessionView {
                writers: Map::<u32, W>::empty(),
                aborts: Map::<u32, A>::empty(),
                resizers: Map::<u32, R>::empty(),
                sse,
            }),
    {
        Session {
            tcp_writers: HashMap::new(),
            aborts: HashMap::new(),
            pty_resize: HashMap::new(),
            sse_tx: sse,
        }
    }

    /// Replaces the stream to the client. Open connections stay: they use whatever
    /// stream the session has.
    pub fn attach(&mut self, sse: S)
        ensures
            final(self)@ == (SessionView { sse, ..old(self)@ }),
    {
        self.sse_tx = sse;
    }

    /// The stream to the client.
    pub fn sse(&self) -> (r: &S)
        ensures
            *r == self@.sse,
    {
        &self.sse_tx
    }

    /// The sink for bytes for a connection.
    pub fn writer(&self, conn_id: u32) -> (r: Option<&W>)
        ensures
            match r {
                Some(w) => at(self@.writers, conn_id) == Some(*w),
                None => at(self@.writers, conn_id) is None,
            },
    {
        self.tcp_writers.get(&conn_id)
    }

    /// The sink for new sizes of a connection's terminal.
    pub fn resizer(&self, conn_id: u32) -> (r: Option<&R>)
        ensures
            match r {
                Some(x) => at(self@.resizers, conn_id) == Some(*x),
                None => at(self@.resizers, conn_id) is None,
            },
    {
        self.pty_resize.get(&conn_id)
    }

    /// Adds a TCP connection.
    pub fn register_tcp(&mut self, conn_id: u32, writer: W, abort: A)
        ensures
            final(self)@ == (SessionView {
                writers: old(self)@.writers.insert(conn_id, writer),
                aborts: old(self)@.aborts.insert(conn_id, abort),
                ..old(self)@
            }),
    {
        let _ = self.tcp_writers.insert(conn_id, writer);
        let _ = self.aborts.insert(conn_id, abort);
    }

    /// Adds a terminal.
    pub fn register_pty(&mut self, conn_id: u32, writer: W, resizer: R)
        ensures
            final(self)@ == (SessionView {
                writers: old(self)@.writers.insert(conn_id, writer),
                resizers: old(self)@.resizers.insert(conn_id, resizer),
                ..old(self)@
            }),
    {
        let _ = self.tcp_writers.insert(conn_id, writer);
        let _ = self.pty_resize.insert(conn_id, resizer);
    }

    /// Adds a sink that an archive is written to.
    pub fn register_push(&mut self, conn_id: u32, writer: W)
        ensures
            final(self)@ == (SessionView {
                writers: old(self)@.writers.insert(conn_id, writer),
                ..old(self)@
            }),
    {
        let _ = self.tcp_writers.insert(conn_id, writer);
    }

    /// Lets go of the sink of a connection: it sees the end of its input.
    pub fn release_writer(&mut self, conn_id: u32)
        ensures
            final(self)@ == (SessionView {
                writers: old(self)@.writers.remove(conn_id),
                ..old(self)@
            }),
    {
        let _ = self.tcp_writers.remove(&conn_id);
    }

    /// Lets go of both directions of a connection, and hands out the signal that stops
    /// it, where it has one.
    pub fn take_abort(&mut self, conn_id: u32) -> (r: Option<A>)
        ensures
            final(self)@ == (SessionView {
                writers: old(self)@.writers.remove(conn_id),
                aborts: old(self)@.aborts.remove(conn_id),
                ..old(self)@
            }),
            r == at(old(self)@.aborts, conn_id),
    {
        let _ = self.tcp_writers.remove(&conn_id);
        self.aborts.remove(&conn_id)
    }

    /// Forgets a TCP connection that has ended.
    pub fn forget_tcp(&mut self, conn_id: u32)
        ensures
            final(self)@ == (SessionView {
                writers: old(self)@.writers.remove(conn_id),
                aborts: old(self)@.aborts.remove(conn_id),
                ..old(self)@
            }),
    {
        let _ = self.tcp_writers.remove(&conn_id);
        let _ = self.aborts.remove(&conn_id);
    }

    /// Forgets a terminal that has ended.
    pub fn forget_pty(&mut self, conn_id: u32)
        ensures
            final(self)@ == (SessionView {
                writers: old(self)@.writers.remove(conn_id),
                resizers: old(self)@.resizers.remove(conn_id),
                ..old(self)@
            }),
    {
        let _ = self.tcp_writers.remove(&conn_id);
        let _ = self.pty_resize.remove(&conn_id);
    }
}

/// The sessions of all clients, by their ids.
pub struct Sessions<H> {
    entries: Vec<(String, H)>,
}

/// The latest entry under an id.
pub open spec fn latest<H>(entries: Seq<(String, H)>, id: Seq<char>) -> Option<H>
    decreases entries.len(),
{
    if entries.len() == 0 {
        None
    } else if entries.last().0@ == id {
        Some(entries.last().1)
    } else {
        latest(entries.drop_last(), id)
    }
}

impl<H> Sessions<H> {
    /// The session with an id.
    pub closed spec fn at(&self, id: Seq<char>) -> Option<H> {
        latest(self.entries@, id)
    }

    pub fn new() -> (r: Self)
        ensures
            forall|id: Seq<char>| r.at(id) is None,
    {
        Sessions { entries: Vec::new() }
    }

    /// The session with an id.
    pub fn get(&self, id: &str) -> (r: Option<&H>)
        ensures
            match r {
                Some(h) => self.at(id@) == Some(*h),
                None => self.at(id@) is None,
            },
    {
        let mut i: usize = self.entries.len();
        assert(self.entries@.take(i as int) =~= self.entries@);
        while i > 0
            invariant
                i <= self.entries@.len(),
                self.at(id@) == latest(self.entries@.take(i as int), id@),
            decreases i,
        {
            assert(self.entries@.take(i as int).drop_last() =~= self.entries@.take(i - 1));
            i -= 1;
            if crate::text::same_str(self.entries[i].0.as_str(), id) {
                return Some(&self.entries[i].1);
            }
        }
        None
    }

    /// Makes sure that there is a session with the id: adds the fresh one where there
    /// is none. Says whether it did.
    pub fn open(&mut self, id: &str, fresh: H) -> (r: bool)
        ensures
            r == (old(self).at(id@) is None),
            final(self).at(id@) == (if r {
                Some(fresh)
            } else {
                old(self).at(id@)
            }),
            forall|other: Seq<char>| other != id@ ==> final(self).at(other) == old(self).at(other),
    {
        if self.get(id).is_some() {
            return false;
        }
        let ghost before = self.entries@;
        self.entries.push((String::from_str(id), fresh));
        assert(self.entries@.drop_last() =~= before);
        true
    }
}

/// An entry is found under its id and hides the one before it; the others are found as
/// before.
pub proof fn entries_are_found<H>(
    entries: Seq<(String, H)>,
    id: String,
    handle: H,
    other: Seq<char>,
)
    ensures
        latest(entries.push((id, handle)), id@) == Some(handle),
        other != id@ ==> latest(entries.push((id, handle)), other) == latest(entries, other),
        latest(Seq::<(String, H)>::empty(), other) is None,
{
    assert(entries.push((id, handle)).drop_last() =~= entries);
}

/// A handle is found under the id that it was put under, until it is taken away.
pub proof fn handles_are_found<V>(m: Map<u32, V>, id: u32, handle: V, other: u32)
    ensures
        at(m.insert(id, handle), id) == Some(handle),
        at(m.remove(id), id) is None,
        other != id ==> at(m.insert(id, handle), other) == at(m, other) && at(m.remove(id), other)
            == at(m, other),
        at(Map::<u32, V>::empty(), id) is None,
{
}

} // verus!
