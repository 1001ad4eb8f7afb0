//! One buffer of output lines, read by many clients, each of which keeps
//! its own cursor into the buffer.
use std::collections::HashMap;
use vstd::prelude::*;

verus! {

broadcast use vstd::std_specs::hash::group_hash_axioms;

/// Unique identifier to distinguish clients.
#[derive(Debug, Hash, PartialEq, Eq, Structural, Clone, Copy)]
pub struct ClientId(pub u128);

/// The abstract state of a [`LogBuffer`]: every line written so far, in
/// order, and for each known client the index of the first line it has
/// not read yet.
#[verifier::ext_equal]
pub struct LogView {
    pub lines: Seq<String>,
    pub cursors: Map<u128, usize>,
}

impl LogView {
    /// The state of a freshly created buffer.
    pub open spec fn empty() -> LogView {
        LogView { lines: Seq::empty(), cursors: Map::empty() }
    }

    /// Well-formedness: finitely many clients, and no cursor points past
    /// the end of the buffer.
    pub open spec fn wf(self) -> bool {
        &&& self.lines.len() <= usize::MAX
        &&& self.cursors.dom().finite()
        &&& forall|id: u128| #[trigger]
            self.cursors.contains_key(id) ==> self.cursors[id] <= self.lines.len()
    }

    /// Whether `id` has read from the buffer before.
    pub open spec fn is_client(self, id: u128) -> bool {
        self.cursors.contains_key(id)
    }

    /// The lines that a read by `id` hands out: those written since its
    /// last read, or none at all for a client that has never read.
    pub open spec fn unread(self, id: u128) -> Seq<String> {
        if self.cursors.contains_key(id) {
            self.lines.subrange(self.cursors[id] as int, self.lines.len() as int)
        } else {
            Seq::empty()
        }
    }

    /// The state after `id` has read: its cursor sits at the end.
    pub open spec fn consumed(self, id: u128) -> LogView {
        LogView { lines: self.lines, cursors: self.cursors.insert(id, self.lines.len() as usize) }
    }

    /// The state after `line` has been appended.
    pub open spec fn written(self, line: String) -> LogView {
        LogView { lines: self.lines.push(line), cursors: self.cursors }
    }

    /// The state after every line of `ws` has been appended, in order.
    pub open spec fn written_all(self, ws: Seq<String>) -> LogView
        decreases ws.len(),
    {
        if ws.len() == 0 {
            self
        } else {
            self.written_all(ws.drop_last()).written(ws.last())
        }
    }

    /// The number of distinct clients that have read.
    pub open spec fn client_count(self) -> nat {
        self.cursors.dom().len()
    }
}

/// Structure that allows getting logs for multiple clients with a single buffer.
pub struct LogBuffer {
    buffer: Vec<String>,
    clients: HashMap<u128, usize>,
}

impl View for LogBuffer {
    type V = LogView;

    closed spec fn view(&self) -> LogView {
        LogView { lines: self.buffer@, cursors: self.clients@ }
    }
}


/// Appending lines never registers a client, and a well-formed state stays
/// well-formed as long as the buffer length fits in a `usize`.
pub proof fn lemma_written_all(m: LogView, ws: Seq<String>)
    requires
        m.wf(),
        m.lines.len() + ws.len() <= usize::MAX,
    ensures
        m.written_all(ws).lines == m.lines + ws,
        m.written_all(ws).cursors == m.cursors,
        m.written_all(ws).wf(),
    decreases ws.len(),
{
    if ws.len() > 0 {
        lemma_written_all(m, ws.drop_last());
        assert(m.lines + ws =~= (m.lines + ws.drop_last()).push(ws.last()));
    }
}

/// A read leaves the state well-formed.
pub proof fn lemma_consumed_wf(m: LogView, id: u128)
    requires
        m.wf(),
    ensures
        m.consumed(id).wf(),
{
}

/// What a client reads is exactly what was written since its previous
/// read: after a read by `id` and the writes `ws`, the next read by `id`
/// hands out `ws`, in the order written.
pub proof fn lemma_reads_what_was_written(m: LogView, id: u128, ws: Seq<String>)
    requires
        m.wf(),
        m.lines.len() + ws.len() <= usize::MAX,
    ensures
        m.consumed(id).written_all(ws).unread(id) == ws,
{
    let c = m.consumed(id);
    lemma_consumed_wf(m, id);
    lemma_written_all(c, ws);
    assert((c.lines + ws).subrange(c.lines.len() as int, (c.lines + ws).len() as int) =~= ws);
}

/// The same lines are never handed out twice: a read right after a read
/// by the same client gives nothing.
pub proof fn lemma_no_line_read_twice(m: LogView, id: u128)
    requires
        m.wf(),
    ensures
        m.consumed(id).unread(id) == Seq::<String>::empty(),
{
    assert(m.consumed(id).unread(id) =~= Seq::<String>::empty());
}

/// A client that has never read gets nothing from its first read,
/// whatever the buffer already holds.
pub proof fn lemma_new_client_reads_nothing(m: LogView, id: u128)
    requires
        m.wf(),
        !m.is_client(id),
    ensures
        m.unread(id) == Seq::<String>::empty(),
{
}

/// Clients do not disturb each other: a read by `a` changes neither what
/// `b` will read nor whether `b` is a client.
pub proof fn lemma_clients_independent(m: LogView, a: u128, b: u128)
    requires
        m.wf(),
        a != b,
    ensures
        m.consumed(a).unread(b) == m.unread(b),
        m.consumed(a).is_client(b) == m.is_client(b),
{
}

/// A written line is added at the end of what every known client has
/// still to read, and reaches no client that has never read.
pub proof fn lemma_write_reaches_every_client(m: LogView, line: String, id: u128)
    requires
        m.wf(),
        m.lines.len() < usize::MAX,
    ensures
        m.written(line).unread(id) == (if m.is_client(id) {
            m.unread(id).push(line)
        } else {
            Seq::<String>::empty()
        }),
        m.written(line).wf(),
{
    if m.is_client(id) {
        assert(m.written(line).unread(id) =~= m.unread(id).push(line));
    }
}

/// The number of clients grows by one at the first read of a new id and
/// is unchanged by any other read or by a write.
pub proof fn lemma_client_count(m: LogView, id: u128, line: String)
    requires
        m.wf(),
    ensures
        m.consumed(id).client_count() == m.client_count() + (if m.is_client(id) {
            0int
        } else {
            1int
        }),
        m.written(line).client_count() == m.client_count(),
{
    if m.is_client(id) {
        assert(m.consumed(id).cursors.dom() =~= m.cursors.dom());
    }
}

impl LogBuffer {
    /// An empty buffer with no clients.
    pub fn new() -> (buffer: Self)
        ensures
            buffer@ == LogView::empty(),
            buffer@.wf(),
    {
        let buffer = LogBuffer { buffer: Vec::new(), clients: HashMap::new() };
        assert(buffer@ =~= LogView::empty());
        buffer
    }

    /// Get unread lines for the client and move its last index
    /// to the current buffer position to prevent logging the same place twice.
    /// If the client id was not present, creates new client.
    pub fn consume_unread(&mut self, id: &ClientId) -> (lines: Vec<String>)
        requires
            old(self)@.wf(),
        ensures
            lines@ == old(self)@.unread(id.0),
            final(self)@ == old(self)@.consumed(id.0),
            final(self)@.wf(),
    {
        let buf_len: usize = self.buffer.len();
        let start: usize = match self.clients.get(&id.0) {
            Some(last_idx) => *last_idx,
            None => buf_len,
        };
        let mut lines: Vec<String> = Vec::new();
        let mut i: usize = start;
        while i < buf_len
            invariant
                start <= i <= buf_len,
                buf_len == self.buffer@.len(),
                lines@ == self.buffer@.subrange(start as int, i as int),
            decreases buf_len - i,
        {
            lines.push(self.buffer[i].clone());
            i = i + 1;
        }
        self.clients.insert(id.0, buf_len);
        assert(self@ =~= old(self)@.consumed(id.0));
        lines
    }

    /// Append one line to the buffer.
    pub fn write(&mut self, line: String)
        requires
            old(self)@.wf(),
        ensures
            final(self)@ == old(self)@.written(line),
            final(self)@.wf(),
    {
        self.buffer.push(line);
        assert(self.buffer@.len() == self.buffer.len());
        assert(self@ =~= old(self)@.written(line));
    }

    /// The number of distinct clients that have read from the buffer.
    pub fn len_clients(&self) -> (n: usize)
        ensures
            n == self@.client_count(),
    {
        self.clients.len()
    }
}

} // verus!
