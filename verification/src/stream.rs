//! Assembly of the outgoing stream for a terminal `responses.*` task.
//!
//! The caller forwards every upstream model chunk through the assembler
//! and closes it once the upstream ends. The assembler guarantees the
//! protocol the consumers rely on: the emitted items are exactly the
//! upstream chunks, in order, followed by exactly one footer item — even
//! when the footer renders to the empty string — and nothing after that.

use vstd::prelude::*;

verus! {

/// Forwards upstream chunks and flushes the footer exactly once.
pub struct StreamAssembler {
    footer: String,
    closed: bool,
    upstream: Ghost<Seq<Seq<char>>>,
    emitted: Ghost<Seq<Seq<char>>>,
}

impl StreamAssembler {
    /// The chunks received from upstream so far.
    pub closed spec fn upstream(&self) -> Seq<Seq<char>> {
        self.upstream@
    }

    /// The items emitted downstream so far.
    pub closed spec fn emitted(&self) -> Seq<Seq<char>> {
        self.emitted@
    }

    /// The footer to flush when the upstream ends.
    pub closed spec fn footer(&self) -> Seq<char> {
        self.footer@
    }

    /// Whether the stream is closed: the footer has been emitted and no
    /// further item may follow.
    pub closed spec fn is_closed(&self) -> bool {
        self.closed
    }

    /// While open, the emitted items are exactly the upstream chunks;
    /// once closed, the footer stands after them as the one last item.
    pub open spec fn wf(&self) -> bool {
        if self.is_closed() {
            self.emitted() == self.upstream().push(self.footer())
        } else {
            self.emitted() == self.upstream()
        }
    }

    /// An open assembler that will close with `footer`.
    pub fn new(footer: String) -> (r: StreamAssembler)
        ensures
            r.wf(),
            !r.is_closed(),
            r.upstream() == Seq::<Seq<char>>::empty(),
            r.emitted() == Seq::<Seq<char>>::empty(),
            r.footer() == footer@,
    {
        StreamAssembler {
            footer,
            closed: false,
            upstream: Ghost(Seq::empty()),
            emitted: Ghost(Seq::empty()),
        }
    }

    /// Forwards one upstream chunk, verbatim and in order.
    pub fn on_chunk(&mut self, chunk: String) -> (item: String)
        requires
            old(self).wf(),
            !old(self).is_closed(),
        ensures
            final(self).wf(),
            !final(self).is_closed(),
            item@ == chunk@,
            final(self).upstream() == old(self).upstream().push(chunk@),
            final(self).emitted() == old(self).emitted().push(item@),
            final(self).footer() == old(self).footer(),
    {
        self.upstream = Ghost(self.upstream@.push(chunk@));
        self.emitted = Ghost(self.emitted@.push(chunk@));
        chunk
    }

    /// Closes the stream: emits the footer, exactly once, as the last
    /// item. An empty footer is still an item.
    pub fn finish(&mut self) -> (item: String)
        requires
            old(self).wf(),
            !old(self).is_closed(),
        ensures
            final(self).wf(),
            final(self).is_closed(),
            item@ == old(self).footer(),
            final(self).upstream() == old(self).upstream(),
            final(self).emitted() == old(self).upstream().push(old(self).footer()),
    {
        self.closed = true;
        self.emitted = Ghost(self.emitted@.push(self.footer@));
        crate::text::clone_string(&self.footer)
    }
}

/// The stream shape a closed assembler guarantees: every upstream chunk,
/// in order, then exactly one footer item — whatever the footer holds.
pub proof fn lemma_stream_shape(a: StreamAssembler)
    requires
        a.wf(),
        a.is_closed(),
    ensures
        a.emitted().len() == a.upstream().len() + 1,
        forall|i: int| 0 <= i < a.upstream().len() ==> a.emitted()[i] == a.upstream()[i],
        a.emitted().last() == a.footer(),
{
}

} // verus!
