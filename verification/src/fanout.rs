use vstd::prelude::*;

verus! {

/// A chunk of output as a mathematical value.
pub type Chunk = Seq<u8>;

/// The output of a session as a mathematical value: every chunk that was
/// ever published, in order, and how many of the newest are retained.
pub struct Stream {
    pub published: Seq<Chunk>,
    pub capacity: usize,
}

impl Stream {
    /// The number of the oldest chunk that is still retained: chunks are
    /// numbered from zero in the order in which they were published.
    pub open spec fn oldest(self) -> int {
        if self.published.len() > self.capacity {
            self.published.len() - self.capacity
        } else {
            0
        }
    }

    /// The number of the first chunk that a subscriber at `cursor` gets: its
    /// cursor, or the oldest retained chunk where it has fallen behind.
    pub open spec fn resume_at(self, cursor: u64) -> int {
        if cursor > self.published.len() {
            self.published.len() as int
        } else if cursor < self.oldest() {
            self.oldest()
        } else {
            cursor as int
        }
    }

    /// The chunks that a subscriber at `cursor` gets.
    pub open spec fn pending(self, cursor: u64) -> Seq<Chunk> {
        self.published.subrange(self.resume_at(cursor), self.published.len() as int)
    }

    /// The number of chunks that a subscriber at `cursor` has lost: those
    /// that were dropped before it came for them.
    pub open spec fn missed(self, cursor: u64) -> int {
        if cursor < self.oldest() {
            self.oldest() - cursor
        } else {
            0
        }
    }

    /// The stream after `more` chunks were published.
    pub open spec fn after(self, more: Seq<Chunk>) -> Stream {
        Stream { published: self.published + more, ..self }
    }
}

/// The chunks of `chunks` as mathematical values.
pub open spec fn chunks_view(chunks: Vec<Vec<u8>>) -> Seq<Chunk> {
    Seq::new(chunks@.len(), |i: int| chunks@[i]@)
}

/// What a subscriber gets when it comes for output.
pub struct Received {
    /// The chunks, oldest first.
    pub chunks: Vec<Vec<u8>>,
    /// The subscriber's new cursor.
    pub next: u64,
    /// The number of chunks that were dropped before the subscriber came
    /// for them.
    pub missed: u64,
}

/// The fan-out of a session's output to its subscribers. The newest
/// chunks are retained, up to a capacity; when a chunk is published beyond
/// it, the oldest retained chunk is dropped. A subscriber is a cursor, the
/// number of the next chunk it is owed: it never holds the publisher up,
/// and it loses chunks only by falling behind by more than the capacity.
pub struct Fanout {
    pub(crate) chunks: Vec<Vec<u8>>,
    pub(crate) first: u64,
    pub(crate) capacity: usize,
    pub(crate) published: Ghost<Seq<Chunk>>,
}

/// A copy of `chunk`.
fn copy_chunk(chunk: &Vec<u8>) -> (copy: Vec<u8>)
    ensures
        copy@ == chunk@,
{
    let mut copy: Vec<u8> = Vec::new();
    let mut i: usize = 0;
    while i < chunk.len()
        invariant
            i <= chunk@.len(),
            copy@ == chunk@.subrange(0, i as int),
        decreases chunk@.len() - i,
    {
        copy.push(chunk[i]);
        i += 1;
        assert(copy@ =~= chunk@.subrange(0, i as int));
    }
    assert(chunk@.subrange(0, chunk@.len() as int) =~= chunk@);
    copy
}

impl Fanout {
    /// The stream as a mathematical value.
    pub open(crate) spec fn view(&self) -> Stream {
        Stream { published: self.published@, capacity: self.capacity }
    }

    /// The retained chunks are the newest of the published ones.
    pub open(crate) spec fn wf(&self) -> bool {
        &&& self.published@.len() <= u64::MAX
        &&& self.first == self@.oldest()
        &&& chunks_view(self.chunks) == self.published@.subrange(
            self@.oldest(),
            self.published@.len() as int,
        )
    }

    /// An empty stream that retains up to `capacity` chunks.
    pub fn new(capacity: usize) -> (f: Fanout)
        ensures
            f.wf(),
            f@ == (Stream { published: Seq::empty(), capacity }),
    {
        let f = Fanout { chunks: Vec::new(), first: 0, capacity, published: Ghost(Seq::empty()) };
        assert(chunks_view(f.chunks) =~= f.published@.subrange(0, 0));
        f
    }

    /// Publishes `chunk` to every subscriber, present and future ones
    /// from now on. Where that exceeds the capacity, the oldest retained
    /// chunk is dropped. Returns `false`, and changes nothing, only where
    /// the chunks can be numbered no further.
    pub fn publish(&mut self, chunk: Vec<u8>) -> (done: bool)
        requires
            old(self).wf(),
        ensures
            final(self).wf(),
            done == (old(self)@.published.len() < u64::MAX),
            done ==> final(self)@ == old(self)@.after(seq![chunk@]),
            !done ==> final(self)@ == old(self)@,
    {
        assert(chunks_view(self.chunks).len() == self.chunks@.len());
        if self.chunks.len() as u64 >= u64::MAX - self.first {
            return false;
        }
        let ghost before = self.published@;
        let ghost kept = chunks_view(self.chunks);
        self.chunks.push(chunk);
        assert(chunks_view(self.chunks) =~= kept.push(chunk@));
        proof {
            self.published@ = before.push(chunk@);
            assert(before.push(chunk@) =~= before + seq![chunk@]);
        }
        if self.chunks.len() > self.capacity {
            self.chunks.remove(0);
            self.first = self.first + 1;
            assert(chunks_view(self.chunks) =~= kept.push(chunk@).subrange(1, kept.len() as int + 1));
        }
        assert(chunks_view(self.chunks) =~= self.published@.subrange(
            self@.oldest(),
            self.published@.len() as int,
        ));
        true
    }

    /// The number of chunks published so far.
    pub fn published_count(&self) -> (n: u64)
        requires
            self.wf(),
        ensures
            n == self@.published.len(),
    {
        assert(chunks_view(self.chunks).len() == self.chunks@.len());
        self.first + self.chunks.len() as u64
    }

    /// A new subscriber: the cursor of one that is owed every chunk
    /// published from now on.
    pub fn subscribe(&self) -> (cursor: u64)
        requires
            self.wf(),
        ensures
            cursor == self@.published.len(),
            self@.pending(cursor) == Seq::<Chunk>::empty(),
            self@.missed(cursor) == 0,
    {
        let cursor = self.published_count();
        assert(self@.pending(cursor) =~= Seq::<Chunk>::empty());
        cursor
    }

    /// What the subscriber at `cursor` is owed: the chunks from its cursor
    /// on, or from the oldest retained chunk where it has fallen behind,
    /// with the number of chunks it has lost. The stream is not changed:
    /// what one subscriber takes, every other still gets.
    pub fn receive(&self, cursor: u64) -> (r: Received)
        requires
            self.wf(),
        ensures
            chunks_view(r.chunks) == self@.pending(cursor),
            r.missed == self@.missed(cursor),
            r.next == if cursor > self@.published.len() {
                cursor
            } else {
                self@.published.len() as u64
            },
    {
        let end = self.published_count();
        let mut chunks: Vec<Vec<u8>> = Vec::new();
        if cursor > end {
            assert(chunks_view(chunks) =~= self@.pending(cursor));
            return Received { chunks, next: cursor, missed: 0 };
        }
        let missed: u64 = if cursor < self.first { self.first - cursor } else { 0 };
        let from: u64 = if cursor < self.first { self.first } else { cursor };
        let start: usize = (from - self.first) as usize;
        let mut i: usize = start;
        assert(chunks_view(self.chunks).len() == self.chunks@.len());
        assert(chunks_view(chunks) =~= self.published@.subrange(from as int, from as int));
        while i < self.chunks.len()
            invariant
                self.wf(),
                start <= i <= self.chunks@.len(),
                start == from - self.first,
                self.first + self.chunks@.len() == self.published@.len(),
                chunks_view(chunks) == self.published@.subrange(from as int, self.first + i),
            decreases self.chunks@.len() - i,
        {
            let ghost got = chunks_view(chunks);
            let copy = copy_chunk(&self.chunks[i]);
            assert(copy@ == chunks_view(self.chunks)[i as int]);
            assert(copy@ == self.published@[self.first + i]);
            chunks.push(copy);
            assert(chunks_view(chunks) =~= got.push(copy@));
            i += 1;
            assert(chunks_view(chunks) =~= self.published@.subrange(from as int, self.first + i));
        }
        Received { chunks, next: end, missed }
    }
}

/// A subscriber that comes for output before more chunks were published
/// than the stream retains gets every chunk published since it subscribed,
/// in order, and has lost none; and this holds of every subscriber,
/// whatever the others do, since coming for output does not change the
/// stream.
pub proof fn law_subscriber_gets_everything(s: Stream, more: Seq<Chunk>)
    requires
        s.published.len() + more.len() <= u64::MAX,
        more.len() <= s.capacity,
    ensures
        s.after(more).pending(s.published.len() as u64) == more,
        s.after(more).missed(s.published.len() as u64) == 0,
{
    let t = s.after(more);
    assert(t.pending(s.published.len() as u64) =~= more);
}

/// What two visits of a subscriber give, the second from the cursor
/// that the first left, is what one visit at the end gives, as long as the
/// subscriber does not fall behind.
pub proof fn law_receive_in_steps(s: Stream, cursor: u64, more: Seq<Chunk>)
    requires
        s.published.len() + more.len() <= u64::MAX,
        cursor <= s.published.len(),
        s.after(more).missed(cursor) == 0,
    ensures
        s.pending(cursor) + s.after(more).pending(s.published.len() as u64) == s.after(more).pending(
            cursor,
        ),
{
    let t = s.after(more);
    assert(s.pending(cursor) + t.pending(s.published.len() as u64) =~= t.pending(cursor));
}

} // verus!
