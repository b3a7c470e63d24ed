use vstd::prelude::*;

verus! {

/// A fixed-capacity byte buffer that collects bytes until they are read out
/// all at once.  Bytes pushed once the buffer is full are dropped.
#[derive(Clone, Copy)]
pub struct RingBuf<const SIZE: usize> {
    pub start: usize,
    pub end: usize,
    pub buf: [u8; SIZE],
}

impl<const SIZE: usize> RingBuf<SIZE> {
    /// The buffer's invariant: the unread bytes are `buf[start..end]`.
    pub open spec fn wf(&self) -> bool {
        self.start <= self.end <= SIZE
    }

    /// The bytes waiting to be read.
    pub open spec fn contents(&self) -> Seq<u8> {
        self.buf@.subrange(self.start as int, self.end as int)
    }

    /// An empty buffer filled with zeros.
    pub fn new() -> (r: Self)
        ensures
            r.wf(),
            r.start == 0,
            r.end == 0,
            r.contents() == Seq::<u8>::empty(),
            forall|i: int| 0 <= i < SIZE ==> r.buf@[i] == 0u8,
    {
        RingBuf { start: 0, end: 0, buf: [0u8; SIZE] }
    }

    /// Appends `value` when there is room; a full buffer is left unchanged.
    pub fn push(&mut self, value: u8)
        requires
            old(self).wf(),
        ensures
            final(self).wf(),
            final(self).start == old(self).start,
            old(self).end < SIZE ==> final(self).end == old(self).end + 1
                && final(self).buf@ == old(self).buf@.update(old(self).end as int, value),
            old(self).end >= SIZE ==> *final(self) == *old(self),
            final(self).contents() == after_push(
                old(self).contents(),
                old(self).end as nat,
                SIZE as nat,
                value,
            ),
            push_step(*old(self), *final(self), value),
    {
        if self.end < SIZE {
            self.buf[self.end] = value;
            self.end = self.end + 1;
        }
        proof {
            if old(self).end < SIZE {
                assert(self.contents() =~= old(self).contents().push(value));
            }
        }
    }

    /// Hands out the unread bytes and empties the buffer.
    pub fn read(&mut self) -> (out: Vec<u8>)
        requires
            old(self).wf(),
        ensures
            out@ == old(self).contents(),
            final(self).wf(),
            final(self).start == 0,
            final(self).end == 0,
            final(self).buf == old(self).buf,
            read_step(*old(self), *final(self), out@),
    {
        let mut out: Vec<u8> = Vec::new();
        let mut i: usize = self.start;
        while i < self.end
            invariant
                self.wf(),
                self.start <= i <= self.end,
                out@ == self.buf@.subrange(self.start as int, i as int),
            decreases self.end - i,
        {
            out.push(self.buf[i]);
            i = i + 1;
            proof {
                assert(out@ =~= self.buf@.subrange(self.start as int, i as int));
            }
        }
        self.start = 0;
        self.end = 0;
        out
    }

    /// The same as [`RingBuf::new`].
    pub fn default() -> (r: Self)
        ensures
            r.wf(),
            r.start == 0,
            r.end == 0,
            forall|i: int| 0 <= i < SIZE ==> r.buf@[i] == 0u8,
    {
        RingBuf { start: 0, end: 0, buf: [0u8; SIZE] }
    }
}

/// How one `push` of `value` moves a buffer from `before` to `after`: the
/// byte is stored at the end and the end advances while there is room; a full
/// buffer stays as it is.
pub open spec fn push_step<const SIZE: usize>(before: RingBuf<SIZE>, after: RingBuf<SIZE>, value: u8) -> bool {
    &&& after.wf()
    &&& after.start == before.start
    &&& before.end < SIZE ==> after.end == before.end + 1 && after.buf@ == before.buf@.update(before.end as int, value)
    &&& before.end >= SIZE ==> after == before
}

/// How one `read` that hands out `out` moves a buffer from `before` to
/// `after`: it hands out the unread bytes and empties the buffer.
pub open spec fn read_step<const SIZE: usize>(before: RingBuf<SIZE>, after: RingBuf<SIZE>, out: Seq<u8>) -> bool {
    &&& out == before.contents()
    &&& after.wf()
    &&& after.start == 0
    &&& after.end == 0
    &&& after.buf == before.buf
}

/// How many of `n` pushes a buffer of capacity `cap` keeps.
pub open spec fn kept(n: int, cap: int) -> int {
    if n < cap {
        n
    } else {
        cap
    }
}

/// A buffer's unread bytes after one push, given its capacity and how
/// far its end already is.
pub open spec fn after_push(contents: Seq<u8>, end: nat, cap: nat, value: u8) -> Seq<u8> {
    if end < cap {
        contents.push(value)
    } else {
        contents
    }
}

/// Unread bytes after pushing each byte of `pushed` in turn into a buffer that
/// starts at index 0.
pub open spec fn after_pushes(contents: Seq<u8>, cap: nat, pushed: Seq<u8>) -> Seq<u8>
    decreases pushed.len(),
{
    if pushed.len() == 0 {
        contents
    } else {
        let prev = after_pushes(contents, cap, pushed.drop_last());
        after_push(prev, prev.len(), cap, pushed.last())
    }
}

/// What a read gives back of the writes: pushing bytes that fit and then
/// reading yields the earlier unread bytes followed by exactly the pushed
/// bytes, in order.
pub proof fn lemma_read_returns_pushes(contents: Seq<u8>, cap: nat, pushed: Seq<u8>)
    requires
        contents.len() + pushed.len() <= cap,
    ensures
        after_pushes(contents, cap, pushed) == contents + pushed,
    decreases pushed.len(),
{
    if pushed.len() > 0 {
        lemma_read_returns_pushes(contents, cap, pushed.drop_last());
        assert(contents + pushed.drop_last() + seq![pushed.last()] =~= contents + pushed);
        assert((contents + pushed.drop_last()).push(pushed.last()) =~= contents + pushed);
    }
}

/// What a read gives back of the pushes made before it, for the calls
/// themselves: pushing bytes one by one into an empty buffer (each step as
/// [`RingBuf::push`] states it) and then reading hands out the first of them,
/// as many as the buffer holds, in order; the read empties the buffer, so a
/// second read hands out nothing.
pub proof fn lemma_pushes_then_reads<const SIZE: usize>(
    states: Seq<RingBuf<SIZE>>,
    pushed: Seq<u8>,
    out: Seq<u8>,
    after: RingBuf<SIZE>,
    out2: Seq<u8>,
    after2: RingBuf<SIZE>,
)
    requires
        states.len() == pushed.len() + 1,
        states[0].wf(),
        states[0].start == 0,
        states[0].end == 0,
        forall|i: int| 0 <= i < pushed.len() ==> #[trigger] push_step(states[i], states[i + 1], pushed[i]),
        read_step(states.last(), after, out),
        read_step(after, after2, out2),
    ensures
        out == pushed.take(kept(pushed.len() as int, SIZE as int)),
        out2 == Seq::<u8>::empty(),
{
    lemma_push_prefix(states, pushed, pushed.len() as int);
    assert(after.contents() =~= Seq::<u8>::empty());
}

proof fn lemma_push_prefix<const SIZE: usize>(states: Seq<RingBuf<SIZE>>, pushed: Seq<u8>, n: int)
    requires
        states.len() == pushed.len() + 1,
        states[0].wf(),
        states[0].start == 0,
        states[0].end == 0,
        forall|i: int| 0 <= i < pushed.len() ==> #[trigger] push_step(states[i], states[i + 1], pushed[i]),
        0 <= n <= pushed.len(),
    ensures
        states[n].wf(),
        states[n].start == 0,
        states[n].end == kept(n, SIZE as int),
        states[n].contents() == pushed.take(kept(n, SIZE as int)),
    decreases n,
{
    if n == 0 {
        assert(states[0].contents() =~= pushed.take(0));
    } else {
        lemma_push_prefix(states, pushed, n - 1);
        let k = n - 1;
        assert(push_step(states[k], states[k + 1], pushed[k]));
        let b = states[k];
        let a = states[n];
        if b.end < SIZE {
            assert(a.contents() =~= b.contents().push(pushed[n - 1]));
            assert(pushed.take(n) =~= pushed.take(n - 1).push(pushed[n - 1]));
        }
    }
}

/// Once full, the buffer ignores further pushes.
pub proof fn lemma_full_buffer_ignores_pushes(contents: Seq<u8>, cap: nat, pushed: Seq<u8>)
    requires
        contents.len() >= cap,
    ensures
        after_pushes(contents, cap, pushed) == contents,
    decreases pushed.len(),
{
    if pushed.len() > 0 {
        lemma_full_buffer_ignores_pushes(contents, cap, pushed.drop_last());
    }
}

} // verus!
