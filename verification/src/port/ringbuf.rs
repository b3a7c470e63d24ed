use vstd::prelude::*;

verus! {

/// Values that a [`RingBuf`] can hold: copyable, with a fill value for empty
/// slots and an equality test.
pub trait TraitBound: Sized + Copy {
    /// The value that fills a fresh buffer.
    spec fn spec_fill_value() -> Self;

    fn fill_value() -> (r: Self)
        ensures
            r == Self::spec_fill_value(),
    ;

    fn same(&self, other: &Self) -> (r: bool)
        ensures
            r == (*self == *other),
    ;
}

impl TraitBound for u8 {
    open spec fn spec_fill_value() -> u8 {
        0
    }

    fn fill_value() -> (r: u8) {
        0
    }

    fn same(&self, other: &u8) -> (r: bool) {
        *self == *other
    }
}

/// A line buffer: values are pushed one by one and read out only once the
/// last one pushed is the termination value.  Once the buffer is full, the
/// last slot is overwritten by every further push and not counted as read
/// content.
#[derive(Clone, Copy)]
pub struct RingBuf<const SIZE: usize, T: TraitBound> {
    pub start: usize,
    pub end: usize,
    pub buf: [T; SIZE],
    pub termination: T,
}

/// Unread contents after one push, for a buffer whose unread part ends at
/// `end` and that has `cap` slots.
pub open spec fn after_push<T>(contents: Seq<T>, end: nat, cap: nat, value: T) -> Seq<T> {
    if end + 1 != cap {
        contents.push(value)
    } else {
        contents
    }
}

/// How one `push` of `value` moves a buffer from `before` to `after`: the
/// value is stored at the end, and the end advances unless it would reach the
/// last slot.
pub open spec fn push_step<const SIZE: usize, T: TraitBound>(
    before: RingBuf<SIZE, T>,
    after: RingBuf<SIZE, T>,
    value: T,
) -> bool {
    &&& after.wf()
    &&& after.start == before.start
    &&& after.termination == before.termination
    &&& after.buf@ == before.buf@.update(before.end as int, value)
    &&& after.end == if before.end + 1 != SIZE {
        before.end + 1
    } else {
        before.end as int
    }
}

/// The values a read handed out, if any.
pub open spec fn out_view<T>(out: Option<Vec<T>>) -> Option<Seq<T>> {
    match out {
        Some(v) => Some(v@),
        None => None,
    }
}

/// How one `read` that hands out `out` moves a buffer from `before` to
/// `after`: when the unread values end with the termination value they are
/// handed out and the buffer is emptied; otherwise nothing changes.
pub open spec fn read_step<const SIZE: usize, T: TraitBound>(
    before: RingBuf<SIZE, T>,
    after: RingBuf<SIZE, T>,
    out: Option<Seq<T>>,
) -> bool {
    &&& after.wf()
    &&& after.buf == before.buf
    &&& after.termination == before.termination
    &&& out == read_result(before.contents(), before.termination)
    &&& out is Some ==> after.start == 0 && after.end == 0
    &&& out is None ==> after == before
}

/// What a read hands out: the unread values when there are some and the last
/// one is the termination value.
pub open spec fn read_result<T>(contents: Seq<T>, termination: T) -> Option<Seq<T>> {
    if contents.len() > 0 && contents.last() == termination {
        Some(contents)
    } else {
        None
    }
}

impl<const SIZE: usize, T: TraitBound> RingBuf<SIZE, T> {
    pub open spec fn wf(&self) -> bool {
        self.start <= self.end < SIZE
    }

    pub open spec fn contents(&self) -> Seq<T> {
        self.buf@.subrange(self.start as int, self.end as int)
    }

    /// An empty buffer with the given termination value, every slot holding
    /// the fill value.
    pub fn new(termination: T) -> (r: Self)
        ensures
            SIZE > 0 ==> r.wf(),
            r.start == 0,
            r.end == 0,
            r.termination == termination,
            r.contents() == Seq::<T>::empty(),
            forall|i: int| 0 <= i < SIZE ==> r.buf@[i] == T::spec_fill_value(),
    {
        let fill = T::fill_value();
        let buf = [fill; SIZE];
        RingBuf { start: 0, end: 0, buf, termination }
    }

    /// The same as `new` with the fill value as termination.
    pub fn default() -> (r: Self)
        ensures
            SIZE > 0 ==> r.wf(),
            r.start == 0,
            r.end == 0,
            r.termination == T::spec_fill_value(),
            r.contents() == Seq::<T>::empty(),
            forall|i: int| 0 <= i < SIZE ==> r.buf@[i] == T::spec_fill_value(),
    {
        let fill = T::fill_value();
        Self::new(fill)
    }

    /// Writes `value` at the end and advances the end unless it would reach
    /// the last slot.
    pub fn push(&mut self, value: T)
        requires
            old(self).wf(),
        ensures
            final(self).wf(),
            final(self).start == old(self).start,
            final(self).termination == old(self).termination,
            final(self).buf@ == old(self).buf@.update(old(self).end as int, value),
            final(self).end == if old(self).end + 1 != SIZE {
                old(self).end + 1
            } else {
                old(self).end as int
            },
            final(self).contents() == after_push(
                old(self).contents(),
                old(self).end as nat,
                SIZE as nat,
                value,
            ),
            push_step(*old(self), *final(self), value),
    {
        self.buf[self.end] = value;
        if self.end + 1 != SIZE {
            self.end = self.end + 1;
        }
        proof {
            if old(self).end + 1 != SIZE {
                assert(self.contents() =~= old(self).contents().push(value));
            } else {
                assert(self.contents() =~= old(self).contents());
            }
        }
    }

    /// Hands out the unread values and empties the buffer when the last of
    /// them is the termination value; otherwise leaves it as it is.
    pub fn read(&mut self) -> (out: Option<Vec<T>>)
        requires
            old(self).wf(),
        ensures
            final(self).wf(),
            final(self).buf == old(self).buf,
            final(self).termination == old(self).termination,
            match out {
                Some(v) => Some(v@) == read_result(old(self).contents(), old(self).termination)
                    && final(self).start == 0 && final(self).end == 0,
                None => read_result(old(self).contents(), old(self).termination) is None
                    && *final(self) == *old(self),
            },
            read_step(*old(self), *final(self), out_view(out)),
    {
        if self.end != self.start && self.buf[self.end - 1].same(&self.termination) {
            let mut out: Vec<T> = Vec::new();
            let mut i: usize = self.start;
            while i < self.end
                invariant
                    self.wf(),
                    self.start <= i <= self.end,
                    out@ == self.buf@.subrange(self.start as int, i as int),
                decreases self.end - i,
            {
                out.push(self.buf[i]);
                i = i + 1;
                proof {
                    assert(out@ =~= self.buf@.subrange(self.start as int, i as int));
                }
            }
            self.start = 0;
            self.end = 0;
            Some(out)
        } else {
            None
        }
    }

    /// Empties the buffer.
    pub fn flush(&mut self)
        requires
            old(self).wf(),
        ensures
            final(self).wf(),
            final(self).start == 0,
            final(self).end == 0,
            final(self).buf == old(self).buf,
            final(self).termination == old(self).termination,
    {
        self.start = 0;
        self.end = 0;
    }

    /// The value in slot `index`.
    pub fn at(&self, index: usize) -> (r: T)
        requires
            index < SIZE,
        ensures
            r == self.buf@[index as int],
    {
        self.buf[index]
    }
}

/// Unread contents after pushing each value of `pushed` in turn into a buffer
/// that starts at slot 0.
pub open spec fn after_pushes<T>(contents: Seq<T>, cap: nat, pushed: Seq<T>) -> Seq<T>
    decreases pushed.len(),
{
    if pushed.len() == 0 {
        contents
    } else {
        let prev = after_pushes(contents, cap, pushed.drop_last());
        after_push(prev, prev.len(), cap, pushed.last())
    }
}

/// What a read gives back of the writes: values pushed into a buffer that
/// starts at slot 0 and never reaches its last slot come out of the next read
/// exactly, in order, when the last of them is the termination value.
pub proof fn lemma_read_returns_pushes<T>(
    contents: Seq<T>,
    cap: nat,
    pushed: Seq<T>,
    termination: T,
)
    requires
        contents.len() + pushed.len() < cap,
        pushed.len() > 0,
        pushed.last() == termination,
    ensures
        after_pushes(contents, cap, pushed) == contents + pushed,
        read_result(after_pushes(contents, cap, pushed), termination) == Some(contents + pushed),
{
    lemma_pushes_fit(contents, cap, pushed);
}

/// What a read gives back of the pushes made before it, for the calls
/// themselves: pushing between one value and one less than the capacity into
/// an empty buffer (each step as [`RingBuf::push`] states it) and then
/// reading hands out exactly the pushed values, in order, when the last of
/// them is the termination value, and nothing otherwise; after a read that
/// handed values out, the next read hands out nothing.
pub proof fn lemma_pushes_then_reads<const SIZE: usize, T: TraitBound>(
    states: Seq<RingBuf<SIZE, T>>,
    pushed: Seq<T>,
    out: Option<Seq<T>>,
    after: RingBuf<SIZE, T>,
    out2: Option<Seq<T>>,
    after2: RingBuf<SIZE, T>,
)
    requires
        1 <= pushed.len() < SIZE,
        states.len() == pushed.len() + 1,
        states[0].wf(),
        states[0].start == 0,
        states[0].end == 0,
        forall|i: int| 0 <= i < pushed.len() ==> #[trigger] push_step(states[i], states[i + 1], pushed[i]),
        read_step(states.last(), after, out),
        read_step(after, after2, out2),
    ensures
        out == (if pushed.last() == states[0].termination {
            Some(pushed)
        } else {
            None::<Seq<T>>
        }),
        out is Some ==> out2 is None,
{
    lemma_push_prefix(states, pushed, pushed.len() as int);
    if out is Some {
        assert(after.contents() =~= Seq::<T>::empty());
    }
}

proof fn lemma_push_prefix<const SIZE: usize, T: TraitBound>(states: Seq<RingBuf<SIZE, T>>, pushed: Seq<T>, n: int)
    requires
        pushed.len() < SIZE,
        states.len() == pushed.len() + 1,
        states[0].wf(),
        states[0].start == 0,
        states[0].end == 0,
        forall|i: int| 0 <= i < pushed.len() ==> #[trigger] push_step(states[i], states[i + 1], pushed[i]),
        0 <= n <= pushed.len(),
    ensures
        states[n].wf(),
        states[n].start == 0,
        states[n].end == n,
        states[n].termination == states[0].termination,
        states[n].contents() == pushed.take(n),
    decreases n,
{
    if n == 0 {
        assert(states[0].contents() =~= pushed.take(0));
    } else {
        lemma_push_prefix(states, pushed, n - 1);
        let k = n - 1;
        assert(push_step(states[k], states[k + 1], pushed[k]));
        assert(states[n].contents() =~= states[k].contents().push(pushed[k]));
        assert(pushed.take(n) =~= pushed.take(k).push(pushed[k]));
    }
}

proof fn lemma_pushes_fit<T>(contents: Seq<T>, cap: nat, pushed: Seq<T>)
    requires
        contents.len() + pushed.len() < cap,
    ensures
        after_pushes(contents, cap, pushed) == contents + pushed,
    decreases pushed.len(),
{
    if pushed.len() > 0 {
        lemma_pushes_fit(contents, cap, pushed.drop_last());
        assert((contents + pushed.drop_last()).push(pushed.last()) =~= contents + pushed);
    }
}

} // verus!
