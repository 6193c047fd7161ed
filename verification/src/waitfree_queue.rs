use vstd::prelude::*;

verus! {

/// Steps taken going forward around a ring of `n` slots from slot `a` to slot `b`.
pub open spec fn ring_distance(a: int, b: int, n: int) -> int {
    if a <= b {
        b - a
    } else {
        b + n - a
    }
}

/// The slot reached `i` steps after slot `start` on a ring of `n` slots.
pub open spec fn ring_slot(start: int, i: int, n: int) -> int {
    if start + i < n {
        start + i
    } else {
        start + i - n
    }
}

/// What a queue holding `contents`, with room for `capacity` items, holds after
/// `value` is offered to it, and whether the value was taken.
pub open spec fn write_outcome<T>(contents: Seq<T>, capacity: int, value: T) -> (Seq<T>, bool) {
    if contents.len() < capacity {
        (contents.push(value), true)
    } else {
        (contents, false)
    }
}

/// What a queue holding `contents` holds after a read, and the value that the read hands out.
pub open spec fn read_outcome<T>(contents: Seq<T>) -> (Seq<T>, Option<T>) {
    if contents.len() == 0 {
        (contents, None)
    } else {
        (contents.drop_first(), Some(contents[0]))
    }
}

/// What a queue holding `contents`, with room for `capacity` items, holds after
/// `values` are offered to it one after another.
pub open spec fn write_all<T>(contents: Seq<T>, capacity: int, values: Seq<T>) -> Seq<T>
    decreases values.len(),
{
    if values.len() == 0 {
        contents
    } else {
        write_all(write_outcome(contents, capacity, values[0]).0, capacity, values.drop_first())
    }
}

/// The values that reads hand out, in order, from a queue holding `contents`
/// until a read finds it empty.
pub open spec fn drain<T>(contents: Seq<T>) -> Seq<T>
    decreases contents.len(),
{
    match read_outcome(contents).1 {
        Some(v) => seq![v] + drain(read_outcome(contents).0),
        None => Seq::empty(),
    }
}

/// Reads hand out what the queue holds, oldest first, and nothing else.
pub proof fn lemma_drain_is_contents<T>(contents: Seq<T>)
    ensures
        drain(contents) == contents,
    decreases contents.len(),
{
    if contents.len() > 0 {
        lemma_drain_is_contents(contents.drop_first());
        assert(seq![contents[0]] + contents.drop_first() =~= contents);
    }
}

/// First in, first out: when the values offered fit in the room left, every
/// one of them is taken, and reads then hand out the earlier contents followed
/// by the offered values in the order they were offered.
pub proof fn lemma_fifo<T>(contents: Seq<T>, capacity: int, values: Seq<T>)
    requires
        contents.len() + values.len() <= capacity,
    ensures
        write_all(contents, capacity, values) == contents + values,
        drain(write_all(contents, capacity, values)) == contents + values,
    decreases values.len(),
{
    if values.len() > 0 {
        let next = write_outcome(contents, capacity, values[0]);
        assert(next.1);
        lemma_fifo(next.0, capacity, values.drop_first());
        assert(contents.push(values[0]) + values.drop_first() =~= contents + values);
    }
    lemma_drain_is_contents(contents + values);
}

/// A write is refused exactly when the queue is at capacity, and a refused
/// write or a read of an empty queue changes nothing; no sequence of writes
/// takes a queue past its capacity.
pub proof fn lemma_bounded<T>(contents: Seq<T>, capacity: int, value: T)
    requires
        contents.len() <= capacity,
    ensures
        !write_outcome(contents, capacity, value).1 <==> contents.len() == capacity,
        !write_outcome(contents, capacity, value).1 ==> write_outcome(contents, capacity, value).0
            == contents,
        write_outcome(contents, capacity, value).0.len() <= capacity,
        read_outcome(contents).1 is None <==> contents.len() == 0,
        read_outcome(contents).1 is None ==> read_outcome(contents).0 == contents,
{
}

/// A value written to an empty queue with room for it is what the next read
/// hands out, and the queue is empty again afterwards.
pub proof fn lemma_write_then_read<T>(capacity: int, value: T)
    requires
        capacity >= 1,
    ensures
        write_outcome(Seq::<T>::empty(), capacity, value).1,
        read_outcome(write_outcome(Seq::<T>::empty(), capacity, value).0).1 == Some(value),
        read_outcome(write_outcome(Seq::<T>::empty(), capacity, value).0).0 == Seq::<T>::empty(),
{
    assert(Seq::<T>::empty().push(value).drop_first() =~= Seq::<T>::empty());
}

proof fn lemma_next_index(value: int, max: int)
    requires
        0 <= value < max,
    ensures
        (value + 1) % max == if value + 1 < max { value + 1 } else { 0 },
{
    if value + 1 < max {
        vstd::arithmetic::div_mod::lemma_small_mod((value + 1) as nat, max as nat);
    } else {
        vstd::arithmetic::div_mod::lemma_mod_self_0(max);
    }
}

/// The slot that follows `value` on a ring of `max` slots.
pub fn get_next_index(value: usize, max: usize) -> (next: usize)
    requires
        max > 0,
        value < usize::MAX,
    ensures
        next == (value + 1) % (max as int),
        value < max ==> next == if value + 1 < max { value + 1 } else { 0 },
{
    proof {
        if value < max {
            lemma_next_index(value as int, max as int);
        }
    }
    (value + 1) % max
}

/// A bounded first-in first-out queue over a ring of `SIZE` slots, with a
/// writer side (`try_write`) and a reader side (`try_read`). One slot always
/// stays free, so it holds at most `SIZE - 1` values. Each side keeps a cached
/// copy of the other side's position and only refreshes it when the cached copy
/// makes the queue look full (for the writer) or empty (for the reader).
/// The positions are plain fields and every operation takes `&mut self`: the
/// contracts describe calls made one after another by the owner, and a queue
/// shared between threads must sit behind a lock.
pub struct WaitFreeQueue<T, const SIZE: usize> {
    read_sequence: usize,
    read_sequence_cached: usize,
    write_sequence: usize,
    write_sequence_cached: usize,
    buffer: Vec<Option<T>>,
}

impl<T, const SIZE: usize> View for WaitFreeQueue<T, SIZE> {
    type V = Seq<T>;

    /// The values in the queue, oldest first.
    closed spec fn view(&self) -> Seq<T> {
        let n = SIZE as int;
        let r = self.read_sequence as int;
        Seq::new(
            ring_distance(r, self.write_sequence as int, n) as nat,
            |i: int| self.buffer@[ring_slot(r, i, n)].unwrap(),
        )
    }
}

impl<T, const SIZE: usize> WaitFreeQueue<T, SIZE> {
    /// Type invariant, kept by every operation: the positions stay on the ring,
    /// the writer's cached read position lies behind the true one, the reader's
    /// cached write position lies behind the true one, and every slot between
    /// the read and write positions is filled.
    #[verifier::type_invariant]
    pub closed spec fn wf(&self) -> bool {
        let n = SIZE as int;
        let r = self.read_sequence as int;
        let w = self.write_sequence as int;
        let cr = self.read_sequence_cached as int;
        let cw = self.write_sequence_cached as int;
        &&& self.buffer@.len() == n
        &&& if n == 0 {
            r == 0 && w == 0 && cr == 0 && cw == 0
        } else {
            &&& r < n
            &&& w < n
            &&& cr < n
            &&& cw < n
            &&& ring_distance(cr, r, n) + ring_distance(r, w, n) == ring_distance(cr, w, n)
            &&& ring_distance(r, cw, n) + ring_distance(cw, w, n) == ring_distance(r, w, n)
            &&& forall|i: int|
                0 <= i < ring_distance(r, w, n) ==> (#[trigger] self.buffer@[ring_slot(r, i, n)]) is Some
        }
    }

    /// The queue never holds more than `SIZE - 1` values.
    pub proof fn lemma_len_below_size(&self)
        requires
            self.wf(),
        ensures
            SIZE > 0 ==> self@.len() <= SIZE - 1,
            SIZE == 0 ==> self@.len() == 0,
    {
    }

    /// The writer's view of the read position: refreshed from the true read
    /// position only when the cached one equals `next_write_index`.
    fn get_read_index(&mut self, next_write_index: usize) -> (index: usize)
        ensures
            final(self).read_sequence_cached == (if old(self).read_sequence_cached == next_write_index {
                old(self).read_sequence
            } else {
                old(self).read_sequence_cached
            }),
            index == final(self).read_sequence_cached,
            final(self).read_sequence == old(self).read_sequence,
            final(self).write_sequence == old(self).write_sequence,
            final(self).write_sequence_cached == old(self).write_sequence_cached,
            final(self).buffer == old(self).buffer,
    {
        proof {
            use_type_invariant(&*self);
        }
        if self.read_sequence_cached == next_write_index {
            self.read_sequence_cached = self.read_sequence;
        }
        self.read_sequence_cached
    }

    /// The reader's view of the write position: refreshed from the true write
    /// position only when the cached one equals `next_read_index`.
    fn get_write_index(&mut self, next_read_index: usize) -> (index: usize)
        ensures
            final(self).write_sequence_cached == (if old(self).write_sequence_cached == next_read_index {
                old(self).write_sequence
            } else {
                old(self).write_sequence_cached
            }),
            index == final(self).write_sequence_cached,
            final(self).read_sequence == old(self).read_sequence,
            final(self).write_sequence == old(self).write_sequence,
            final(self).read_sequence_cached == old(self).read_sequence_cached,
            final(self).buffer == old(self).buffer,
    {
        proof {
            use_type_invariant(&*self);
        }
        if self.write_sequence_cached == next_read_index {
            self.write_sequence_cached = self.write_sequence;
        }
        self.write_sequence_cached
    }

    /// Creates an empty queue.
    pub fn new() -> (queue: Self)
        ensures
            queue@ == Seq::<T>::empty(),
    {
        let mut buffer: Vec<Option<T>> = Vec::new();
        let mut i: usize = 0;
        while i < SIZE
            invariant
                i <= SIZE,
                buffer@.len() == i,
            decreases SIZE - i,
        {
            buffer.push(None);
            i = i + 1;
        }
        let queue = WaitFreeQueue {
            buffer,
            read_sequence: 0,
            read_sequence_cached: 0,
            write_sequence: 0,
            write_sequence_cached: 0,
        };
        assert(queue@ =~= Seq::<T>::empty());
        queue
    }

    /// Tries to write a value to the queue. Returns `false`, and leaves the
    /// queue as it was, when it already holds `SIZE - 1` values.
    pub fn try_write(&mut self, value: T) -> (written: bool)
        requires
            SIZE > 0,
        ensures
            (final(self)@, written) == write_outcome(old(self)@, SIZE - 1, value),
    {
        proof {
            use_type_invariant(&*self);
        }
        let ghost n = SIZE as int;
        let ghost r = self.read_sequence as int;
        let ghost w = self.write_sequence as int;
        let ghost old_view = self@;
        let write_index = self.write_sequence;
        let next_write_index = get_next_index(write_index, SIZE);
        let read_index = self.get_read_index(next_write_index);
        if next_write_index == read_index {
            return false;
        }
        self.buffer[write_index] = Some(value);
        self.write_sequence = next_write_index;
        assert forall|i: int| 0 <= i < ring_distance(r, w, n) implies ring_slot(r, i, n) != w by {}
        assert(self@ =~= old_view.push(value));
        true
    }

    /// Tries to read a value from the queue. Returns `None`, and leaves the
    /// queue's contents as they were, when it is empty; otherwise hands out
    /// the oldest value, which leaves the queue.
    pub fn try_read(&mut self) -> (value: Option<&mut T>)
        ensures
            final(self)@ == read_outcome(old(self)@).0,
            (match value {
                Some(v) => read_outcome(old(self)@).1 == Some(*v),
                None => read_outcome(old(self)@).1 == None::<T>,
            }),
    {
        proof {
            use_type_invariant(&*self);
        }
        let ghost n = SIZE as int;
        let ghost r = self.read_sequence as int;
        let ghost w = self.write_sequence as int;
        let read_index = self.read_sequence;
        let write_index = self.get_write_index(read_index);
        if read_index == write_index {
            return None;
        }
        let next_read_index = get_next_index(read_index, SIZE);
        let ghost r2 = next_read_index as int;
        let ghost d = ring_distance(r, w, n);
        assert forall|i: int| 0 <= i < d - 1 implies (#[trigger] self.buffer@[ring_slot(r2, i, n)]) is Some by {
            assert(self.buffer@[ring_slot(r, i + 1, n)] is Some);
        }
        self.read_sequence = next_read_index;
        let result = self.buffer[read_index].as_mut();
        result
    }
}

} // verus!
