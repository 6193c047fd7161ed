use vstd::prelude::*;

verus! {

/// What a channel whose pending value is `pending` holds after `value` is
/// offered to it, and whether the value was taken.
pub open spec fn send_outcome<T>(pending: Option<T>, value: T) -> (Option<T>, bool) {
    match pending {
        Some(p) => (Some(p), false),
        None => (Some(value), true),
    }
}

/// What a channel whose pending value is `pending` holds after a receive, and
/// the value that the receive hands out.
pub open spec fn recv_outcome<T>(pending: Option<T>) -> (Option<T>, Option<T>) {
    (None, pending)
}

/// A value sent into an empty channel is what the next receive hands out, and
/// a receive after that finds the channel empty.
pub proof fn lemma_send_then_recv<T>(value: T)
    ensures
        send_outcome(None::<T>, value) == (Some(value), true),
        recv_outcome(send_outcome(None::<T>, value).0) == (None::<T>, Some(value)),
        recv_outcome(recv_outcome(send_outcome(None::<T>, value).0).0).1 == None::<T>,
{
}

/// While a sent value waits for the reader, every further send is refused and
/// the waiting value stays as it was.
pub proof fn lemma_busy_channel_refuses<T>(pending: T, value: T)
    ensures
        send_outcome(Some(pending), value) == (Some(pending), false),
{
}

/// A reusable channel that hands one value at a time from a writer to a reader.
/// It stores values in two slots, used in turn, so that the slot holding the
/// value last handed to the reader is never the one the next send fills.
/// The published slot is a plain field, and the reader and writer handles each
/// borrow the channel exclusively, so only one of them is in use at a time; the
/// contracts describe sends and receives made one after another.
pub struct AtomicChannel<T> {
    values: Vec<Option<T>>,
    index: usize,
    published: Option<usize>,
}

impl<T> View for AtomicChannel<T> {
    type V = Option<T>;

    /// The value sent and not yet received, if any.
    closed spec fn view(&self) -> Option<T> {
        match self.published {
            Some(k) => self.values@[k as int],
            None => None,
        }
    }
}

impl<T> AtomicChannel<T> {
    /// Type invariant, kept by every operation: two slots; the next send fills
    /// slot `index`; a published value sits in the other slot.
    #[verifier::type_invariant]
    pub closed spec fn wf(&self) -> bool {
        &&& self.values@.len() == 2
        &&& self.index < 2
        &&& match self.published {
            Some(k) => k == 1 - self.index && self.values@[k as int] is Some,
            None => true,
        }
    }

    /// The slot that the next successful send fills.
    pub closed spec fn next_slot(&self) -> int {
        self.index as int
    }

    /// The content of slot `k` (0 or 1).
    pub closed spec fn slot(&self, k: int) -> Option<T> {
        self.values@[k]
    }

    /// The slot of the value waiting for the reader, if any.
    pub closed spec fn published_slot(&self) -> Option<int> {
        match self.published {
            Some(k) => Some(k as int),
            None => None,
        }
    }

    /// The value waiting for the reader sits in the slot that the next send
    /// does not fill, and a value waits exactly when a slot is published.
    pub proof fn lemma_published_slot_is_spared(&self)
        requires
            self.wf(),
        ensures
            0 <= self.next_slot() < 2,
            self@ is Some <==> self.published_slot() is Some,
            self.published_slot() matches Some(k) ==> k == 1 - self.next_slot() && k != self.next_slot()
                && self.slot(k) == self@,
    {
    }

    /// Creates an empty channel.
    pub fn new() -> (channel: Self)
        ensures
            channel@ == None::<T>,
            channel.next_slot() == 0,
            channel.slot(0) == None::<T>,
            channel.slot(1) == None::<T>,
    {
        let mut values: Vec<Option<T>> = Vec::new();
        values.push(None);
        values.push(None);
        AtomicChannel { values, index: 0, published: None }
    }

    /// Returns a reader for the channel.
    pub fn get_reader(&mut self) -> (reader: AtomicChannelReader<'_, T>)
        ensures
            *reader.channel == *old(self),
            *final(self) == *final(reader.channel),
    {
        AtomicChannelReader { channel: self }
    }

    /// Returns a writer for the channel.
    pub fn get_writer(&mut self) -> (writer: AtomicChannelWriter<'_, T>)
        ensures
            *writer.channel == *old(self),
            *final(self) == *final(writer.channel),
    {
        AtomicChannelWriter { channel: self }
    }
}

/// A reader for the `AtomicChannel`.
pub struct AtomicChannelReader<'a, T> {
    pub channel: &'a mut AtomicChannel<T>,
}

impl<'a, T> AtomicChannelReader<'a, T> {
    /// Receives a value from the channel and returns a reference to it, or
    /// `None` when the channel is empty. The value leaves the channel; its
    /// slot is the one the next send does not fill.
    pub fn recv(&mut self) -> (value: Option<&mut T>)
        ensures
            *final(final(self).channel) == *final(old(self).channel),
            final(self).channel@ == recv_outcome(old(self).channel@).0,
            (match value {
                Some(v) => recv_outcome(old(self).channel@).1 == Some(*v)
                    && old(self).channel.slot(1 - old(self).channel.next_slot()) == Some(*v),
                None => recv_outcome(old(self).channel@).1 == None::<T>,
            }),
            final(self).channel.next_slot() == old(self).channel.next_slot(),
            final(self).channel.slot(old(self).channel.next_slot())
                == old(self).channel.slot(old(self).channel.next_slot()),
    {
        proof {
            use_type_invariant(&*self.channel);
        }
        let val = self.channel.published;
        self.channel.published = None;
        match val {
            None => None,
            Some(k) => self.channel.values[k].as_mut(),
        }
    }
}

/// A writer for the `AtomicChannel`.
pub struct AtomicChannelWriter<'a, T> {
    pub channel: &'a mut AtomicChannel<T>,
}

impl<'a, T> AtomicChannelWriter<'a, T> {
    /// Sends a value to the channel. Returns `false`, and leaves the channel
    /// as it was, when a value sent earlier has not been received yet.
    pub fn send(&mut self, value: T) -> (sent: bool)
        ensures
            *final(final(self).channel) == *final(old(self).channel),
            (final(self).channel@, sent) == send_outcome(old(self).channel@, value),
            !sent ==> *final(self).channel == *old(self).channel,
            sent ==> final(self).channel.slot(old(self).channel.next_slot()) == Some(value)
                && final(self).channel.slot(1 - old(self).channel.next_slot())
                    == old(self).channel.slot(1 - old(self).channel.next_slot())
                && final(self).channel.next_slot() == 1 - old(self).channel.next_slot(),
    {
        proof {
            use_type_invariant(&*self.channel);
        }
        if self.channel.published.is_some() {
            return false;
        }
        let index = self.channel.index;
        self.channel.values[index] = Some(value);
        self.channel.index = (index + 1) % 2;
        self.channel.published = Some(index);
        true
    }
}

} // verus!
