//! The queue of MIDI messages that applications send back to a virtual device.
use vstd::prelude::*;

verus! {

/// The messages that a device of the operating system's MIDI system keeps.
pub const FEEDBACK_LIMIT: usize = 4096;

/// The messages that a port with a driver callback keeps.
pub const CALLBACK_LIMIT: usize = 1024;

/// A first-in first-out queue that drops its oldest message when it is full.
#[derive(Debug)]
pub struct FeedbackBuffer {
    limit: usize,
    queue: Vec<Vec<u8>>,
}

/// The contents of messages.
pub open spec fn payloads(v: Seq<Vec<u8>>) -> Seq<Seq<u8>> {
    v.map_values(|m: Vec<u8>| m@)
}

/// The last messages of a queue, as many as fit.
pub open spec fn newest(s: Seq<Seq<u8>>, limit: nat) -> Seq<Seq<u8>> {
    if s.len() <= limit {
        s
    } else {
        s.skip(s.len() - limit)
    }
}

impl View for FeedbackBuffer {
    type V = Seq<Seq<u8>>;

    closed spec fn view(&self) -> Seq<Seq<u8>> {
        payloads(self.queue@)
    }
}

impl FeedbackBuffer {
    /// The number of messages that fit.
    pub closed spec fn limit(&self) -> nat {
        self.limit as nat
    }

    /// The queue holds no more messages than fit.
    pub open spec fn wf(&self) -> bool {
        1 <= self.limit() && self@.len() <= self.limit()
    }

    /// An empty queue for a number of messages.
    pub fn new(limit: usize) -> (r: Self)
        requires
            limit >= 1,
        ensures
            r.wf(),
            r@ == Seq::<Seq<u8>>::empty(),
            r.limit() == limit,
    {
        let r = FeedbackBuffer { limit, queue: Vec::new() };
        assert(payloads(r.queue@) =~= Seq::<Seq<u8>>::empty());
        r
    }

    /// Takes in a message; the oldest one gives way when the queue is full.
    pub fn push(&mut self, message: Vec<u8>)
        requires
            old(self).wf(),
        ensures
            final(self).wf(),
            final(self)@ == newest(old(self)@.push(message@), old(self).limit()),
            final(self).limit() == old(self).limit(),
    {
        let ghost before = self.queue@;
        if self.queue.len() >= self.limit {
            self.queue.remove(0);
            assert(payloads(self.queue@.push(message)) =~= payloads(before).push(message@).skip(1));
        }
        assert(payloads(self.queue@.push(message)) =~= payloads(self.queue@).push(message@));
        self.queue.push(message);
    }

    /// Hands out the oldest message.
    pub fn receive(&mut self) -> (r: Option<Vec<u8>>)
        requires
            old(self).wf(),
        ensures
            final(self).wf(),
            final(self).limit() == old(self).limit(),
            match r {
                Some(m) => old(self)@.len() > 0 && m@ == old(self)@[0] && final(self)@ == old(
                    self,
                )@.skip(1),
                None => old(self)@.len() == 0 && final(self)@ == old(self)@,
            },
    {
        if self.queue.len() == 0 {
            return None;
        }
        let ghost before = self.queue@;
        let m = self.queue.remove(0);
        assert(payloads(self.queue@) =~= payloads(before).skip(1));
        assert(payloads(before)[0] == before[0]@);
        Some(m)
    }
}

/// What a queue holds after messages, one after the other.
pub open spec fn pushed(s: Seq<Seq<u8>>, messages: Seq<Seq<u8>>, limit: nat) -> Seq<Seq<u8>>
    decreases messages.len(),
{
    if messages.len() == 0 {
        s
    } else {
        newest(pushed(s, messages.drop_last(), limit).push(messages.last()), limit)
    }
}

/// A queue that has taken in messages holds the newest of them, in the order in
/// which they came: what is lost is the oldest.
pub proof fn law_newest_survive(s: Seq<Seq<u8>>, messages: Seq<Seq<u8>>, limit: nat)
    requires
        limit >= 1,
        s.len() <= limit,
    ensures
        pushed(s, messages, limit) == newest(s + messages, limit),
        pushed(s, messages, limit).len() <= limit,
    decreases messages.len(),
{
    if messages.len() == 0 {
        assert(s + messages =~= s);
    } else {
        let rest = messages.drop_last();
        law_newest_survive(s, rest, limit);
        assert(s + messages =~= (s + rest).push(messages.last()));
        assert(newest(newest(s + rest, limit).push(messages.last()), limit) =~= newest(
            s + messages,
            limit,
        ));
    }
}

/// Messages come out in the order in which they went in: what a queue with room takes in
/// last is behind everything else, and the oldest comes out first.
pub proof fn law_first_in_first_out(
    q: &mut FeedbackBuffer,
    message: Vec<u8>,
    p: &mut FeedbackBuffer,
    r: Option<Vec<u8>>,
)
    requires
        call_ensures(FeedbackBuffer::push, (q, message), ()),
        old(q).wf(),
        old(p)@ == final(q)@,
        call_ensures(FeedbackBuffer::receive, (p,), r),
    ensures
        final(q)@.len() > 0 && final(q)@.last() == message@,
        old(q)@.len() < old(q).limit() ==> final(q)@ == old(q)@.push(message@),
        old(q)@.len() == old(q).limit() ==> final(q)@ == old(q)@.skip(1).push(message@),
        r matches Some(m) && m@ == final(q)@[0],
        old(q)@.len() == 0 ==> (r matches Some(m) && m@ == message@),
        final(p)@ == final(q)@.skip(1),
{
    let all = old(q)@.push(message@);
    if old(q)@.len() == old(q).limit() {
        assert(all.skip(1) =~= old(q)@.skip(1).push(message@));
    }
}

/// A queue at the start is empty, and what is put into it first comes out first.
pub proof fn law_new_queue(
    limit: usize,
    fresh: FeedbackBuffer,
    q: &mut FeedbackBuffer,
    message: Vec<u8>,
    p: &mut FeedbackBuffer,
    r: Option<Vec<u8>>,
    o: &mut FeedbackBuffer,
    s: Option<Vec<u8>>,
)
    requires
        limit >= 1,
        call_ensures(FeedbackBuffer::new, (limit,), fresh),
        *old(q) == fresh,
        call_ensures(FeedbackBuffer::push, (q, message), ()),
        *old(p) == *final(q),
        call_ensures(FeedbackBuffer::receive, (p,), r),
        *old(o) == fresh,
        call_ensures(FeedbackBuffer::receive, (o,), s),
    ensures
        fresh@.len() == 0 && fresh.limit() == limit,
        r matches Some(m) && m@ == message@,
        final(p)@.len() == 0,
        s is None,
{
}

} // verus!
