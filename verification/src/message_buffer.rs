//! The bounded message buffer through which the desktop app hands messages to
//! the web app: messages are stored in arrival order, at most
//! `MESSAGE_BUFFER_CAPACITY` of them, and a full buffer drops its oldest
//! message to make room for a new one. Polling takes the oldest message.

use std::collections::VecDeque;
use vstd::prelude::*;

verus! {

/// The number of messages the buffer keeps.
pub const MESSAGE_BUFFER_CAPACITY: usize = 1000;

/// The buffer's contents after `message` arrives at a buffer holding `s`:
/// the message goes to the back, and when that exceeds the capacity the
/// oldest message leaves.
pub open spec fn after_send(s: Seq<Seq<char>>, message: Seq<char>) -> Seq<Seq<char>> {
    let t = s.push(message);
    if t.len() > MESSAGE_BUFFER_CAPACITY {
        t.drop_first()
    } else {
        t
    }
}

/// The buffer's contents after the messages `ms` arrive one by one.
pub open spec fn after_sends(s: Seq<Seq<char>>, ms: Seq<Seq<char>>) -> Seq<Seq<char>>
    decreases ms.len(),
{
    if ms.len() == 0 {
        s
    } else {
        after_sends(after_send(s, ms[0]), ms.drop_first())
    }
}

/// The last `n` elements of `s` (all of `s` when it is shorter).
pub open spec fn keep_last(s: Seq<Seq<char>>, n: nat) -> Seq<Seq<char>> {
    if s.len() > n {
        s.skip(s.len() - n)
    } else {
        s
    }
}

/// What a poll of a buffer holding `s` answers: its oldest message, or the
/// empty string when there is none.
pub open spec fn poll_answer(s: Seq<Seq<char>>) -> Seq<char> {
    if s.len() > 0 {
        s[0]
    } else {
        Seq::empty()
    }
}

/// The buffer's contents after a poll.
pub open spec fn after_poll(s: Seq<Seq<char>>) -> Seq<Seq<char>> {
    if s.len() > 0 {
        s.drop_first()
    } else {
        s
    }
}

/// A first-in first-out buffer of at most `MESSAGE_BUFFER_CAPACITY` messages.
pub struct MessageBuffer {
    messages: VecDeque<String>,
}

impl View for MessageBuffer {
    type V = Seq<Seq<char>>;

    /// The stored messages, oldest first.
    closed spec fn view(&self) -> Seq<Seq<char>> {
        self.messages@.map_values(|m: String| m@)
    }
}

impl MessageBuffer {
    /// The buffer never holds more than its capacity.
    #[verifier::type_invariant]
    spec fn within_capacity(self) -> bool {
        self.messages@.len() <= MESSAGE_BUFFER_CAPACITY
    }

    /// An empty buffer, with room reserved for a full load of messages.
    pub fn new() -> (res: Self)
        ensures
            res@ == Seq::<Seq<char>>::empty(),
    {
        let res = MessageBuffer { messages: VecDeque::with_capacity(MESSAGE_BUFFER_CAPACITY) };
        assert(res@ =~= Seq::<Seq<char>>::empty());
        res
    }

    /// The number of stored messages.
    pub fn len(&self) -> (res: usize)
        ensures
            res == self@.len(),
            res <= MESSAGE_BUFFER_CAPACITY,
    {
        proof {
            use_type_invariant(self);
        }
        self.messages.len()
    }

    /// Stores `message` behind the others; when the buffer then holds more
    /// than its capacity, the oldest message is dropped.
    pub fn push(&mut self, message: String)
        ensures
            final(self)@ == after_send(old(self)@, message@),
            final(self)@.len() <= MESSAGE_BUFFER_CAPACITY,
    {
        proof {
            use_type_invariant(&*self);
        }
        let ghost m = message@;
        let mut messages: VecDeque<String> = VecDeque::new();
        std::mem::swap(&mut messages, &mut self.messages);
        let ghost before = messages@;
        messages.push_back(message);
        assert(messages@.map_values(|s: String| s@) =~= before.map_values(|s: String| s@).push(m));
        if messages.len() > MESSAGE_BUFFER_CAPACITY {
            let _ = messages.pop_front();
            assert(messages@.map_values(|s: String| s@) =~= before.map_values(|s: String| s@).push(
                m,
            ).drop_first());
        }
        self.messages = messages;
    }

    /// Takes the oldest message out of the buffer, if there is one.
    pub fn pop(&mut self) -> (res: Option<String>)
        ensures
            final(self)@ == after_poll(old(self)@),
            match res {
                Some(m) => old(self)@.len() > 0 && m@ == old(self)@[0],
                None => old(self)@.len() == 0,
            },
    {
        proof {
            use_type_invariant(&*self);
        }
        let mut messages: VecDeque<String> = VecDeque::new();
        std::mem::swap(&mut messages, &mut self.messages);
        let ghost before = messages@;
        let res = messages.pop_front();
        proof {
            if res is Some {
                assert(messages@.map_values(|s: String| s@) =~= before.map_values(
                    |s: String| s@,
                ).drop_first());
            }
        }
        self.messages = messages;
        res
    }

    /// Answers a poll: the oldest message, taken out of the buffer, or the
    /// empty string when the buffer is empty.
    pub fn poll(&mut self) -> (res: String)
        ensures
            final(self)@ == after_poll(old(self)@),
            res@ == poll_answer(old(self)@),
    {
        match self.pop() {
            Some(m) => m,
            None => String::new(),
        }
    }
}

/// The shared buffer behind a lazily filled slot: an empty buffer is put in
/// the slot on first use, and the buffer in the slot is handed out.
pub fn get_message_buffer(slot: &mut Option<MessageBuffer>) -> (res: &mut MessageBuffer)
    ensures
        *old(slot) is Some ==> *res == old(slot)->0,
        *old(slot) is None ==> res@ == Seq::<Seq<char>>::empty(),
        *final(slot) == Some(*final(res)),
{
    if slot.is_some() {
        slot.as_mut().unwrap()
    } else {
        slot.insert(MessageBuffer::new())
    }
}

// ---------------------------------------------------------------------------
// Laws
// ---------------------------------------------------------------------------

/// A send never lets the buffer exceed its capacity, and the message just
/// sent is always the newest one stored.
pub proof fn law_send_bounded(s: Seq<Seq<char>>, message: Seq<char>)
    requires
        s.len() <= MESSAGE_BUFFER_CAPACITY,
    ensures
        after_send(s, message).len() <= MESSAGE_BUFFER_CAPACITY,
        after_send(s, message).len() > 0,
        after_send(s, message).last() == message,
{
}

/// Below capacity nothing is dropped: a send only appends.
pub proof fn law_send_below_capacity_appends(s: Seq<Seq<char>>, message: Seq<char>)
    requires
        s.len() < MESSAGE_BUFFER_CAPACITY,
    ensures
        after_send(s, message) == s.push(message),
{
}

/// At capacity, a send drops exactly the oldest message.
pub proof fn law_send_at_capacity_drops_oldest(s: Seq<Seq<char>>, message: Seq<char>)
    requires
        s.len() == MESSAGE_BUFFER_CAPACITY,
    ensures
        after_send(s, message) == s.drop_first().push(message),
        after_send(s, message).len() == MESSAGE_BUFFER_CAPACITY,
{
    assert(s.push(message).drop_first() =~= s.drop_first().push(message));
}

/// A poll of a buffer into which one message was sent while it was empty
/// answers that message and leaves the buffer empty.
pub proof fn law_poll_returns_sent(message: Seq<char>)
    ensures
        poll_answer(after_send(Seq::empty(), message)) == message,
        after_poll(after_send(Seq::empty(), message)) == Seq::<Seq<char>>::empty(),
{
    assert(after_send(Seq::empty(), message) =~= seq![message]);
    assert(seq![message].drop_first() =~= Seq::<Seq<char>>::empty());
}

/// Polls answer in arrival order: below capacity, sending and then polling
/// answers the same as polling and then sending.
pub proof fn law_fifo(s: Seq<Seq<char>>, message: Seq<char>)
    requires
        0 < s.len() < MESSAGE_BUFFER_CAPACITY,
    ensures
        poll_answer(after_send(s, message)) == poll_answer(s),
        after_poll(after_send(s, message)) == after_send(after_poll(s), message),
{
    assert(s.push(message).drop_first() =~= s.drop_first().push(message));
}

/// A poll of an empty buffer answers the empty string and changes nothing.
pub proof fn law_poll_empty()
    ensures
        poll_answer(Seq::<Seq<char>>::empty()) == Seq::<char>::empty(),
        after_poll(Seq::<Seq<char>>::empty()) == Seq::<Seq<char>>::empty(),
{
}

/// After any run of sends the buffer holds the most recent messages, in
/// arrival order: the last `MESSAGE_BUFFER_CAPACITY` of the old contents
/// followed by the new messages.
pub proof fn law_sends_keep_latest(s: Seq<Seq<char>>, ms: Seq<Seq<char>>)
    requires
        s.len() <= MESSAGE_BUFFER_CAPACITY,
    ensures
        after_sends(s, ms) == keep_last(s + ms, MESSAGE_BUFFER_CAPACITY as nat),
    decreases ms.len(),
{
    if ms.len() == 0 {
        assert(s + ms =~= s);
    } else {
        let s1 = after_send(s, ms[0]);
        law_sends_keep_latest(s1, ms.drop_first());
        let full = s + ms;
        let full1 = s1 + ms.drop_first();
        let cap = MESSAGE_BUFFER_CAPACITY as int;
        if s.len() + 1 > cap {
            // One message was dropped from the front.
            assert(full1 =~= full.drop_first());
            assert(full.len() > cap);
            assert(keep_last(full1, cap as nat) =~= keep_last(full, cap as nat));
        } else {
            assert(full1 =~= full);
        }
    }
}

/// The answers of `k` polls of a buffer holding `s`, in order.
pub open spec fn poll_answers(s: Seq<Seq<char>>, k: nat) -> Seq<Seq<char>>
    decreases k,
{
    if k == 0 {
        Seq::empty()
    } else {
        seq![poll_answer(s)] + poll_answers(after_poll(s), (k - 1) as nat)
    }
}

/// The buffer's contents after `k` polls.
pub open spec fn after_polls(s: Seq<Seq<char>>, k: nat) -> Seq<Seq<char>>
    decreases k,
{
    if k == 0 {
        s
    } else {
        after_polls(after_poll(s), (k - 1) as nat)
    }
}

/// Polling a buffer as often as it holds messages answers them in order and
/// empties it.
proof fn lemma_drain(s: Seq<Seq<char>>)
    ensures
        poll_answers(s, s.len()) == s,
        after_polls(s, s.len()) == Seq::<Seq<char>>::empty(),
    decreases s.len(),
{
    if s.len() > 0 {
        lemma_drain(s.drop_first());
        assert(seq![s[0]] + s.drop_first() =~= s);
    } else {
        assert(s =~= Seq::<Seq<char>>::empty());
    }
}

/// Messages sent one by one to an empty buffer, at most its capacity of them,
/// come out of as many polls each exactly once and in the order they were
/// sent, and the poll after that answers the empty string.
pub proof fn law_sends_then_polls(ms: Seq<Seq<char>>)
    requires
        ms.len() <= MESSAGE_BUFFER_CAPACITY,
    ensures
        poll_answers(after_sends(Seq::empty(), ms), ms.len()) == ms,
        poll_answer(after_polls(after_sends(Seq::empty(), ms), ms.len())) == Seq::<char>::empty(),
{
    law_sends_keep_latest(Seq::empty(), ms);
    assert(Seq::<Seq<char>>::empty() + ms =~= ms);
    lemma_drain(ms);
}

} // verus!
