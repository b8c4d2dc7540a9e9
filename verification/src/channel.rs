//! The message channel: the bounded first-in-first-out mailbox through
//! which every inbound handler forwards its messages and from which
//! the display loop drains them, one at a time, in order.

use crate::message::Message;
use crate::CHANNEL_CAPACITY;
use vstd::prelude::*;

verus! {

/// The bounded mailbox of messages.  Its contents are the sequence of
/// messages sent and not yet received, oldest first; it never holds
/// more than `CHANNEL_CAPACITY` messages.
pub struct MessageChannel {
    queue: Vec<Message>,
}

impl View for MessageChannel {
    type V = Seq<Message>;

    closed spec fn view(&self) -> Seq<Message> {
        self.queue@
    }
}

impl MessageChannel {
    /// The channel never holds more messages than its fixed capacity.
    pub open spec fn wf(&self) -> bool {
        self@.len() <= CHANNEL_CAPACITY
    }

    /// Whether a send would have to wait.
    pub open spec fn spec_is_full(&self) -> bool {
        self@.len() == CHANNEL_CAPACITY
    }

    /// Creates the channel, empty.
    pub fn new() -> (c: MessageChannel)
        ensures
            c@ == Seq::<Message>::empty(),
            c.wf(),
    {
        MessageChannel { queue: Vec::new() }
    }

    /// How many messages wait in the channel.
    pub fn len(&self) -> (n: usize)
        ensures
            n == self@.len(),
    {
        self.queue.len()
    }

    /// Whether a send would have to wait.
    pub fn is_full(&self) -> (b: bool)
        requires
            self.wf(),
        ensures
            b == self.spec_is_full(),
    {
        self.queue.len() == CHANNEL_CAPACITY
    }

    /// Appends one message to the channel.  The caller waits for room
    /// first: a send never drops or reorders anything, it places its
    /// message after everything already waiting.
    pub fn send(&mut self, m: Message)
        requires
            old(self).wf(),
            !old(self).spec_is_full(),
        ensures
            final(self)@ == old(self)@.push(m),
            final(self).wf(),
    {
        self.queue.push(m);
    }

    /// Appends one message if there is room, and otherwise hands it
    /// back unchanged, the channel untouched.
    pub fn try_send(&mut self, m: Message) -> (r: Result<(), Message>)
        requires
            old(self).wf(),
        ensures
            final(self).wf(),
            if old(self).spec_is_full() {
                r == Result::<(), Message>::Err(m) && final(self)@ == old(self)@
            } else {
                r == Result::<(), Message>::Ok(()) && final(self)@ == old(self)@.push(m)
            },
    {
        if self.is_full() {
            Err(m)
        } else {
            self.send(m);
            Ok(())
        }
    }

    /// Takes the oldest waiting message, if any: the one sent first
    /// among those still waiting, exactly once, never out of order.
    pub fn recv(&mut self) -> (r: Option<Message>)
        requires
            old(self).wf(),
        ensures
            final(self).wf(),
            if old(self)@.len() == 0 {
                r == Option::<Message>::None && final(self)@ == old(self)@
            } else {
                r == Some(old(self)@.first()) && final(self)@ == old(self)@.subrange(
                    1,
                    old(self)@.len() as int,
                )
            },
    {
        if self.queue.len() == 0 {
            None
        } else {
            Some(self.queue.remove(0))
        }
    }

    /// Takes every waiting message at once, oldest first, leaving the
    /// channel empty: exactly the messages that were waiting, in the
    /// order they were sent.
    pub fn drain(&mut self) -> (out: Vec<Message>)
        requires
            old(self).wf(),
        ensures
            out@ == old(self)@,
            final(self)@ == Seq::<Message>::empty(),
            final(self).wf(),
    {
        let mut out: Vec<Message> = Vec::new();
        while self.queue.len() > 0
            invariant
                out@ + self.queue@ == old(self)@,
            decreases self.queue@.len(),
        {
            let m = self.queue.remove(0);
            out.push(m);
            proof {
                assert(out@ + self.queue@ =~= old(self)@);
            }
        }
        proof {
            assert(out@ =~= old(self)@);
            assert(self@ =~= Seq::<Message>::empty());
        }
        out
    }
}

/// The channel contents after a sequence of sends, none received
/// meanwhile: each send appends its message, as `send` ensures.
pub open spec fn spec_after_sends(init: Seq<Message>, sent: Seq<Message>) -> Seq<Message>
    decreases sent.len(),
{
    if sent.len() == 0 {
        init
    } else {
        spec_after_sends(init, sent.drop_last()).push(sent.last())
    }
}

/// No message is lost, duplicated or reordered on the way in: after
/// any sequence of sends the channel holds exactly what it held
/// before, followed by the sent messages in the order they were sent.
pub proof fn lemma_channel_accumulates(init: Seq<Message>, sent: Seq<Message>)
    ensures
        spec_after_sends(init, sent) == init + sent,
    decreases sent.len(),
{
    if sent.len() == 0 {
        assert(init + sent =~= init);
    } else {
        lemma_channel_accumulates(init, sent.drop_last());
        assert(init + sent =~= (init + sent.drop_last()).push(sent.last()));
    }
}

/// Sending a batch of messages into an empty channel delivers exactly
/// that batch: as many messages as were sent, each one as it was sent,
/// in send order — what `drain` then yields to the display loop.
pub proof fn lemma_channel_delivers_exactly(sent: Seq<Message>)
    ensures
        spec_after_sends(Seq::<Message>::empty(), sent) == sent,
        spec_after_sends(Seq::<Message>::empty(), sent).len() == sent.len(),
{
    lemma_channel_accumulates(Seq::<Message>::empty(), sent);
    assert(Seq::<Message>::empty() + sent =~= sent);
}

} // verus!
