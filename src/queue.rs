use vstd::prelude::*;

verus! {

/// A request to destroy one GPU object, by its native handle.
#[derive(Debug, Clone, Copy, PartialEq, Eq, Structural)]
pub enum Message {
    DeleteBuffer(u32),
    DeleteVertexArray(u32),
    DeleteProgram(u32),
    DeleteTexture(u32),
    DeleteSampler(u32),
    DeleteFramebuffer(u32),
}

/// Destruction requests waiting for the thread that holds the context.
#[derive(Debug)]
pub struct MessageQueue {
    pending: Vec<Message>,
}

impl View for MessageQueue {
    type V = Seq<Message>;

    closed spec fn view(&self) -> Seq<Message> {
        self.pending@
    }
}

impl MessageQueue {
    pub fn new() -> (r: MessageQueue)
        ensures
            r@ == Seq::<Message>::empty(),
    {
        MessageQueue { pending: Vec::new() }
    }

    /// Posts a request behind those already waiting.
    pub fn enqueue(&mut self, msg: Message)
        ensures
            final(self)@ == old(self)@.push(msg),
    {
        self.pending.push(msg);
    }

    pub fn len(&self) -> (r: usize)
        ensures
            r == self@.len(),
    {
        self.pending.len()
    }

    /// Takes out every waiting request, oldest first, and leaves the queue empty.
    pub fn drain(&mut self) -> (r: Vec<Message>)
        ensures
            r@ == old(self)@,
            final(self)@ == Seq::<Message>::empty(),
    {
        let mut taken: Vec<Message> = Vec::new();
        std::mem::swap(&mut taken, &mut self.pending);
        taken
    }
}

/// The queue after posting `msgs` one by one behind `q`.
pub open spec fn after_enqueues(q: Seq<Message>, msgs: Seq<Message>) -> Seq<Message>
    decreases msgs.len(),
{
    if msgs.len() == 0 {
        q
    } else {
        after_enqueues(q, msgs.drop_last()).push(msgs.last())
    }
}

/// Requests posted one by one to an empty queue come out of one drain in the
/// order they were posted, and the drain leaves the queue empty.
pub proof fn lemma_drain_fifo(msgs: Seq<Message>)
    ensures
        after_enqueues(Seq::empty(), msgs) == msgs,
    decreases msgs.len(),
{
    if msgs.len() > 0 {
        lemma_drain_fifo(msgs.drop_last());
        assert(msgs.drop_last().push(msgs.last()) =~= msgs);
    }
}

} // verus!
