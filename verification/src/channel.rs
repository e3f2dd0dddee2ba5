//! The message channel: the machine's sole sanctioned side channel.
//!
//! The engine never constructs a channel itself; the embedding context
//! supplies one before execution.  `MessageHandler` is the capability
//! interface an embedding implements; [`QueueChannel`] is a verified
//! in-memory implementation whose queue the embedding (or a test) can
//! drain through `receive`.

use vstd::prelude::*;

use crate::value::{Message, MessageView};

verus! {

/// The injected send/receive capability connecting the engine to the
/// outside world via numbered ports.  Implementations are supplied by the
/// embedding context.  `contents` is the channel's abstract state — the
/// messages it holds, in order of acceptance — and `send` promises only
/// that the given pair is appended to it; what `receive` does with the
/// contents is the implementation's own affair.
pub trait MessageHandler {
    /// The default stands for an implementation that tracks nothing; a
    /// verified implementation overrides it with its own state, since
    /// `send`'s obligation cannot hold of a constant.
    open spec fn contents(&self) -> Seq<(usize, MessageView)> {
        Seq::empty()
    }

    fn send(&mut self, port: usize, message: Message)
        ensures
            final(self).contents() == old(self).contents().push((port, message@)),
    ;

    fn receive(&mut self, port: usize) -> Option<Message>;
}

/// The index of the first message queued for `port`, if any.
pub open spec fn first_for_port(q: Seq<(usize, MessageView)>, port: usize) -> Option<int> {
    if exists|i: int| 0 <= i < q.len() && q[i].0 == port {
        Some(choose|i: int| 0 <= i < q.len() && q[i].0 == port && forall|j: int|
            0 <= j < i ==> (#[trigger] q[j]).0 != port)
    } else {
        None
    }
}

/// An in-memory channel: `send` appends to a queue, `receive` hands back
/// the oldest message for the requested port.
pub struct QueueChannel {
    queue: Vec<(usize, Message)>,
}

impl View for QueueChannel {
    type V = Seq<(usize, MessageView)>;

    closed spec fn view(&self) -> Seq<(usize, MessageView)> {
        self.queue@.map_values(|e: (usize, Message)| (e.0, e.1@))
    }
}

impl QueueChannel {
    /// An empty channel.
    pub fn new() -> (r: QueueChannel)
        ensures
            r@ == Seq::<(usize, MessageView)>::empty(),
    {
        let r = QueueChannel { queue: Vec::new() };
        proof {
            assert(r@ =~= Seq::<(usize, MessageView)>::empty());
        }
        r
    }
}

impl MessageHandler for QueueChannel {
    /// The queue is the abstract contents.
    open spec fn contents(&self) -> Seq<(usize, MessageView)> {
        self@
    }

    /// Appends the message to the queue under its port.
    fn send(&mut self, port: usize, message: Message)
        ensures
            final(self)@ == old(self)@.push((port, message@)),
    {
        self.queue.push((port, message));
        proof {
            assert(final(self)@ =~= old(self)@.push((port, message@)));
        }
    }

    /// Removes and returns the oldest message queued for `port`; `None`
    /// when no message for that port is pending.
    fn receive(&mut self, port: usize) -> (r: Option<Message>)
        ensures
            match first_for_port(old(self)@, port) {
                Some(i) => r matches Some(m) && m@ == old(self)@[i].1 && final(self)@ == old(
                    self,
                )@.remove(i),
                None => r is None && final(self)@ == old(self)@,
            },
    {
        let mut i: usize = 0;
        while i < self.queue.len()
            invariant
                i <= self.queue@.len(),
                self@ == old(self)@,
                self.queue@.len() == self@.len(),
                forall|j: int| 0 <= j < i ==> (#[trigger] self@[j]).0 != port,
            decreases self.queue@.len() - i,
        {
            assert(self@[i as int].0 == self.queue@[i as int].0);
            if self.queue[i].0 == port {
                proof {
                    let w = i as int;
                    assert(0 <= w < self@.len() && self@[w].0 == port);
                    let c = choose|k: int|
                        0 <= k < self@.len() && self@[k].0 == port && forall|j: int|
                            0 <= j < k ==> (#[trigger] self@[j]).0 != port;
                    assert(first_for_port(self@, port) == Some(c));
                    assert(c == w) by {
                        if c < w {
                            assert(self@[c].0 != port);
                        }
                        if w < c {
                            assert(self@[w].0 != port);
                        }
                    }
                }
                let entry = self.queue.remove(i);
                proof {
                    assert(final(self)@ =~= old(self)@.remove(i as int));
                }
                return Some(entry.1);
            }
            i += 1;
        }
        proof {
            if first_for_port(self@, port) is Some {
                let c = choose|k: int|
                    0 <= k < self@.len() && self@[k].0 == port && forall|j: int|
                        0 <= j < k ==> (#[trigger] self@[j]).0 != port;
            }
        }
        None
    }
}

} // verus!
