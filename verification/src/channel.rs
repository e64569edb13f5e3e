//! The ordered channel that carries parse results from the callback side to
//! the consumer.
//!
//! The foreign parser drives its callbacks strictly sequentially during one
//! parse, so a first-in first-out queue realizes the bridge: the producer
//! side appends one result per callback, the consumer side takes results in
//! exactly the order they were pushed. Nothing is reordered, dropped or
//! duplicated in between.

use vstd::prelude::*;

use crate::ParseResult;

verus! {

/// The bridge channel of one parse: an ordered queue of parse results. Its
/// view is the sequence of results that have been pushed and not yet taken,
/// oldest first.
#[derive(Debug)]
pub struct EventChannel {
    queue: Vec<ParseResult>,
}

impl View for EventChannel {
    type V = Seq<ParseResult>;

    closed spec fn view(&self) -> Seq<ParseResult> {
        self.queue@
    }
}

impl EventChannel {
    /// Creates the channel for a fresh parse, with nothing pending.
    pub fn new() -> (r: EventChannel)
        ensures
            r@ == Seq::<ParseResult>::empty(),
    {
        EventChannel { queue: Vec::new() }
    }

    /// The number of results that are pending.
    pub fn len(&self) -> (r: usize)
        ensures
            r == self@.len(),
    {
        self.queue.len()
    }

    /// Appends one result at the producer end. Every callback performs
    /// exactly one such push, so channel order is callback order.
    pub fn send(&mut self, r: ParseResult)
        ensures
            final(self)@ == old(self)@.push(r),
    {
        self.queue.push(r);
    }

    /// Takes the oldest pending result at the consumer end, or `None` when
    /// nothing is pending: with the synchronous parse shape, the producer is
    /// done by the time the consumer reads, so an empty channel is the end
    /// of the stream.
    pub fn recv(&mut self) -> (r: Option<ParseResult>)
        ensures
            old(self)@.len() == 0 ==> r is None && final(self)@ == old(self)@,
            old(self)@.len() > 0 ==> r == Some(old(self)@[0]) && final(self)@ == old(
                self,
            )@.drop_first(),
    {
        if self.queue.len() == 0 {
            None
        } else {
            let r = self.queue.remove(0);
            proof {
                assert(self@ =~= old(self)@.drop_first());
            }
            Some(r)
        }
    }

    /// Takes every pending result, in order: the whole stream as the
    /// consumer would see it by reading until the end.
    pub fn drain(&mut self) -> (r: Vec<ParseResult>)
        ensures
            r@ == old(self)@,
            final(self)@ == Seq::<ParseResult>::empty(),
    {
        let mut out: Vec<ParseResult> = Vec::new();
        proof {
            assert(out@ + self@ =~= old(self)@);
        }
        loop
            invariant
                out@ + self@ == old(self)@,
            ensures
                out@ == old(self)@,
                self@.len() == 0,
            decreases self@.len(),
        {
            let ghost pending = self@;
            match self.recv() {
                Some(x) => {
                    proof {
                        assert(out@.push(x) + pending.drop_first() =~= out@ + pending);
                    }
                    out.push(x);
                },
                None => {
                    proof {
                        assert(out@ + self@ =~= out@);
                    }
                    break;
                },
            }
        }
        out
    }
}

} // verus!
