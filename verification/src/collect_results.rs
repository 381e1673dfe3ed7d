//! Collects everything a stream yields, items and errors alike, in the order
//! they come, until the stream ends.

use vstd::prelude::*;

verus! {

/// What one poll of a stream gave.
pub enum StreamEvent<T, E> {
    /// The stream yielded an item.
    Item(T),
    /// The stream yielded an error (and goes on).
    Error(E),
    /// The stream has ended.
    End,
    /// The stream has nothing yet.
    NotReady,
}

/// What the collector does after one poll.
pub enum CollectPoll<T, E> {
    /// Poll the stream again.
    Continue,
    /// The stream has ended: everything it yielded, in order.
    Ready(Vec<Result<T, E>>),
    /// Wait until the stream can make progress.
    NotReady,
}

/// Everything collected from the stream so far.
pub struct CollectResults<T, E> {
    items: Vec<Result<T, E>>,
}

impl<T, E> View for CollectResults<T, E> {
    type V = Seq<Result<T, E>>;

    closed spec fn view(&self) -> Seq<Result<T, E>> {
        self.items@
    }
}

/// A collector that has collected nothing yet.
pub fn collect_results<T, E>() -> (c: CollectResults<T, E>)
    ensures
        c@ == Seq::<Result<T, E>>::empty(),
{
    CollectResults { items: Vec::new() }
}

impl<T, E> CollectResults<T, E> {
    /// Hands out what was collected and starts again from nothing.
    fn finish(&mut self) -> (items: Vec<Result<T, E>>)
        ensures
            items@ == old(self)@,
            final(self)@ == Seq::<Result<T, E>>::empty(),
    {
        let mut items: Vec<Result<T, E>> = Vec::new();
        std::mem::swap(&mut items, &mut self.items);
        items
    }

    /// Takes in the outcome of one poll of the stream: an item is kept as
    /// `Ok`, an error as `Err`, and both ask for another poll; when the
    /// stream ends, everything kept is handed out; when it is not ready,
    /// nothing changes.
    pub fn poll_step(&mut self, event: StreamEvent<T, E>) -> (step: CollectPoll<T, E>)
        ensures
            match event {
                StreamEvent::Item(e) => step is Continue && final(self)@ == old(self)@.push(Ok(e)),
                StreamEvent::Error(e) => step is Continue && final(self)@ == old(self)@.push(Err(e)),
                StreamEvent::End => step matches CollectPoll::Ready(items) && items@ == old(self)@
                    && final(self)@ == Seq::<Result<T, E>>::empty(),
                StreamEvent::NotReady => step is NotReady && final(self)@ == old(self)@,
            },
    {
        match event {
            StreamEvent::Item(e) => {
                self.items.push(Ok(e));
                CollectPoll::Continue
            },
            StreamEvent::End => CollectPoll::Ready(self.finish()),
            StreamEvent::NotReady => CollectPoll::NotReady,
            StreamEvent::Error(e) => {
                self.items.push(Err(e));
                CollectPoll::Continue
            },
        }
    }
}

} // verus!
