//! The background pipeline, verified as a model: a producer owning the
//! event stream and the state machine, a consumer, and between them one
//! bounded FIFO queue — the only shared resource. The producer suspends
//! when the queue is full (backpressure) and the consumer when it is
//! empty; the queue preserves arrival order, so whatever the schedule the
//! consumer receives exactly the foreground result sequence, and the
//! number of produced-but-unconsumed items never exceeds the capacity.
//!
//! A host that wants real overlap runs the same producer loop on a thread
//! and replaces the queue with a bounded channel of the same capacity;
//! the decisions stay in the library.

use vstd::prelude::*;
use crate::assembler::{Assembler, Step, lemma_run_from_done, spec_run, spec_run_from};
use crate::events::RawEvent;
use crate::filter::SkipConfig;
use crate::model::{ObjV, OsmError, ParseItem, item_view, items_view};

verus! {

/// How many finished results the pipeline may hold at once.
pub const QUEUE_CAPACITY: usize = 5;

/// A bounded FIFO queue of parse results.
pub struct BoundedQueue {
    items: Vec<ParseItem>,
    cap: usize,
}

impl View for BoundedQueue {
    type V = Seq<ParseItem>;

    closed spec fn view(&self) -> Seq<ParseItem> {
        self.items@
    }
}

impl BoundedQueue {
    /// The fixed capacity the queue was made with.
    pub closed spec fn capacity(&self) -> nat {
        self.cap as nat
    }

    /// The queue never holds more than its capacity.
    pub open spec fn wf(&self) -> bool {
        self@.len() <= self.capacity()
    }

    /// An empty queue of the given capacity.
    pub fn new(cap: usize) -> (q: BoundedQueue)
        ensures
            q.wf(),
            q@ == Seq::<ParseItem>::empty(),
            q.capacity() == cap,
    {
        BoundedQueue { items: Vec::new(), cap }
    }

    /// Current number of queued items.
    pub fn len(&self) -> (n: usize)
        ensures
            n == self@.len(),
    {
        self.items.len()
    }

    /// Appends at the back; refused (and nothing changes) when full.
    pub fn push(&mut self, item: ParseItem) -> (ok: bool)
        requires
            old(self).wf(),
        ensures
            final(self).wf(),
            final(self).capacity() == old(self).capacity(),
            ok == (old(self)@.len() < old(self).capacity()),
            ok ==> final(self)@ == old(self)@.push(item),
            !ok ==> final(self)@ == old(self)@,
    {
        if self.items.len() < self.cap {
            self.items.push(item);
            true
        } else {
            false
        }
    }

    /// Removes from the front; `None` when empty.
    pub fn pop(&mut self) -> (r: Option<ParseItem>)
        requires
            old(self).wf(),
        ensures
            final(self).wf(),
            final(self).capacity() == old(self).capacity(),
            match r {
                Some(x) => old(self)@.len() > 0 && x == old(self)@[0] && final(self)@ == old(
                    self,
                )@.drop_first(),
                None => old(self)@.len() == 0 && final(self)@ == old(self)@,
            },
    {
        if self.items.len() > 0 {
            Some(self.items.remove(0))
        } else {
            None
        }
    }
}

/// What a pipeline run delivered: the items the consumer received, in
/// arrival order, and the largest queue occupancy ever observed.
pub struct PipelineRun {
    pub received: Vec<ParseItem>,
    pub peak: usize,
}

/// Runs the whole parse through the bounded queue under an arbitrary
/// interleaving of the two participants. Each schedule entry picks who
/// moves next (`true` for the producer); a participant that cannot move —
/// the producer against a full queue, the consumer against an empty one —
/// yields to the other. For every schedule, a stalled consumer included,
/// the consumer receives exactly the foreground result sequence and the
/// queue never holds more than `QUEUE_CAPACITY` items.
#[verifier::loop_isolation(false)]
pub fn run_pipeline(events: Vec<RawEvent>, cfg: SkipConfig, schedule: &Vec<bool>) -> (out:
    PipelineRun)
    ensures
        items_view(out.received@) == spec_run(events@, cfg),
        out.peak <= QUEUE_CAPACITY,
{
    let ghost all = events@;
    let mut evs = events;
    let mut machine = Assembler::new(cfg);
    let mut q = BoundedQueue::new(QUEUE_CAPACITY);
    let mut received: Vec<ParseItem> = Vec::new();
    let mut peak: usize = 0;
    let mut si: usize = 0;
    proof {
        assert(items_view(received@) =~= Seq::<Result<ObjV, OsmError>>::empty());
        assert(items_view(q@) =~= Seq::<Result<ObjV, OsmError>>::empty());
    }
    while evs.len() > 0 || q.len() > 0
        invariant
            machine.wf(),
            machine.cfg == cfg,
            q.wf(),
            q.capacity() == QUEUE_CAPACITY,
            peak <= QUEUE_CAPACITY,
            schedule@.len() > 0 ==> si < schedule@.len(),
            items_view(received@) + items_view(q@) + spec_run_from(machine.state@, cfg, evs@)
                == spec_run(all, cfg),
        decreases evs@.len(), q@.len(),
    {
        let want_producer: bool = if schedule.len() == 0 {
            true
        } else {
            let b = schedule[si];
            si = if si + 1 < schedule.len() {
                si + 1
            } else {
                0
            };
            b
        };
        let producer_can = evs.len() > 0 && q.len() < QUEUE_CAPACITY;
        let consumer_can = q.len() > 0;
        if (want_producer && producer_can) || !consumer_can {
            // the producer's turn: feed one event, send any emission
            let ghost pre = evs@;
            let ghost q_pre = q@;
            let ghost recv_pre = received@;
            let ev = evs.remove(0);
            proof {
                assert(evs@ =~= pre.drop_first());
            }
            match machine.handle_event(ev) {
                Step::Nothing => {},
                Step::Finished => {
                    proof {
                        lemma_run_from_done(cfg, evs@);
                    }
                },
                Step::Emit(item) => {
                    let ok = q.push(item);
                    proof {
                        assert(ok);
                        assert(items_view(q@) =~= items_view(q_pre).push(item_view(item)));
                        let rest = spec_run_from(machine.state@, cfg, evs@);
                        assert(items_view(recv_pre) + items_view(q_pre).push(item_view(item))
                            + rest =~= items_view(recv_pre) + items_view(q_pre) + (seq![
                            item_view(item),
                        ] + rest));
                    }
                    let n = q.len();
                    if n > peak {
                        peak = n;
                    }
                },
            }
        } else {
            // the consumer's turn: receive one item
            let ghost q_pre = q@;
            let ghost recv_pre = received@;
            match q.pop() {
                Some(x) => {
                    received.push(x);
                    proof {
                        assert(items_view(received@) =~= items_view(recv_pre).push(item_view(x)));
                        assert(items_view(q_pre) =~= seq![item_view(x)] + items_view(q@));
                        let rest = spec_run_from(machine.state@, cfg, evs@);
                        assert(items_view(recv_pre).push(item_view(x)) + items_view(q@) + rest
                            =~= items_view(recv_pre) + (seq![item_view(x)] + items_view(q@))
                            + rest);
                    }
                },
                None => {
                    proof {
                        assert(false);
                    }
                },
            }
        }
    }
    proof {
        assert(items_view(received@) + items_view(q@) + spec_run_from(machine.state@, cfg, evs@)
            =~= items_view(received@));
    }
    PipelineRun { received, peak }
}

} // verus!
