//! The shipper worker's batching and flush state machine.
//!
//! The worker owns the batch. While `Running` it reacts to one event at a
//! time: a received record is appended and the batch is flushed as soon as
//! it reaches the configured size; an elapsed flush timer flushes whatever
//! is buffered; a shutdown signal moves to `Draining`; a closed channel
//! flushes the remainder and stops. While `Draining` it consumes only
//! records that were already buffered, flushing full batches, and flushes
//! the remainder and stops as soon as no record is immediately available.
//! A flush hands the batch's records out in order and empties the batch
//! whether or not the delivery afterwards succeeds; nothing is retried.

use vstd::arithmetic::div_mod::{
    lemma_fundamental_div_mod_converse, lemma_hoist_over_denominator,
    lemma_mod_add_multiples_vanish,
};
use vstd::prelude::*;

use crate::record::LogRecord;

verus! {

/// The worker's control state.
pub enum WorkerState {
    /// Waiting on shutdown, the next record, or the flush timer.
    Running,
    /// Consuming already-buffered records only; never waits.
    Draining,
    /// Terminal.
    Stopped,
}

/// One thing the running worker can observe.
pub enum WorkerEvent {
    /// The shutdown signal fired.
    Shutdown,
    /// A record arrived from the ingress channel.
    Record(LogRecord),
    /// All producer handles are gone and the channel is empty.
    ChannelClosed,
    /// The flush interval elapsed.
    Tick,
}

/// The mathematical state of the worker.
#[verifier::ext_equal]
pub ghost struct WorkerModel {
    pub state: WorkerState,
    pub batch: Seq<LogRecord>,
    pub batch_size: nat,
}

/// Append `r` to the batch; hand the batch out as a flush exactly when it
/// has reached the configured size. The control state does not change.
pub open spec fn spec_feed(m: WorkerModel, r: LogRecord) -> (WorkerModel, Option<
    Seq<LogRecord>,
>) {
    let b = m.batch.push(r);
    if b.len() >= m.batch_size {
        (WorkerModel { batch: Seq::empty(), ..m }, Some(b))
    } else {
        (WorkerModel { batch: b, ..m }, None)
    }
}

/// What a `Running` worker does with one event, by priority: shutdown
/// moves to `Draining`; a record is appended (flushing a full batch); a
/// closed channel flushes the remainder and stops; an elapsed timer
/// flushes a non-empty batch and is otherwise a no-op.
pub open spec fn spec_step(m: WorkerModel, ev: WorkerEvent) -> (WorkerModel, Option<
    Seq<LogRecord>,
>) {
    match ev {
        WorkerEvent::Shutdown => (WorkerModel { state: WorkerState::Draining, ..m }, None),
        WorkerEvent::Record(r) => spec_feed(m, r),
        WorkerEvent::ChannelClosed => (
            WorkerModel { state: WorkerState::Stopped, batch: Seq::empty(), ..m },
            if m.batch.len() > 0 {
                Some(m.batch)
            } else {
                None
            },
        ),
        WorkerEvent::Tick => if m.batch.len() > 0 {
            (WorkerModel { batch: Seq::empty(), ..m }, Some(m.batch))
        } else {
            (m, None)
        },
    }
}

/// What a `Draining` worker does: an already-buffered record is appended
/// (flushing a full batch); once none is immediately available, the
/// remainder is flushed and the worker stops.
pub open spec fn spec_drain_step(m: WorkerModel, rec: Option<LogRecord>) -> (WorkerModel, Option<
    Seq<LogRecord>,
>) {
    match rec {
        Some(r) => spec_feed(m, r),
        None => (
            WorkerModel { state: WorkerState::Stopped, batch: Seq::empty(), ..m },
            if m.batch.len() > 0 {
                Some(m.batch)
            } else {
                None
            },
        ),
    }
}

/// The background worker: control state, owned batch, size threshold.
pub struct ShipperWorker {
    state: WorkerState,
    batch: Vec<LogRecord>,
    batch_size: usize,
}

impl ShipperWorker {
    /// The worker's mathematical state.
    pub closed spec fn model(&self) -> WorkerModel {
        WorkerModel {
            state: self.state,
            batch: self.batch@,
            batch_size: self.batch_size as nat,
        }
    }

    /// A fresh worker: `Running`, with an empty batch.
    pub fn new(batch_size: usize) -> (w: Self)
        ensures
            w.model() == (WorkerModel {
                state: WorkerState::Running,
                batch: Seq::<LogRecord>::empty(),
                batch_size: batch_size as nat,
            }),
    {
        let w = ShipperWorker { state: WorkerState::Running, batch: Vec::new(), batch_size };
        proof {
            assert(w.model() =~= WorkerModel {
                state: WorkerState::Running,
                batch: Seq::<LogRecord>::empty(),
                batch_size: batch_size as nat,
            });
        }
        w
    }

    /// How many records are buffered right now.
    pub fn buffered(&self) -> (n: usize)
        ensures
            n == self.model().batch.len(),
    {
        self.batch.len()
    }

    fn take_batch(&mut self) -> (b: Vec<LogRecord>)
        ensures
            b@ == old(self).model().batch,
            final (self).model() == (WorkerModel {
                batch: Seq::<LogRecord>::empty(),
                ..old(self).model()
            }),
    {
        let mut b: Vec<LogRecord> = Vec::new();
        core::mem::swap(&mut b, &mut self.batch);
        proof {
            assert(final (self).model() =~= WorkerModel {
                batch: Seq::<LogRecord>::empty(),
                ..old(self).model()
            });
        }
        b
    }

    /// React to one event while `Running`. The returned records, if any,
    /// are the batch to hand to the delivery client, in arrival order; the
    /// batch is already empty again when they are returned, whatever the
    /// delivery's outcome will be.
    pub fn step(&mut self, ev: WorkerEvent) -> (flush: Option<Vec<LogRecord>>)
        requires
            old(self).model().state == WorkerState::Running,
        ensures
            final (self).model() == spec_step(old(self).model(), ev).0,
            match flush {
                Some(b) => spec_step(old(self).model(), ev).1 == Some(b@),
                None => spec_step(old(self).model(), ev).1 is None,
            },
    {
        match ev {
            WorkerEvent::Shutdown => {
                self.state = WorkerState::Draining;
                proof {
                    assert(final (self).model() =~= spec_step(old(self).model(), ev).0);
                }
                None
            },
            WorkerEvent::Record(r) => {
                self.batch.push(r);
                if self.batch.len() >= self.batch_size {
                    let b = self.take_batch();
                    proof {
                        assert(final (self).model() =~= spec_step(old(self).model(), ev).0);
                    }
                    Some(b)
                } else {
                    proof {
                        assert(final (self).model() =~= spec_step(old(self).model(), ev).0);
                    }
                    None
                }
            },
            WorkerEvent::ChannelClosed => {
                self.state = WorkerState::Stopped;
                if self.batch.len() > 0 {
                    let b = self.take_batch();
                    proof {
                        assert(final (self).model() =~= spec_step(old(self).model(), ev).0);
                    }
                    Some(b)
                } else {
                    proof {
                        assert(final (self).model() =~= spec_step(old(self).model(), ev).0);
                    }
                    None
                }
            },
            WorkerEvent::Tick => {
                if self.batch.len() > 0 {
                    let b = self.take_batch();
                    proof {
                        assert(final (self).model() =~= spec_step(old(self).model(), ev).0);
                    }
                    Some(b)
                } else {
                    proof {
                        assert(final (self).model() =~= spec_step(old(self).model(), ev).0);
                    }
                    None
                }
            },
        }
    }

    /// Consume one already-buffered record while `Draining`, or, with
    /// `None`, flush the remainder and stop.
    pub fn drain_step(&mut self, rec: Option<LogRecord>) -> (flush: Option<Vec<LogRecord>>)
        requires
            old(self).model().state == WorkerState::Draining,
        ensures
            final (self).model() == spec_drain_step(old(self).model(), rec).0,
            match flush {
                Some(b) => spec_drain_step(old(self).model(), rec).1 == Some(b@),
                None => spec_drain_step(old(self).model(), rec).1 is None,
            },
    {
        match rec {
            Some(r) => {
                self.batch.push(r);
                if self.batch.len() >= self.batch_size {
                    let b = self.take_batch();
                    proof {
                        assert(final (self).model() =~= spec_drain_step(old(self).model(), rec).0);
                    }
                    Some(b)
                } else {
                    proof {
                        assert(final (self).model() =~= spec_drain_step(old(self).model(), rec).0);
                    }
                    None
                }
            },
            None => {
                self.state = WorkerState::Stopped;
                if self.batch.len() > 0 {
                    let b = self.take_batch();
                    proof {
                        assert(final (self).model() =~= spec_drain_step(old(self).model(), rec).0);
                    }
                    Some(b)
                } else {
                    proof {
                        assert(final (self).model() =~= spec_drain_step(old(self).model(), rec).0);
                    }
                    None
                }
            },
        }
    }

    /// Whether the worker is still `Running`.
    pub fn is_running(&self) -> (r: bool)
        ensures
            r == (self.model().state == WorkerState::Running),
    {
        match self.state {
            WorkerState::Running => true,
            _ => false,
        }
    }

    /// Whether the worker has stopped for good.
    pub fn is_stopped(&self) -> (r: bool)
        ensures
            r == (self.model().state == WorkerState::Stopped),
    {
        match self.state {
            WorkerState::Stopped => true,
            _ => false,
        }
    }
}

/// Feeding a sequence of records, one `spec_feed` at a time: the final
/// model and the flushes handed out on the way, in order.
pub open spec fn run_feed(m: WorkerModel, rs: Seq<LogRecord>) -> (WorkerModel, Seq<
    Seq<LogRecord>,
>)
    decreases rs.len(),
{
    if rs.len() == 0 {
        (m, Seq::empty())
    } else {
        let (m1, f) = spec_feed(m, rs[0]);
        let r = run_feed(m1, rs.drop_first());
        (
            r.0,
            match f {
                Some(b) => seq![b] + r.1,
                None => r.1,
            },
        )
    }
}

/// The number of delivery calls owed for `n` records in batches of `d`:
/// `n / d` rounded up.
pub open spec fn ceil_div(n: int, d: int) -> int {
    if n % d == 0 {
        n / d
    } else {
        n / d + 1
    }
}

/// Feeding records into a worker whose batch is below the threshold
/// flushes exactly one full batch per `batch_size` records gathered, each
/// flush carrying exactly `batch_size` records; what was fed is exactly
/// what was flushed followed by what stays buffered, in order; and the
/// batch stays below the threshold.
pub proof fn lemma_run_feed(m: WorkerModel, rs: Seq<LogRecord>)
    requires
        m.batch_size >= 1,
        m.batch.len() < m.batch_size,
    ensures
        run_feed(m, rs).0.state == m.state,
        run_feed(m, rs).0.batch_size == m.batch_size,
        run_feed(m, rs).0.batch.len() == (m.batch.len() + rs.len()) as int % (m.batch_size as int),
        run_feed(m, rs).1.len() == (m.batch.len() + rs.len()) as int / (m.batch_size as int),
        forall|i: int|
            0 <= i < run_feed(m, rs).1.len() ==> #[trigger] run_feed(m, rs).1[i].len()
                == m.batch_size,
        run_feed(m, rs).1.flatten() + run_feed(m, rs).0.batch == m.batch + rs,
    decreases rs.len(),
{
    let bs = m.batch_size as int;
    if rs.len() == 0 {
        lemma_fundamental_div_mod_converse(m.batch.len() as int, bs, 0, m.batch.len() as int);
        assert(run_feed(m, rs).1.flatten() =~= Seq::<LogRecord>::empty());
        assert(run_feed(m, rs).1.flatten() + run_feed(m, rs).0.batch =~= m.batch + rs);
    } else {
        let r = rs[0];
        let rest = rs.drop_first();
        let (m1, f) = spec_feed(m, r);
        let sub = run_feed(m1, rest);
        if m.batch.len() + 1 >= m.batch_size {
            // the batch filled up: one flush of exactly batch_size records
            let b = m.batch.push(r);
            assert(b.len() == m.batch_size);
            lemma_run_feed(m1, rest);
            lemma_hoist_over_denominator(rest.len() as int, 1, m.batch_size);
            lemma_mod_add_multiples_vanish(rest.len() as int, bs);
            assert((m.batch.len() + rs.len()) as int == rest.len() + bs);
            let fs = run_feed(m, rs).1;
            assert(fs == seq![b] + sub.1);
            assert(fs[0] == b);
            assert forall|i: int| 0 <= i < fs.len() implies #[trigger] fs[i].len()
                == m.batch_size by {
                if i > 0 {
                    assert(fs[i] == sub.1[i - 1]);
                }
            }
            assert(fs.first() == b);
            assert(fs.drop_first() =~= sub.1);
            assert(fs.flatten() == b + sub.1.flatten());
            assert(sub.1.flatten() + sub.0.batch == m1.batch + rest);
            assert(m1.batch + rest =~= rest);
            assert((b + sub.1.flatten()) + sub.0.batch =~= b + (sub.1.flatten() + sub.0.batch));
            assert(b + rest =~= m.batch + rs);
            assert(fs.flatten() + sub.0.batch =~= m.batch + rs);
        } else {
            lemma_run_feed(m1, rest);
            assert(run_feed(m, rs).1.flatten() + run_feed(m, rs).0.batch =~= m.batch + rs);
        }
    }
}

/// While fewer than `batch_size` records have been produced and the flush
/// timer has not elapsed, no delivery call is made: the records are merely
/// buffered, in order.
pub proof fn lemma_below_threshold_no_delivery(m: WorkerModel, rs: Seq<LogRecord>)
    requires
        m.batch_size >= 1,
        m.batch.len() == 0,
        rs.len() < m.batch_size,
    ensures
        run_feed(m, rs).1 == Seq::<Seq<LogRecord>>::empty(),
        run_feed(m, rs).0.batch == rs,
        run_feed(m, rs).0.state == m.state,
{
    lemma_run_feed(m, rs);
    lemma_fundamental_div_mod_converse(rs.len() as int, m.batch_size as int, 0, rs.len() as int);
    assert(run_feed(m, rs).1.len() == 0);
    assert(run_feed(m, rs).1 =~= Seq::<Seq<LogRecord>>::empty());
    assert(run_feed(m, rs).1.flatten() =~= Seq::<LogRecord>::empty());
    assert(run_feed(m, rs).0.batch =~= rs);
}

/// Delivering `n` records from an initially empty batch takes
/// `ceil(n / batch_size)` delivery calls: the full batches flushed while
/// feeding, plus one final flush of the remainder (on the timer, a close,
/// or the end of a drain) exactly when a remainder is left. Order is
/// preserved within and across the calls, and no call carries more than
/// `batch_size` records.
pub proof fn lemma_delivery_count(m: WorkerModel, rs: Seq<LogRecord>)
    requires
        m.batch_size >= 1,
        m.batch.len() == 0,
    ensures
        ({
            let full = run_feed(m, rs).1;
            let remainder = run_feed(m, rs).0.batch;
            let calls: int = full.len() + if remainder.len() > 0 {
                1int
            } else {
                0int
            };
            &&& calls == ceil_div(rs.len() as int, m.batch_size as int)
            &&& full.flatten() + remainder == rs
            &&& forall|i: int| 0 <= i < full.len() ==> #[trigger] full[i].len() == m.batch_size
            &&& remainder.len() < m.batch_size
        }),
{
    lemma_run_feed(m, rs);
}

/// Feeding every already-buffered record during a drain and then taking
/// the end-of-drain step: the final model and every flush handed out, in
/// order.
pub open spec fn run_drain(m: WorkerModel, rs: Seq<LogRecord>) -> (WorkerModel, Seq<
    Seq<LogRecord>,
>) {
    let fed = run_feed(m, rs);
    let fin = spec_drain_step(fed.0, None);
    (
        fin.0,
        match fin.1 {
            Some(b) => fed.1.push(b),
            None => fed.1,
        },
    )
}

/// On shutdown with `K` records already buffered in the channel and the
/// batch empty, draining issues exactly `ceil(K / batch_size)` delivery
/// calls before the worker stops — none at all when `K` is zero — and
/// every buffered record is delivered exactly once, in order.
pub proof fn lemma_drain_delivery(m: WorkerModel, rs: Seq<LogRecord>)
    requires
        m.batch_size >= 1,
        m.batch.len() == 0,
        m.state == WorkerState::Draining,
    ensures
        run_drain(m, rs).0.state == WorkerState::Stopped,
        run_drain(m, rs).0.batch.len() == 0,
        run_drain(m, rs).1.len() == ceil_div(rs.len() as int, m.batch_size as int),
        rs.len() == 0 ==> run_drain(m, rs).1 == Seq::<Seq<LogRecord>>::empty(),
        run_drain(m, rs).1.flatten() == rs,
{
    lemma_delivery_count(m, rs);
    let fed = run_feed(m, rs);
    if fed.0.batch.len() > 0 {
        fed.1.lemma_flatten_push(fed.0.batch);
        assert(run_drain(m, rs).1.flatten() =~= rs);
    } else {
        assert(fed.1.flatten() =~= fed.1.flatten() + fed.0.batch);
        assert(run_drain(m, rs).1.flatten() =~= rs);
    }
    if rs.len() == 0 {
        lemma_fundamental_div_mod_converse(0, m.batch_size as int, 0, 0);
        assert(run_drain(m, rs).1 =~= Seq::<Seq<LogRecord>>::empty());
    }
}

} // verus!
