//! Sending an inventory in batches, each as large as the plan allows.

use vstd::prelude::*;

use crate::http::{ThreatError, ThreatErrorView};
use crate::number::{decimal, to_decimal};
use crate::plan::{batch_cap, tier_batch_cap};
use crate::text::concat5;

verus! {

/// How far the sending has come: the queries that were answered, and the greatest
/// batch that the server is known to take. That bound only goes down.
pub struct BatchRun<T> {
    results: Vec<T>,
    ceiling: usize,
    total: usize,
}

pub struct BatchRunView<A> {
    pub results: Seq<A>,
    pub ceiling: usize,
    pub total: usize,
}

impl<T: DeepView> DeepView for BatchRun<T> {
    type V = BatchRunView<T::V>;

    closed spec fn deep_view(&self) -> BatchRunView<T::V> {
        BatchRunView {
            results: self.results.deep_view(),
            ceiling: self.ceiling,
            total: self.total,
        }
    }
}

/// The size of the next batch: what is left, but no more than the plan and the
/// server take.
pub open spec fn chunk_size<A>(run: BatchRunView<A>, limit_hourly: u64) -> nat {
    let left = (run.total - run.results.len()) as nat;
    let cap = if batch_cap(limit_hourly) < run.ceiling {
        batch_cap(limit_hourly)
    } else {
        run.ceiling as nat
    };
    if left < cap {
        left
    } else {
        cap
    }
}

/// The bound after the server found a batch of `size` too large.
pub open spec fn lower_ceiling(size: nat, max_batch: Option<usize>) -> nat {
    match max_batch {
        Some(n) => if 1 <= n < size {
            n as nat
        } else {
            size / 2
        },
        None => size / 2,
    }
}

/// What the reply to a batch of `size` queries leads to.
pub open spec fn after_reply<A>(
    run: BatchRunView<A>,
    size: nat,
    reply: Result<Seq<A>, ThreatErrorView>,
) -> Result<BatchRunView<A>, ThreatErrorView> {
    match reply {
        Ok(results) => if results.len() != size {
            Err(
                ThreatErrorView::Other(
                    "match/batch alignment error: sent "@ + decimal(size) + " queries, got "@
                        + decimal(results.len()) + " results"@,
                ),
            )
        } else {
            Ok(
                BatchRunView {
                    results: run.results + results,
                    ceiling: run.ceiling,
                    total: run.total,
                },
            )
        },
        Err(ThreatErrorView::BatchTooLarge(max_batch)) => if size <= 1 {
            Err(ThreatErrorView::BatchTooLarge(max_batch))
        } else {
            Ok(
                BatchRunView {
                    results: run.results,
                    ceiling: lower_ceiling(size, max_batch) as usize,
                    total: run.total,
                },
            )
        },
        Err(e) => Err(e),
    }
}

/// Whether a run can be: it has room for a query in a batch, and not more answers
/// than queries.
pub open spec fn run_is_valid<A>(run: BatchRunView<A>) -> bool {
    run.ceiling >= 1 && run.results.len() <= run.total
}

pub open spec fn reply_view<T: DeepView>(r: Result<Vec<T>, ThreatError>) -> Result<
    Seq<T::V>,
    ThreatErrorView,
> {
    match r {
        Ok(v) => Ok(v.deep_view()),
        Err(e) => Err(e.deep_view()),
    }
}

impl<T: DeepView> BatchRun<T> {
    pub open spec fn well_formed(&self) -> bool {
        run_is_valid(self.deep_view())
    }

    /// The sending of so many queries, before the first batch.
    pub fn new(total: usize) -> (r: Self)
        ensures
            r.well_formed(),
            r.deep_view() == (BatchRunView {
                results: Seq::<T::V>::empty(),
                ceiling: usize::MAX,
                total,
            }),
    {
        let r = BatchRun { results: Vec::new(), ceiling: usize::MAX, total };
        assert(r.results.deep_view() =~= Seq::<T::V>::empty());
        r
    }

    /// Where the next batch begins and ends among the queries; none when all have
    /// been answered.
    pub fn next_chunk(&self, limit_hourly: u64) -> (r: Option<(usize, usize)>)
        requires
            self.well_formed(),
        ensures
            match r {
                Some((from, to)) => {
                    &&& self.deep_view().results.len() < self.deep_view().total
                    &&& from == self.deep_view().results.len()
                    &&& to == from + chunk_size(self.deep_view(), limit_hourly)
                    &&& from < to <= self.deep_view().total
                },
                None => self.deep_view().results.len() == self.deep_view().total,
            },
    {
        let done: usize = self.results.len();
        assert(self.deep_view().results.len() == done);
        if done == self.total {
            return None;
        }
        let left: usize = self.total - done;
        let cap: usize = tier_batch_cap(limit_hourly);
        let cap: usize = if cap < self.ceiling {
            cap
        } else {
            self.ceiling
        };
        let size: usize = if left < cap {
            left
        } else {
            cap
        };
        Some((done, done + size))
    }

    /// Takes in the reply to a batch of `size` queries. After a reply that they
    /// were too many the same queries are to be sent again in smaller batches.
    pub fn absorb(&mut self, size: usize, reply: Result<Vec<T>, ThreatError>) -> (r: Result<
        (),
        ThreatError,
    >)
        requires
            old(self).well_formed(),
            1 <= size <= old(self).deep_view().total - old(self).deep_view().results.len(),
        ensures
            match r {
                Ok(_) => final(self).well_formed() && after_reply(
                    old(self).deep_view(),
                    size as nat,
                    reply_view(reply),
                ) == Ok::<BatchRunView<T::V>, ThreatErrorView>(final(self).deep_view()),
                Err(e) => after_reply(old(self).deep_view(), size as nat, reply_view(reply)) == Err::<
                    BatchRunView<T::V>,
                    ThreatErrorView,
                >(e.deep_view()),
            },
    {
        match reply {
            Ok(results) => {
                let n: usize = results.len();
                assert(results.deep_view().len() == n);
                if n != size {
                    let a = to_decimal(size as u64);
                    let b = to_decimal(n as u64);
                    return Err(
                        ThreatError::Other(
                            concat5(
                                "match/batch alignment error: sent ",
                                a.as_str(),
                                " queries, got ",
                                b.as_str(),
                                " results",
                            ),
                        ),
                    );
                }
                let ghost before = self.results.deep_view();
                let ghost more = results.deep_view();
                let mut rest = results;
                self.results.append(&mut rest);
                assert(self.results.deep_view() =~= before + more);
                Ok(())
            },
            Err(ThreatError::BatchTooLarge(max_batch)) => {
                if size <= 1 {
                    return Err(ThreatError::BatchTooLarge(max_batch));
                }
                self.ceiling = match max_batch {
                    Some(n) => if 1 <= n && n < size {
                        n
                    } else {
                        size / 2
                    },
                    None => size / 2,
                };
                Ok(())
            },
            Err(e) => Err(e),
        }
    }

    /// The answers, in the order of the queries.
    pub fn into_results(self) -> (r: Vec<T>)
        ensures
            r.deep_view() == self.deep_view().results,
    {
        self.results
    }
}

/// Every batch brings the end nearer: each reply that does not end the sending
/// with an error leaves fewer queries to send, or lets fewer be sent at a time.
pub proof fn batches_make_progress<A>(
    run: BatchRunView<A>,
    limit_hourly: u64,
    later_limit: u64,
    reply: Result<Seq<A>, ThreatErrorView>,
)
    requires
        run_is_valid(run),
        run.results.len() < run.total,
        after_reply(run, chunk_size(run, limit_hourly), reply) is Ok,
    ensures
        ({
            let next = after_reply(run, chunk_size(run, limit_hourly), reply)->Ok_0;
            &&& run_is_valid(next)
            &&& next.total == run.total
            &&& next.results.len() > run.results.len() || (next.results == run.results
                && next.ceiling < chunk_size(run, limit_hourly) && next.ceiling < run.ceiling
                && chunk_size(next, later_limit) < chunk_size(run, limit_hourly))
        }),
{
    let size = chunk_size(run, limit_hourly);
    assert(size / 2 < size && (size >= 2 ==> size / 2 >= 1));
}

/// An answer stays with its query: what was answered before is not touched, and a
/// batch is taken in only with one answer for each of its queries.
pub proof fn answers_stay_aligned<A>(
    run: BatchRunView<A>,
    size: nat,
    reply: Result<Seq<A>, ThreatErrorView>,
)
    requires
        after_reply(run, size, reply) is Ok,
    ensures
        ({
            let next = after_reply(run, size, reply)->Ok_0;
            &&& next.results.take(run.results.len() as int) == run.results
            &&& next.results.len() > run.results.len() ==> next.results.len() == run.results.len()
                + size
        }),
{
    let next = after_reply(run, size, reply)->Ok_0;
    assert(next.results.take(run.results.len() as int) =~= run.results);
}

/// A single query that the server finds too large ends the sending.
pub proof fn a_single_query_is_not_split<A>(run: BatchRunView<A>, max_batch: Option<usize>)
    ensures
        after_reply(run, 1, Err(ThreatErrorView::BatchTooLarge(max_batch))) == Err::<
            BatchRunView<A>,
            ThreatErrorView,
        >(ThreatErrorView::BatchTooLarge(max_batch)),
{
}

} // verus!
