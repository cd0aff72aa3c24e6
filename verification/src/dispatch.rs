//! The dispatcher's decision core: classifying the outcomes of one batch
//! in ascending id order, filtering records by body length, maintaining
//! the consecutive-soft-failure counter, and deciding termination.
//!
//! The batch fan-out itself (spawning one fetch per id and awaiting all
//! of them) happens outside the library; it hands this module the
//! outcomes of one batch, ordered by id, and performs the actions this
//! module returns.
use vstd::prelude::*;

use crate::extract::{ExtractionOutcome, HardReason, OutcomeModel};
use crate::record::{row_of, Joke, JokeModel, RowModel, WockaJoke};
use crate::text::chars_vec;

verus! {

/// The dispatcher's state between batches: the id immediately before the
/// next batch's range, and how many soft failures have been seen since
/// the last success.
#[derive(Debug, Clone, Copy, PartialEq, Eq)]
pub struct BatchState {
    pub offset: u64,
    pub consecutive_soft_failures: u64,
}

/// The configuration of one run.
#[derive(Debug, Clone, Copy, PartialEq, Eq)]
pub struct DispatchConfig {
    /// How many ids one batch covers; positive.
    pub batch_size: u64,
    /// The run terminates once the consecutive-soft-failure counter
    /// exceeds this threshold at a batch boundary.
    pub failure_threshold: u64,
    /// The courtesy delay between batches, in milliseconds.
    pub inter_batch_delay_ms: u64,
    /// When set, records whose body has more characters than this are
    /// dropped before they reach the sink.
    pub length_limit: Option<u64>,
}

impl BatchState {
    /// The state a run starts from.
    pub fn start() -> (s: BatchState)
        ensures
            s.offset == 0,
            s.consecutive_soft_failures == 0,
    {
        BatchState { offset: 0, consecutive_soft_failures: 0 }
    }
}

/// Whether a record with the given body passes the length filter: it
/// does whenever no limit is set, and otherwise exactly when the body
/// has at most `limit` characters.
pub open spec fn accept_spec(body: Seq<char>, limit: Option<u64>) -> bool {
    match limit {
        Option::None => true,
        Option::Some(l) => body.len() <= l,
    }
}

/// The length filter: returns false exactly when a limit is set and the
/// body of `record` is longer than it. No side effects.
pub fn accept(record: &WockaJoke, limit: Option<u64>) -> (b: bool)
    ensures
        b == accept_spec(record@.body, limit),
{
    match limit {
        Option::None => true,
        Option::Some(l) => {
            let body = chars_vec(record.body.as_str());
            body.len() as u64 <= l
        },
    }
}

/// The consecutive-soft-failure counter after processing `outs` in
/// order, starting from `c`: a success resets it to zero, a soft failure
/// increments it, a hard failure leaves it unchanged.
pub open spec fn counter_after(c: int, outs: Seq<OutcomeModel>) -> int
    decreases outs.len(),
{
    if outs.len() == 0 {
        c
    } else {
        match outs.last() {
            OutcomeModel::Success(_) => 0,
            OutcomeModel::SoftFailure(_) => counter_after(c, outs.drop_last()) + 1,
            OutcomeModel::HardFailure(_) => counter_after(c, outs.drop_last()),
        }
    }
}

/// The records of `outs` that reach the sink, in outcome order: the
/// successes whose body passes the length filter.
pub open spec fn accepted_records(outs: Seq<OutcomeModel>, limit: Option<u64>) -> Seq<JokeModel>
    decreases outs.len(),
{
    if outs.len() == 0 {
        Seq::empty()
    } else {
        let kept = match outs.last() {
            OutcomeModel::Success(j) => if accept_spec(j.body, limit) {
                seq![j]
            } else {
                Seq::<JokeModel>::empty()
            },
            _ => Seq::<JokeModel>::empty(),
        };
        accepted_records(outs.drop_last(), limit) + kept
    }
}

/// The sink rows for the accepted records of `outs`, in order.
pub open spec fn batch_rows(outs: Seq<OutcomeModel>, limit: Option<u64>) -> Seq<RowModel> {
    accepted_records(outs, limit).map_values(|j: JokeModel| row_of(j))
}

proof fn lemma_counter_after_bounds(c: int, outs: Seq<OutcomeModel>)
    requires
        c >= 0,
    ensures
        0 <= counter_after(c, outs) <= c + outs.len(),
    decreases outs.len(),
{
    if outs.len() > 0 {
        lemma_counter_after_bounds(c, outs.drop_last());
    }
}

/// Processes the outcomes of one batch, given in ascending id order:
/// forwards the accepted successes to the sink in that same order,
/// updates the counter and the offset, and decides termination. The
/// returned flag is true exactly when the new counter exceeds the
/// configured threshold, which is the only way a run ends.
pub fn process_batch(state: &BatchState, outcomes: &Vec<ExtractionOutcome>, cfg: &DispatchConfig) -> (r: (
    BatchState,
    Vec<Joke>,
    bool,
))
    requires
        state.offset + outcomes@.len() <= u64::MAX,
        state.consecutive_soft_failures + outcomes@.len() <= u64::MAX,
    ensures
        r.0.offset == state.offset + outcomes@.len(),
        r.0.consecutive_soft_failures == counter_after(
            state.consecutive_soft_failures as int,
            outcomes.deep_view(),
        ),
        r.1.deep_view() == batch_rows(outcomes.deep_view(), cfg.length_limit),
        r.2 == (r.0.consecutive_soft_failures > cfg.failure_threshold),
{
    let ghost c0 = state.consecutive_soft_failures as int;
    let ghost models = outcomes.deep_view();
    let mut counter: u64 = state.consecutive_soft_failures;
    let mut rows: Vec<Joke> = Vec::new();
    let mut i: usize = 0;
    while i < outcomes.len()
        invariant
            i <= outcomes.len(),
            counter == counter_after(c0, models.subrange(0, i as int)),
            counter <= c0 + i,
            rows.deep_view() == batch_rows(models.subrange(0, i as int), cfg.length_limit),
        decreases outcomes.len() - i,
    {
        let ghost prefix = models.subrange(0, i as int);
        let ghost next = models.subrange(0, i + 1);
        proof {
            assert(next.drop_last() =~= prefix);
            assert(next.last() == models[i as int]);
            lemma_counter_after_bounds(c0, prefix);
        }
        match &outcomes[i] {
            ExtractionOutcome::Success(j) => {
                if accept(j, cfg.length_limit) {
                    let row = Joke::from_wocka(j);
                    let ghost rv = row@;
                    rows.push(row);
                    proof {
                        assert(rv == row_of(j@));
                        assert(accepted_records(next, cfg.length_limit) =~= accepted_records(
                            prefix,
                            cfg.length_limit,
                        ).push(j@));
                        assert(batch_rows(next, cfg.length_limit) =~= batch_rows(
                            prefix,
                            cfg.length_limit,
                        ).push(row_of(j@)));
                        assert(rows.deep_view() =~= batch_rows(prefix, cfg.length_limit).push(rv));
                    }
                } else {
                    proof {
                        assert(accepted_records(next, cfg.length_limit) =~= accepted_records(
                            prefix,
                            cfg.length_limit,
                        ));
                        assert(rows.deep_view() =~= batch_rows(next, cfg.length_limit));
                    }
                }
                counter = 0;
            },
            ExtractionOutcome::SoftFailure(_) => {
                counter = counter + 1;
                proof {
                    assert(accepted_records(next, cfg.length_limit) =~= accepted_records(
                        prefix,
                        cfg.length_limit,
                    ));
                    assert(rows.deep_view() =~= batch_rows(next, cfg.length_limit));
                }
            },
            ExtractionOutcome::HardFailure(_) => {
                proof {
                    assert(accepted_records(next, cfg.length_limit) =~= accepted_records(
                        prefix,
                        cfg.length_limit,
                    ));
                    assert(rows.deep_view() =~= batch_rows(next, cfg.length_limit));
                }
            },
        }
        i += 1;
    }
    proof {
        assert(models.subrange(0, models.len() as int) =~= models);
    }
    let new_state = BatchState {
        offset: state.offset + outcomes.len() as u64,
        consecutive_soft_failures: counter,
    };
    let terminate = counter > cfg.failure_threshold;
    (new_state, rows, terminate)
}

/// How many of the outcomes are soft failures.
pub open spec fn soft_count(outs: Seq<OutcomeModel>) -> int
    decreases outs.len(),
{
    if outs.len() == 0 {
        0
    } else {
        soft_count(outs.drop_last()) + (if outs.last() is SoftFailure {
            1int
        } else {
            0int
        })
    }
}

/// With no success among the outcomes, the counter only accumulates: it
/// ends at its start plus the number of soft failures among them, so
/// hard failures never move it.
pub proof fn lemma_counter_no_success(c: int, outs: Seq<OutcomeModel>)
    requires
        forall|j: int| 0 <= j < outs.len() ==> !(outs[j] is Success),
    ensures
        counter_after(c, outs) == c + soft_count(outs),
    decreases outs.len(),
{
    if outs.len() > 0 {
        let d = outs.drop_last();
        assert(forall|j: int| 0 <= j < d.len() ==> d[j] == outs[j]);
        lemma_counter_no_success(c, d);
    }
}

/// A single success anywhere resets the counter: after the last success
/// the counter is exactly the number of soft failures that follow it,
/// whatever the counter held before and whatever came before the
/// success.
pub proof fn lemma_success_resets(c: int, outs: Seq<OutcomeModel>, i: int)
    requires
        0 <= i < outs.len(),
        outs[i] is Success,
        forall|j: int| i < j < outs.len() ==> !(outs[j] is Success),
    ensures
        counter_after(c, outs) == soft_count(outs.subrange(i + 1, outs.len() as int)),
    decreases outs.len(),
{
    if i == outs.len() - 1 {
        assert(outs.last() is Success);
        assert(outs.subrange(i + 1, outs.len() as int) =~= Seq::<OutcomeModel>::empty());
    } else {
        let d = outs.drop_last();
        assert(forall|j: int| 0 <= j < d.len() ==> d[j] == outs[j]);
        lemma_success_resets(c, d, i);
        let tail = outs.subrange(i + 1, outs.len() as int);
        let tail_d = d.subrange(i + 1, d.len() as int);
        assert(tail.drop_last() =~= tail_d);
        assert(tail.last() == outs.last());
        assert(!(outs.last() is Success));
    }
}

/// A hard failure inserted anywhere among the outcomes leaves the
/// counter exactly as it was without it: only successes and soft
/// failures move the counter.
pub proof fn lemma_hard_failure_ignored(c: int, outs: Seq<OutcomeModel>, i: int, h: HardReason)
    requires
        0 <= i <= outs.len(),
    ensures
        counter_after(c, outs.insert(i, OutcomeModel::HardFailure(h))) == counter_after(c, outs),
    decreases outs.len(),
{
    let s = outs.insert(i, OutcomeModel::HardFailure(h));
    if i == outs.len() {
        assert(s.drop_last() =~= outs);
        assert(s.last() == OutcomeModel::HardFailure(h));
    } else {
        assert(s.last() == outs.last());
        assert(s.drop_last() =~= outs.drop_last().insert(i, OutcomeModel::HardFailure(h)));
        lemma_hard_failure_ignored(c, outs.drop_last(), i, h);
    }
}

/// Whether the outcomes of one batch starting after `offset` carry the
/// ids of their positions: the outcome at position `k` speaks for id
/// `offset + k + 1`, so a success there holds a record with that id.
pub open spec fn batch_ids_consistent(outs: Seq<OutcomeModel>, offset: int) -> bool {
    forall|k: int|
        0 <= k < outs.len() ==> match #[trigger] outs[k] {
            OutcomeModel::Success(j) => j.id == offset + k + 1,
            _ => true,
        }
}

/// The ids of the records, in record order.
pub open spec fn ids_of(records: Seq<JokeModel>) -> Seq<u64> {
    records.map_values(|j: JokeModel| j.id)
}

pub open spec fn strictly_ascending(ids: Seq<u64>) -> bool {
    forall|a: int, b: int| 0 <= a < b < ids.len() ==> ids[a] < ids[b]
}

/// The records one batch forwards to the sink carry strictly ascending
/// ids, all inside the batch's id range.
pub proof fn lemma_batch_output_ascending(outs: Seq<OutcomeModel>, offset: int, limit: Option<u64>)
    requires
        0 <= offset,
        offset + outs.len() <= u64::MAX,
        batch_ids_consistent(outs, offset),
    ensures
        ({
            let ids = ids_of(accepted_records(outs, limit));
            &&& strictly_ascending(ids)
            &&& forall|k: int| 0 <= k < ids.len() ==> offset < #[trigger] ids[k] <= offset + outs.len()
        }),
    decreases outs.len(),
{
    if outs.len() > 0 {
        let d = outs.drop_last();
        assert(forall|j: int| 0 <= j < d.len() ==> d[j] == outs[j]);
        lemma_batch_output_ascending(d, offset, limit);
        let accd = accepted_records(d, limit);
        let acc = accepted_records(outs, limit);
        match outs.last() {
            OutcomeModel::Success(j) => {
                if accept_spec(j.body, limit) {
                    assert(outs[outs.len() - 1] == outs.last());
                    assert(j.id == offset + outs.len());
                    assert(acc =~= accd.push(j));
                    assert(ids_of(acc) =~= ids_of(accd).push(j.id));
                } else {
                    assert(acc =~= accd);
                    assert(ids_of(acc) =~= ids_of(accd));
                }
            },
            OutcomeModel::SoftFailure(_) => {
                assert(acc =~= accd);
                assert(ids_of(acc) =~= ids_of(accd));
            },
            OutcomeModel::HardFailure(_) => {
                assert(acc =~= accd);
                assert(ids_of(acc) =~= ids_of(accd));
            },
        }
    }
}

/// Whether a whole run's batches are consistently numbered: the first
/// batch covers the ids right after `offset`, and each following batch
/// the ids right after the previous batch's range.
pub open spec fn run_ids_consistent(offset: int, batches: Seq<Seq<OutcomeModel>>) -> bool
    decreases batches.len(),
{
    if batches.len() == 0 {
        true
    } else {
        &&& batch_ids_consistent(batches.first(), offset)
        &&& offset + batches.first().len() <= u64::MAX
        &&& run_ids_consistent(offset + batches.first().len(), batches.drop_first())
    }
}

/// Everything a run forwards to the sink, in the order it is forwarded:
/// the accepted records of each batch, batches in order.
pub open spec fn run_records(batches: Seq<Seq<OutcomeModel>>, limit: Option<u64>) -> Seq<JokeModel>
    decreases batches.len(),
{
    if batches.len() == 0 {
        Seq::empty()
    } else {
        accepted_records(batches.first(), limit) + run_records(batches.drop_first(), limit)
    }
}

/// Across a whole run, the sink receives records in strictly ascending
/// id order: outcomes are consumed by position within a batch and
/// batches in offset order, so completion order never reaches the sink.
pub proof fn lemma_run_output_ascending(
    offset: int,
    batches: Seq<Seq<OutcomeModel>>,
    limit: Option<u64>,
)
    requires
        0 <= offset,
        run_ids_consistent(offset, batches),
    ensures
        ({
            let ids = ids_of(run_records(batches, limit));
            &&& strictly_ascending(ids)
            &&& forall|k: int| 0 <= k < ids.len() ==> offset < #[trigger] ids[k]
        }),
    decreases batches.len(),
{
    if batches.len() > 0 {
        let first = batches.first();
        let rest = batches.drop_first();
        lemma_batch_output_ascending(first, offset, limit);
        lemma_run_output_ascending(offset + first.len(), rest, limit);
        let ids1 = ids_of(accepted_records(first, limit));
        let ids2 = ids_of(run_records(rest, limit));
        let ids = ids_of(run_records(batches, limit));
        assert(ids =~= ids1 + ids2);
        assert forall|a: int, b: int| 0 <= a < b < ids.len() implies ids[a] < ids[b] by {
            if b < ids1.len() {
                assert(ids[a] == ids1[a] && ids[b] == ids1[b]);
            } else if a >= ids1.len() {
                assert(ids[a] == ids2[a - ids1.len()] && ids[b] == ids2[b - ids1.len()]);
            } else {
                assert(ids[a] == ids1[a] && ids[b] == ids2[b - ids1.len()]);
                assert(ids1[a] <= offset + first.len());
                assert(ids2[b - ids1.len()] > offset + first.len());
            }
        }
    }
}

/// The ids of the next batch: `offset + 1` up to `offset + batch_size`,
/// ascending.
pub fn batch_ids(offset: u64, batch_size: u64) -> (r: Vec<u64>)
    requires
        offset + batch_size <= u64::MAX,
    ensures
        r@.len() == batch_size,
        forall|i: int| 0 <= i < batch_size ==> r@[i] == offset + i + 1,
{
    let mut r: Vec<u64> = Vec::new();
    let mut k: u64 = 0;
    while k < batch_size
        invariant
            k <= batch_size,
            offset + batch_size <= u64::MAX,
            r@.len() == k,
            forall|i: int| 0 <= i < k ==> r@[i] == offset + i + 1,
        decreases batch_size - k,
    {
        r.push(offset + k + 1);
        k += 1;
    }
    r
}

} // verus!
