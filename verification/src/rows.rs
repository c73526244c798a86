//! The state of one resolver's row, and how long its answer may be cached.
use vstd::prelude::*;

use crate::clock;
use crate::clock::{Duration, Instant, NANOS_PER_SEC};
use crate::dns::QueryResult;
use crate::text;

verus! {

/// One resolver's row.
#[derive(Debug, Clone)]
pub enum RowState {
    Idle,
    Pending,
    Done {
        result: QueryResult,
        elapsed: Duration,
        /// When the answer arrived; the cache-expiry countdown starts here.
        at: Instant,
        /// Whether the resolver honored the round's client subnet. Always
        /// `None` on rounds without one.
        ecs_honored: Option<bool>,
    },
}

/// One answer of a resolver, kept to judge its cache over successive polls.
#[derive(Debug, Clone)]
pub struct Observation {
    pub values: Vec<String>,
    pub min_ttl: u32,
    pub at: Instant,
}

/// Why a resolver still serves an answer outside the majority.
#[derive(Debug, Clone, Copy, PartialEq, Eq, Structural)]
pub enum TtlVerdict {
    /// The answer outlived the TTL that the resolver itself reported.
    PastTtl,
    /// The TTL went back up while the answer stayed the same: the resolver did
    /// refetch, and upstream still handed out the old data.
    Upstream,
}

/// Does the row hold record values?
pub open spec fn has_records(row: RowState) -> bool {
    row matches RowState::Done { result: QueryResult::Records { .. }, .. }
}

/// The TTL that a row with record values reports.
pub open spec fn reported_ttl(row: RowState) -> u32 {
    row->result->min_ttl
}

/// Did the resolver answer a different question than the one asked, by
/// ignoring the client subnet? Only a real answer can.
pub open spec fn subnet_blind(row: RowState) -> bool {
    match row {
        RowState::Done { result, ecs_honored, .. } => ecs_honored == Some(false) && (
        result is Records || result is NoRecords),
        _ => false,
    }
}

/// The record values that count toward propagation, if the row has any.
pub open spec fn answer(row: RowState) -> Option<Seq<Seq<char>>> {
    match row {
        RowState::Done { result: QueryResult::Records { values, .. }, .. } if !subnet_blind(
            row,
        ) => Some(text::texts(values@)),
        _ => None,
    }
}

/// Nanoseconds left before the row's cache entry must be refetched.
pub open spec fn ttl_left(row: RowState, now: Instant) -> int {
    clock::minus(reported_ttl(row) * NANOS_PER_SEC, clock::minus(now.nanos as int, row->at.nanos as int))
}

impl RowState {
    /// Time left before the TTL that this row reported says that the cache
    /// entry must be refetched. `None` for rows without records.
    pub fn remaining_ttl(&self, now: Instant) -> (out: Option<Duration>)
        ensures
            out is Some <==> has_records(*self),
            out is Some ==> out->0.nanos == ttl_left(*self, now),
    {
        match self {
            RowState::Done { result: QueryResult::Records { min_ttl, .. }, at, .. } => {
                let ttl = Duration::from_secs(*min_ttl as u64);
                Some(ttl.saturating_sub(now.saturating_duration_since(*at)))
            },
            _ => None,
        }
    }

    /// Does the row hold record values?
    pub fn has_records(&self) -> (out: bool)
        ensures
            out == has_records(*self),
    {
        matches!(self, RowState::Done { result: QueryResult::Records { .. }, .. })
    }

    /// The record values that count toward propagation, if the row has any.
    pub fn answer(&self) -> (out: Option<&Vec<String>>)
        ensures
            out is Some <==> answer(*self) is Some,
            out is Some ==> answer(*self)->0 == text::texts(out->0@),
    {
        match self {
            RowState::Done { result: QueryResult::Records { values, .. }, ecs_honored, .. } => {
                match ecs_honored {
                    Some(false) => None,
                    _ => Some(values),
                }
            },
            _ => None,
        }
    }
}

// ---------------------------------------------------------------- laws

/// A row with record values that answer the question asked.
pub open spec fn gives_records(row: RowState) -> bool {
    row matches RowState::Done { result: QueryResult::Records { .. }, ecs_honored, .. }
        && ecs_honored != Some(false)
}

/// A row with record values that answer the question asked, `v` among them.
pub open spec fn gives_value(row: RowState, v: Seq<char>) -> bool {
    row matches RowState::Done { result: QueryResult::Records { values, .. }, ecs_honored, .. }
        && ecs_honored != Some(false) && exists|k: int|
        0 <= k < values@.len() && (#[trigger] values@[k])@ == v
}

/// A row counts toward propagation exactly when it holds record values and did
/// not ignore the client subnet, and all of its values count.
pub proof fn answers_are_record_values(row: RowState, v: Seq<char>)
    ensures
        answer(row) is Some <==> gives_records(row),
        (answer(row) is Some && answer(row)->0.contains(v)) <==> gives_value(row, v),
{
    if let RowState::Done { result: QueryResult::Records { values, .. }, .. } = row {
        let list = text::texts(values@);
        if gives_value(row, v) {
            let k = choose|k: int| 0 <= k < values@.len() && (#[trigger] values@[k])@ == v;
            assert(list[k] == v);
        }
        if list.contains(v) {
            let k = choose|k: int| 0 <= k < list.len() && list[k] == v;
            assert(values@[k]@ == v);
        }
    }
}

/// The time left is what the reported TTL has not yet used up: all of it when
/// the answer arrives, a second less each second, and nothing once it has run
/// out. It never comes back.
pub proof fn time_left_runs_down(
    values: Vec<String>,
    min_ttl: u32,
    elapsed: Duration,
    at: Instant,
    ecs_honored: Option<bool>,
    now: Instant,
    later: Instant,
)
    requires
        at.nanos <= now.nanos <= later.nanos,
    ensures
        ({
            let row = RowState::Done {
                result: QueryResult::Records { values, min_ttl },
                elapsed,
                at,
                ecs_honored,
            };
            let whole = min_ttl * 1_000_000_000;
            let age = now.nanos - at.nanos;
            &&& has_records(row)
            &&& ttl_left(row, at) == whole
            &&& age <= whole ==> ttl_left(row, now) + age == whole
            &&& age >= whole ==> ttl_left(row, now) == 0
            &&& ttl_left(row, later) <= ttl_left(row, now) <= ttl_left(row, later) + (later.nanos
                - now.nanos)
        }),
{
}

/// Only rows with record values hold records.
pub proof fn only_records_have_a_ttl(row: RowState)
    requires
        has_records(row),
    ensures
        row is Done && row->result is Records,
        reported_ttl(row) == row->result->min_ttl,
{
}

} // verus!
