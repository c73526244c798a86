//! The order in which the table shows its rows.
use vstd::prelude::*;

use crate::app::{App, SortMode};
use crate::clock::Instant;
use crate::dns::QueryResult;
use crate::history;
use crate::order;
use crate::rows::RowState;
use crate::summary::Summary;
use crate::text;

verus! {

/// How long the answer of a row took; the longest time for a row without one.
pub open spec fn time_key(row: RowState) -> u64 {
    match row {
        RowState::Done { elapsed, .. } => elapsed.nanos,
        _ => u64::MAX,
    }
}

/// How urgent a row is: misbehaving caches first, then other disagreement,
/// then failures, then agreement, then rows without a result. While queries
/// are under way every answer counts as agreement.
pub open spec fn status_key(app: App, marks: Seq<bool>, now: Instant, i: int) -> int {
    match app.rows@[i] {
        RowState::Done { result, .. } => match result {
            QueryResult::Records { .. } => if app.busy() || marks[i] {
                5
            } else if history::verdict(app.history@[i]@, now) is Some {
                0
            } else {
                1
            },
            QueryResult::NoRecords(_) => 2,
            QueryResult::ServFail => 3,
            QueryResult::Error(_) => 4,
        },
        RowState::Pending => 6,
        RowState::Idle => 7,
    }
}

/// The record values of a row, if it has any.
pub open spec fn values_key(row: RowState) -> Option<Seq<Seq<char>>> {
    match row {
        RowState::Done { result: QueryResult::Records { values, .. }, .. } => Some(
            text::texts(values@),
        ),
        _ => None,
    }
}

/// Does one list of values come before another? No values come last.
pub open spec fn values_before(a: Option<Seq<Seq<char>>>, b: Option<Seq<Seq<char>>>) -> bool {
    match (a, b) {
        (Some(x), Some(y)) => order::list_lt(x, y),
        (Some(_), None) => true,
        _ => false,
    }
}

/// Does row `i` come before row `j`, by what the table is sorted by?
pub open spec fn before(app: App, marks: Seq<bool>, now: Instant, i: int, j: int) -> bool {
    match app.sort {
        SortMode::Resolver => false,
        SortMode::Location => order::text_lt(app.location(i), app.location(j)),
        SortMode::Time => time_key(app.rows@[i]) < time_key(app.rows@[j]),
        SortMode::Status => status_key(app, marks, now, i) < status_key(app, marks, now, j),
        SortMode::Answer => values_before(values_key(app.rows@[i]), values_key(app.rows@[j])),
    }
}

/// Does row `i` come before row `j` in the table? Rows that are equal by what
/// the table is sorted by keep the order of the resolver list.
pub open spec fn precedes(app: App, marks: Seq<bool>, now: Instant, i: int, j: int) -> bool {
    before(app, marks, now, i, j) || (!before(app, marks, now, j, i) && i < j)
}

/// Is `list` the first `n` rows, each once, in the order of the table?
pub open spec fn in_order(
    app: App,
    marks: Seq<bool>,
    now: Instant,
    list: Seq<usize>,
    n: nat,
) -> bool {
    &&& list.len() == n
    &&& forall|k: int| 0 <= k < n ==> (#[trigger] list[k]) < n
    &&& forall|i: int| 0 <= i < n ==> #[trigger] list.contains(i as usize)
    &&& forall|a: int, b: int|
        0 <= a < b < n ==> precedes(
            app,
            marks,
            now,
            #[trigger] list[a] as int,
            #[trigger] list[b] as int,
        )
}

/// No row comes before itself.
pub proof fn before_irreflexive(app: App, marks: Seq<bool>, now: Instant, i: int)
    ensures
        !before(app, marks, now, i, i),
{
    order::text_lt_irreflexive(app.location(i));
    if let Some(x) = values_key(app.rows@[i]) {
        order::list_lt_irreflexive(x);
    }
}

/// What comes before something that comes before a third comes before the third.
pub proof fn before_transitive(app: App, marks: Seq<bool>, now: Instant, i: int, j: int, k: int)
    requires
        before(app, marks, now, i, j),
        before(app, marks, now, j, k),
    ensures
        before(app, marks, now, i, k),
{
    match app.sort {
        SortMode::Location => {
            order::text_lt_transitive(app.location(i), app.location(j), app.location(k));
        },
        SortMode::Answer => {
            if let (Some(x), Some(y), Some(z)) = (
                values_key(app.rows@[i]),
                values_key(app.rows@[j]),
                values_key(app.rows@[k]),
            ) {
                order::list_lt_transitive(x, y, z);
            }
        },
        _ => {},
    }
}

/// A row that comes before another comes before whatever is equal to it.
proof fn before_splits(app: App, marks: Seq<bool>, now: Instant, i: int, j: int, k: int)
    requires
        before(app, marks, now, i, k),
    ensures
        before(app, marks, now, i, j) || before(app, marks, now, j, k),
{
    match app.sort {
        SortMode::Location => {
            order::text_lt_total(app.location(i), app.location(j));
            if order::text_lt(app.location(j), app.location(i)) {
                order::text_lt_transitive(app.location(j), app.location(i), app.location(k));
            }
        },
        SortMode::Answer => {
            if let (Some(x), Some(y), Some(z)) = (
                values_key(app.rows@[i]),
                values_key(app.rows@[j]),
                values_key(app.rows@[k]),
            ) {
                order::list_lt_total(x, y);
                if order::list_lt(y, x) {
                    order::list_lt_transitive(y, x, z);
                }
            }
        },
        _ => {},
    }
}

/// The order of the table is transitive.
pub proof fn precedes_transitive(app: App, marks: Seq<bool>, now: Instant, i: int, j: int, k: int)
    requires
        precedes(app, marks, now, i, j),
        precedes(app, marks, now, j, k),
    ensures
        precedes(app, marks, now, i, k),
{
    if before(app, marks, now, i, j) {
        before_splits(app, marks, now, i, k, j);
        if before(app, marks, now, j, k) {
            before_transitive(app, marks, now, i, j, k);
        }
    } else if before(app, marks, now, j, k) {
        before_splits(app, marks, now, j, i, k);
    } else if before(app, marks, now, k, i) {
        before_splits(app, marks, now, k, j, i);
    }
}

/// Of two different rows, exactly one comes before the other.
pub proof fn precedes_total(app: App, marks: Seq<bool>, now: Instant, i: int, j: int)
    requires
        i != j,
    ensures
        precedes(app, marks, now, i, j) != precedes(app, marks, now, j, i),
{
    if before(app, marks, now, i, j) && before(app, marks, now, j, i) {
        before_transitive(app, marks, now, i, j, i);
        before_irreflexive(app, marks, now, i);
    }
}

/// There is only one way to put the rows in the order of the table.
pub proof fn order_unique(
    app: App,
    marks: Seq<bool>,
    now: Instant,
    a: Seq<usize>,
    b: Seq<usize>,
    n: nat,
)
    requires
        in_order(app, marks, now, a, n),
        in_order(app, marks, now, b, n),
    ensures
        a == b,
{
    assert forall|k: int| 0 <= k < n implies a[k] == b[k] by {
        order_unique_at(app, marks, now, a, b, n, k);
    }
    assert(a =~= b);
}

/// Two orders of the rows agree up to and at position `k`.
proof fn order_unique_at(
    app: App,
    marks: Seq<bool>,
    now: Instant,
    a: Seq<usize>,
    b: Seq<usize>,
    n: nat,
    k: int,
)
    requires
        in_order(app, marks, now, a, n),
        in_order(app, marks, now, b, n),
        0 <= k < n,
    ensures
        forall|i: int| 0 <= i <= k ==> a[i] == b[i],
    decreases k,
{
    if k > 0 {
        order_unique_at(app, marks, now, a, b, n, k - 1);
    }
    if a[k] != b[k] {
        assert(a.contains(b[k] as int as usize) && b.contains(a[k] as int as usize));
        let p = choose|p: int| 0 <= p < a.len() && a[p] == b[k];
        let q = choose|q: int| 0 <= q < b.len() && b[q] == a[k];
        if p < k {
            assert(b[p] == b[k]);
            before_irreflexive(app, marks, now, b[k] as int);
            assert(precedes(app, marks, now, b[p] as int, b[k] as int));
        }
        if q < k {
            assert(a[q] == a[k]);
            before_irreflexive(app, marks, now, a[k] as int);
            assert(precedes(app, marks, now, a[q] as int, a[k] as int));
        }
        assert(precedes(app, marks, now, a[k] as int, a[p] as int));
        assert(precedes(app, marks, now, b[k] as int, b[q] as int));
        precedes_total(app, marks, now, a[k] as int, b[k] as int);
    }
}

/// Sorted by resolver, the table is in the order of the resolver list.
pub proof fn resolver_order_is_the_list(
    app: App,
    marks: Seq<bool>,
    now: Instant,
    list: Seq<usize>,
    n: nat,
)
    requires
        app.sort == SortMode::Resolver,
        in_order(app, marks, now, list, n),
        n <= usize::MAX,
    ensures
        list == Seq::new(n, |i: int| i as usize),
{
    let same = Seq::new(n, |i: int| i as usize);
    assert forall|i: int| 0 <= i < n implies #[trigger] same.contains(i as usize) by {
        assert(same[i] == i as usize);
    }
    order_unique(app, marks, now, list, same, n);
}

impl App {
    /// How urgent a row is.
    fn urgency(&self, tally: &Summary, in_flight: bool, now: Instant, i: usize) -> (out: u8)
        requires
            self.wf(),
            i < self.rows@.len(),
            tally.majority_rows@.len() >= self.rows@.len(),
            in_flight == self.busy(),
        ensures
            out == status_key(*self, tally.majority_rows@, now, i as int),
    {
        match &self.rows[i] {
            RowState::Done { result, .. } => match result {
                QueryResult::Records { .. } => if in_flight || tally.majority_rows[i] {
                    5
                } else if self.ttl_verdict(i, now).is_some() {
                    0
                } else {
                    1
                },
                QueryResult::NoRecords(_) => 2,
                QueryResult::ServFail => 3,
                QueryResult::Error(_) => 4,
            },
            RowState::Pending => 6,
            RowState::Idle => 7,
        }
    }

    /// Does row `i` come before row `j`, by what the table is sorted by?
    fn sorts_before(
        &self,
        tally: &Summary,
        in_flight: bool,
        now: Instant,
        i: usize,
        j: usize,
    ) -> (out: bool)
        requires
            self.wf(),
            i < self.rows@.len(),
            j < self.rows@.len(),
            tally.majority_rows@.len() >= self.rows@.len(),
            in_flight == self.busy(),
        ensures
            out == before(*self, tally.majority_rows@, now, i as int, j as int),
    {
        match self.sort {
            SortMode::Resolver => false,
            SortMode::Location => order::text_less(
                self.effective_location(i),
                self.effective_location(j),
            ),
            SortMode::Time => {
                let a = match &self.rows[i] {
                    RowState::Done { elapsed, .. } => elapsed.nanos,
                    _ => u64::MAX,
                };
                let b = match &self.rows[j] {
                    RowState::Done { elapsed, .. } => elapsed.nanos,
                    _ => u64::MAX,
                };
                a < b
            },
            SortMode::Status => self.urgency(tally, in_flight, now, i) < self.urgency(
                tally,
                in_flight,
                now,
                j,
            ),
            SortMode::Answer => match &self.rows[i] {
                RowState::Done { result: QueryResult::Records { values: x, .. }, .. } => {
                    match &self.rows[j] {
                        RowState::Done { result: QueryResult::Records { values: y, .. }, .. } => {
                            order::list_less(x, y)
                        },
                        _ => true,
                    }
                },
                _ => false,
            },
        }
    }

    /// The rows in the order of the table.
    pub fn display_order(&self, tally: &Summary, now: Instant) -> (out: Vec<usize>)
        requires
            self.wf(),
            tally.majority_rows@.len() >= self.rows@.len(),
        ensures
            in_order(*self, tally.majority_rows@, now, out@, self.rows@.len()),
    {
        let ghost marks = tally.majority_rows@;
        let in_flight = self.in_flight();
        let mut out: Vec<usize> = Vec::new();
        let mut n: usize = 0;
        while n < self.rows.len()
            invariant
                n <= self.rows@.len(),
                self.wf(),
                marks == tally.majority_rows@,
                marks.len() >= self.rows@.len(),
                in_flight == self.busy(),
                in_order(*self, marks, now, out@, n as nat),
            decreases self.rows@.len() - n,
        {
            let ghost list = out@;
            let mut p: usize = 0;
            while p < out.len() && !self.sorts_before(tally, in_flight, now, n, out[p])
                invariant
                    p <= out@.len(),
                    out@ == list,
                    n < self.rows@.len(),
                    self.wf(),
                    marks == tally.majority_rows@,
                    marks.len() >= self.rows@.len(),
                    in_flight == self.busy(),
                    in_order(*self, marks, now, list, n as nat),
                    forall|k: int|
                        0 <= k < p ==> !before(*self, marks, now, n as int, #[trigger] list[k] as int),
                decreases out@.len() - p,
            {
                p += 1;
            }
            out.insert(p, n);
            proof {
                inserted_in_order(*self, marks, now, list, n, p as int);
            }
            n += 1;
        }
        out
    }
}

/// A row put in before the first that it comes before keeps the order.
proof fn inserted_in_order(
    app: App,
    marks: Seq<bool>,
    now: Instant,
    list: Seq<usize>,
    n: usize,
    p: int,
)
    requires
        in_order(app, marks, now, list, n as nat),
        0 <= p <= n,
        forall|k: int| 0 <= k < p ==> !before(app, marks, now, n as int, #[trigger] list[k] as int),
        p < n ==> before(app, marks, now, n as int, list[p] as int),
    ensures
        in_order(app, marks, now, list.insert(p, n), (n + 1) as nat),
{
    let longer = list.insert(p, n);
    assert forall|k: int| 0 <= k < n + 1 implies (#[trigger] longer[k]) < n + 1 by {
        if k < p {
            assert(longer[k] == list[k]);
        } else if k > p {
            assert(longer[k] == list[k - 1]);
        }
    }
    assert forall|i: int| 0 <= i < n + 1 implies #[trigger] longer.contains(i as usize) by {
        if i == n {
            assert(longer[p] == n);
        } else {
            assert(list.contains(i as usize));
            let k = choose|k: int| 0 <= k < list.len() && list[k] == i as usize;
            if k < p {
                assert(longer[k] == i as usize);
            } else {
                assert(longer[k + 1] == i as usize);
            }
        }
    }
    assert forall|a: int, b: int| 0 <= a < b < n + 1 implies precedes(
        app,
        marks,
        now,
        #[trigger] longer[a] as int,
        #[trigger] longer[b] as int,
    ) by {
        if b < p {
            assert(longer[a] == list[a] && longer[b] == list[b]);
        } else if b == p {
            assert(longer[a] == list[a]);
            assert(list[a] < n);
        } else if a < p {
            assert(longer[a] == list[a] && longer[b] == list[b - 1]);
        } else if a == p {
            assert(longer[b] == list[b - 1]);
            if b - 1 > p {
                assert(precedes(app, marks, now, list[p] as int, list[b - 1] as int));
                precedes_transitive(app, marks, now, n as int, list[p] as int, list[b - 1] as int);
            }
        } else {
            assert(longer[a] == list[a - 1] && longer[b] == list[b - 1]);
        }
    }
}

// ---------------------------------------------------------------- laws

/// Sorted by status, problems come first: misbehaving caches, then other answers
/// outside the majority, then rows without records, SERVFAIL, errors, agreement,
/// waiting rows and idle ones. While queries are under way every row with records
/// counts as agreement.
pub proof fn problems_come_first(app: App, marks: Seq<bool>, now: Instant, i: int)
    ensures
        ({
            let row = app.rows@[i];
            let key = status_key(app, marks, now, i);
            &&& row is Idle ==> key == 7
            &&& row is Pending ==> key == 6
            &&& row is Done && row->result is Error ==> key == 4
            &&& row is Done && row->result is ServFail ==> key == 3
            &&& row is Done && row->result is NoRecords ==> key == 2
            &&& row is Done && row->result is Records && (app.busy() || marks[i]) ==> key == 5
            &&& row is Done && row->result is Records && !app.busy() && !marks[i]
                && history::verdict(app.history@[i]@, now) is Some ==> key == 0
            &&& row is Done && row->result is Records && !app.busy() && !marks[i]
                && history::verdict(app.history@[i]@, now) is None ==> key == 1
        }),
{
}

/// What comes before what: nothing by itself in the order of the list; the
/// smaller location; the faster answer, and an answer before none; the more
/// urgent row; the smaller values, and values before none.
pub proof fn rows_are_sorted_by_what_was_chosen(
    app: App,
    marks: Seq<bool>,
    now: Instant,
    i: int,
    j: int,
)
    ensures
        app.sort == SortMode::Resolver ==> !before(app, marks, now, i, j),
        app.sort == SortMode::Location ==> before(app, marks, now, i, j) == order::text_lt(
            app.location(i),
            app.location(j),
        ),
        app.sort == SortMode::Status ==> before(app, marks, now, i, j) == (status_key(
            app,
            marks,
            now,
            i,
        ) < status_key(app, marks, now, j)),
        app.sort == SortMode::Time && app.rows@[i] is Done && app.rows@[j] is Done ==> before(
            app,
            marks,
            now,
            i,
            j,
        ) == (app.rows@[i]->elapsed.nanos < app.rows@[j]->elapsed.nanos),
        app.sort == SortMode::Time && !(app.rows@[i] is Done) ==> !before(app, marks, now, i, j),
        app.sort == SortMode::Time && app.rows@[i] is Done && app.rows@[i]->elapsed.nanos
            < 0xffff_ffff_ffff_ffff && !(app.rows@[j] is Done) ==> before(app, marks, now, i, j),
        app.sort == SortMode::Answer && app.rows@[i] is Done && app.rows@[i]->result is Records
            ==> if app.rows@[j] is Done && app.rows@[j]->result is Records {
            before(app, marks, now, i, j) == order::list_lt(
                text::texts(app.rows@[i]->result->values@),
                text::texts(app.rows@[j]->result->values@),
            )
        } else {
            before(app, marks, now, i, j)
        },
        app.sort == SortMode::Answer && !(app.rows@[i] is Done && app.rows@[i]->result is Records)
            ==> !before(app, marks, now, i, j),
        app.sites@[i] is Some ==> app.location(i) == app.sites@[i]->0.code@,
        app.sites@[i] is None ==> app.location(i) == app.resolvers@[i].location@,
{
}

/// The table shows every row once, and of two rows the one that comes before
/// stands above; where neither does, the one that is listed first.
pub proof fn the_table_is_sorted_and_stable(
    app: App,
    marks: Seq<bool>,
    now: Instant,
    list: Seq<usize>,
    n: nat,
    a: int,
    b: int,
)
    requires
        in_order(app, marks, now, list, n),
        0 <= a < b < n,
    ensures
        list.len() == n,
        list[a] != list[b],
        list[a] < n && list[b] < n,
        !before(app, marks, now, list[b] as int, list[a] as int),
        !before(app, marks, now, list[a] as int, list[b] as int) ==> list[a] < list[b],
{
    let (i, j) = (list[a] as int, list[b] as int);
    assert(precedes(app, marks, now, i, j));
    if before(app, marks, now, i, j) && before(app, marks, now, j, i) {
        before_transitive(app, marks, now, i, j, i);
        before_irreflexive(app, marks, now, i);
    }
    before_irreflexive(app, marks, now, i);
}

} // verus!
