//! How far a record has propagated: the tally of one table of rows.
use vstd::prelude::*;

use crate::dns::QueryResult;
use crate::grouping;
use crate::order;
use crate::rows;
use crate::rows::RowState;
use crate::text;

verus! {

/// What one row contributes to the tally.
pub enum RowClass {
    /// No result yet.
    Waiting,
    /// An answer to another question than the one asked.
    Blind,
    /// Record values that count.
    Answer,
    /// The record does not exist there.
    NoRecords,
    /// The resolver could not resolve the name.
    ServFail,
    /// No usable answer.
    Error,
}

/// What a row contributes to the tally.
pub open spec fn class_of(row: RowState) -> RowClass {
    match row {
        RowState::Done { result, .. } => if rows::subnet_blind(row) {
            RowClass::Blind
        } else {
            match result {
                QueryResult::Records { .. } => RowClass::Answer,
                QueryResult::NoRecords(_) => RowClass::NoRecords,
                QueryResult::ServFail => RowClass::ServFail,
                QueryResult::Error(_) => RowClass::Error,
            }
        },
        _ => RowClass::Waiting,
    }
}

/// How many of the first `n` rows contribute `class`.
pub open spec fn tally(list: Seq<RowState>, n: nat, class: RowClass) -> nat {
    grouping::count(n, |i: int| class_of(list[i]) == class)
}

/// The tally of a table.
#[derive(Debug)]
pub struct Summary {
    pub done: usize,
    pub ok: usize,
    pub no_records: usize,
    pub servfail: usize,
    pub errors: usize,
    /// Resolvers that gave a usable answer: records, an authoritative "no
    /// records", or a SERVFAIL. Timeouts and refusals say nothing about
    /// propagation, so percentages are taken against this.
    pub responding: usize,
    /// Distinct groups of answers. Answers that share any record are grouped
    /// together.
    pub groups: usize,
    /// Resolvers in the largest group.
    pub agree: usize,
    /// For each row: is that resolver's answer in the largest group?
    pub majority_rows: Vec<bool>,
    /// The record values of the largest group, in order, without repeats.
    pub majority_values: Vec<String>,
    /// Answers from resolvers that ignored the client subnet. Kept out of
    /// `responding`: they describe the resolver's own vantage point.
    pub ecs_blind: usize,
}

impl Default for Summary {
    fn default() -> (out: Summary)
        ensures
            describes(out, Seq::<RowState>::empty()),
    {
        let out = Summary {
            done: 0,
            ok: 0,
            no_records: 0,
            servfail: 0,
            errors: 0,
            responding: 0,
            groups: 0,
            agree: 0,
            majority_rows: Vec::new(),
            majority_values: Vec::new(),
            ecs_blind: 0,
        };
        out
    }
}

/// Is `s` the tally of the table `list`?
pub open spec fn describes(s: Summary, list: Seq<RowState>) -> bool {
    let n = list.len();
    let a = grouping::answers(list);
    &&& s.ok == tally(list, n, RowClass::Answer)
    &&& s.no_records == tally(list, n, RowClass::NoRecords)
    &&& s.servfail == tally(list, n, RowClass::ServFail)
    &&& s.errors == tally(list, n, RowClass::Error)
    &&& s.ecs_blind == tally(list, n, RowClass::Blind)
    &&& s.done == n - tally(list, n, RowClass::Waiting)
    &&& s.responding == s.ok + s.no_records + s.servfail
    &&& s.groups == grouping::group_count(a)
    &&& s.ok == 0 ==> s.agree == 0
    &&& forall|m: int| #[trigger] grouping::leads_majority(a, m) ==> s.agree == grouping::group_size(a, m)
    &&& s.majority_rows@.len() == n
    &&& forall|i: int| 0 <= i < n ==> #[trigger] s.majority_rows@[i] == grouping::in_majority(a, i)
    &&& order::ascending(text::texts(s.majority_values@))
    &&& forall|v: Seq<char>| #[trigger]
        text::texts(s.majority_values@).contains(v) <==> grouping::majority_value(a, v)
}

/// The tallies of the first `n` rows add up to `n`.
proof fn tally_total(list: Seq<RowState>, n: nat)
    requires
        n <= list.len(),
    ensures
        tally(list, n, RowClass::Waiting) + tally(list, n, RowClass::Blind) + tally(
            list,
            n,
            RowClass::Answer,
        ) + tally(list, n, RowClass::NoRecords) + tally(list, n, RowClass::ServFail) + tally(
            list,
            n,
            RowClass::Error,
        ) == n,
    decreases n,
{
    if n > 0 {
        tally_total(list, (n - 1) as nat);
    }
}

/// The largest group is at most all answers, and answers are at most all
/// responses.
pub proof fn agree_bounded(s: Summary, list: Seq<RowState>)
    requires
        describes(s, list),
    ensures
        s.agree <= s.ok <= s.responding <= s.done <= list.len(),
{
    let a = grouping::answers(list);
    tally_total(list, list.len());
    if s.ok > 0 {
        let p = |i: int| class_of(list[i]) == RowClass::Answer;
        grouping::count_zero(list.len(), p);
        let i = choose|i: int| 0 <= i < list.len() && #[trigger] p(i);
        assert(grouping::answered(a, i));
        grouping::majority_exists(a, i);
        let m = choose|m: int| #[trigger] grouping::leads_majority(a, m);
        group_of_answers(list, m);
    }
}

/// A group holds answers only.
proof fn group_of_answers(list: Seq<RowState>, m: int)
    ensures
        grouping::group_size(grouping::answers(list), m) <= tally(
            list,
            list.len(),
            RowClass::Answer,
        ),
{
    let a = grouping::answers(list);
    let p = |j: int| grouping::linked(a, m, j);
    let q = |i: int| class_of(list[i]) == RowClass::Answer;
    assert forall|i: int| 0 <= i < list.len() && #[trigger] p(i) implies q(i) by {
        grouping::linked_answered(a, m, i);
        assert(a[i] == rows::answer(list[i]));
    }
    grouping::count_monotone(list.len(), p, q);
}

/// Has the record propagated? Someone answered with records, nobody who
/// responded lacks them, and all answers are in one group.
pub open spec fn propagated(list: Seq<RowState>) -> bool {
    &&& tally(list, list.len(), RowClass::Answer) > 0
    &&& tally(list, list.len(), RowClass::NoRecords) == 0
    &&& tally(list, list.len(), RowClass::ServFail) == 0
    &&& forall|i: int, j: int|
        grouping::answered(grouping::answers(list), i) && grouping::answered(
            grouping::answers(list),
            j,
        ) ==> #[trigger] grouping::linked(grouping::answers(list), i, j)
}

/// Propagation is complete exactly when someone answered with records, nobody
/// who responded lacks them, and all answers are in one group.
pub proof fn complete_means_one_group(s: Summary, list: Seq<RowState>)
    requires
        describes(s, list),
    ensures
        (s.responding > 0 && s.agree == s.responding) <==> propagated(list),
{
    let a = grouping::answers(list);
    agree_bounded(s, list);
    if s.ok > 0 {
        let n = list.len();
        let q = |i: int| class_of(list[i]) == RowClass::Answer;
        grouping::count_zero(n, q);
        let i = choose|i: int| 0 <= i < n && #[trigger] q(i);
        assert(grouping::answered(a, i));
        grouping::majority_exists(a, i);
        let m = choose|m: int| #[trigger] grouping::leads_majority(a, m);
        let p = |j: int| grouping::linked(a, m, j);
        assert forall|i: int| 0 <= i < n && #[trigger] p(i) implies q(i) by {
            grouping::linked_answered(a, m, i);
            assert(a[i] == rows::answer(list[i]));
        }
        if s.agree == s.ok {
            grouping::count_equal(n, p, q);
            assert forall|i: int, j: int|
                grouping::answered(a, i) && grouping::answered(a, j) implies #[trigger] grouping::linked(
                a,
                i,
                j,
            ) by {
                assert(a[i] == rows::answer(list[i]) && a[j] == rows::answer(list[j]));
                assert(q(i) && q(j));
                assert(p(i) && p(j));
                grouping::linked_symmetric(a, m, i);
                grouping::linked_transitive(a, i, m, j);
            }
        }
        if forall|i: int, j: int|
            grouping::answered(a, i) && grouping::answered(a, j) ==> #[trigger] grouping::linked(
                a,
                i,
                j,
            ) {
            assert forall|i: int| 0 <= i < n && #[trigger] q(i) implies p(i) by {
                assert(a[i] == rows::answer(list[i]));
                assert(grouping::answered(a, i) && grouping::answered(a, m));
            }
            grouping::count_monotone(n, q, p);
        }
    }
}

/// Rows that carry no propagation signal: no result, an error, or an answer
/// to another question.
pub open spec fn no_signal(row: RowState) -> bool {
    class_of(row) is Waiting || class_of(row) is Error || class_of(row) is Blind
}

/// Tallies of two tables agree on a class where the rows do.
proof fn tally_same(a: Seq<RowState>, b: Seq<RowState>, n: nat, class: RowClass)
    requires
        n <= a.len(),
        a.len() == b.len(),
        forall|i: int|
            0 <= i < a.len() ==> (class_of(#[trigger] a[i]) == class <==> class_of(b[i]) == class),
    ensures
        tally(a, n, class) == tally(b, n, class),
    decreases n,
{
    if n > 0 {
        tally_same(a, b, (n - 1) as nat, class);
    }
}

/// A row without a signal may change into any other row without a signal, and
/// propagation stays what it was: unreachable resolvers do not hold it up.
pub proof fn no_signal_rows_do_not_count(
    before: Summary,
    after: Summary,
    list: Seq<RowState>,
    i: int,
    row: RowState,
)
    requires
        0 <= i < list.len(),
        no_signal(list[i]),
        no_signal(row),
        describes(before, list),
        describes(after, list.update(i, row)),
    ensures
        after.ok == before.ok,
        after.no_records == before.no_records,
        after.servfail == before.servfail,
        after.responding == before.responding,
        after.groups == before.groups,
        after.agree == before.agree,
        after.majority_rows@ == before.majority_rows@,
        text::texts(after.majority_values@) == text::texts(before.majority_values@),
{
    let other = list.update(i, row);
    tally_same(list, other, list.len(), RowClass::Answer);
    tally_same(list, other, list.len(), RowClass::NoRecords);
    tally_same(list, other, list.len(), RowClass::ServFail);
    let a = grouping::answers(list);
    assert(grouping::answers(other) =~= a);
    order::ascending_unique(
        text::texts(after.majority_values@),
        text::texts(before.majority_values@),
    );
    if before.ok > 0 {
        let q = |i: int| class_of(list[i]) == RowClass::Answer;
        grouping::count_zero(list.len(), q);
        let k = choose|k: int| 0 <= k < list.len() && #[trigger] q(k);
        assert(grouping::answered(a, k));
        grouping::majority_exists(a, k);
        let m = choose|m: int| #[trigger] grouping::leads_majority(a, m);
        assert(after.agree == grouping::group_size(a, m));
    }
}

/// The members of the group of row `m`, which leads the majority, and the
/// values of that group.
fn majority_of(list: &Vec<RowState>, labels: &Vec<usize>, m: usize) -> (out: (
    Vec<bool>,
    Vec<String>,
))
    requires
        labels@.len() == list@.len(),
        forall|i: int, j: int|
            grouping::answered(grouping::answers(list@), i) && grouping::answered(
                grouping::answers(list@),
                j,
            ) ==> ((#[trigger] labels@[i] == #[trigger] labels@[j]) <==> grouping::linked(
                grouping::answers(list@),
                i,
                j,
            )),
        grouping::leads_majority(grouping::answers(list@), m as int),
    ensures
        out.0@.len() == list@.len(),
        forall|i: int|
            0 <= i < list@.len() ==> #[trigger] out.0@[i] == grouping::in_majority(
                grouping::answers(list@),
                i,
            ),
        order::ascending(text::texts(out.1@)),
        forall|v: Seq<char>| #[trigger]
            text::texts(out.1@).contains(v) <==> grouping::majority_value(
                grouping::answers(list@),
                v,
            ),
{
    let n = list.len();
    let ghost a = grouping::answers(list@);
    let label: usize = labels[m];
    let mut majority_rows: Vec<bool> = Vec::new();
    let mut majority_values: Vec<String> = Vec::new();
    proof {
        assert(grouping::leads_majority(a, m as int));
        assert forall|i: int| grouping::answered(a, i) implies (grouping::in_majority(a, i)
            <==> #[trigger] labels@[i] == label) by {
            if grouping::in_majority(a, i) {
                let other = choose|other: int| #[trigger]
                    grouping::leads_majority(a, other) && grouping::linked(a, other, i);
                assert(grouping::answered(a, other) && grouping::answered(a, m as int));
                assert(other == m);
            }
        }
    }
    let mut k: usize = 0;
    while k < n
        invariant
            n == list@.len(),
            a == grouping::answers(list@),
            k <= n,
            labels@.len() == n,
            majority_rows@.len() == k,
            forall|i: int|
                grouping::answered(a, i) ==> (grouping::in_majority(a, i)
                    <==> #[trigger] labels@[i] == label),
            forall|i: int|
                0 <= i < k ==> #[trigger] majority_rows@[i] == grouping::in_majority(a, i),
            order::ascending(text::texts(majority_values@)),
            forall|v: Seq<char>| #[trigger]
                text::texts(majority_values@).contains(v) <==> exists|i: int|
                    0 <= i < k && #[trigger] grouping::in_majority(a, i) && a[i]->0.contains(v),
        decreases n - k,
    {
        let mut member = false;
        proof {
            assert(a[k as int] == rows::answer(list@[k as int]));
            if grouping::in_majority(a, k as int) {
                let other = choose|other: int| #[trigger]
                    grouping::leads_majority(a, other) && grouping::linked(a, other, k as int);
                grouping::linked_answered(a, other, k as int);
            }
        }
        if let Some(values) = list[k].answer() {
            if labels[k] == label {
                member = true;
                let ghost before = text::texts(majority_values@);
                let mut j: usize = 0;
                while j < values.len()
                    invariant
                        j <= values@.len(),
                        order::ascending(text::texts(majority_values@)),
                        forall|v: Seq<char>| #[trigger]
                            text::texts(majority_values@).contains(v) <==> before.contains(v)
                                || text::texts(values@).take(j as int).contains(v),
                    decreases values@.len() - j,
                {
                    order::insert_ascending(&mut majority_values, &values[j]);
                    proof {
                        let shorter = text::texts(values@).take(j as int);
                        let longer = text::texts(values@).take(j + 1);
                        assert forall|v: Seq<char>| #[trigger]
                            text::texts(majority_values@).contains(v) <==> before.contains(v)
                                || longer.contains(v) by {
                            if longer.contains(v) {
                                let x = choose|x: int| 0 <= x < longer.len() && longer[x] == v;
                                if x < j {
                                    assert(shorter[x] == v);
                                }
                            }
                            if shorter.contains(v) {
                                let x = choose|x: int| 0 <= x < shorter.len() && shorter[x] == v;
                                assert(longer[x] == v);
                            }
                            if v == values@[j as int]@ {
                                assert(longer[j as int] == v);
                            }
                        }
                    }
                    j += 1;
                }
                assert(text::texts(values@).take(j as int) =~= text::texts(values@));
            }
        }
        proof {
            assert forall|v: Seq<char>| #[trigger]
                text::texts(majority_values@).contains(v) <==> exists|i: int|
                    0 <= i < k + 1 && #[trigger] grouping::in_majority(a, i)
                        && a[i]->0.contains(v) by {
                if grouping::in_majority(a, k as int) && a[k as int]->0.contains(v) {
                    assert(text::texts(majority_values@).contains(v));
                }
            }
        }
        majority_rows.push(member);
        k += 1;
    }
    proof {
        assert forall|v: Seq<char>| #[trigger]
            text::texts(majority_values@).contains(v) <==> grouping::majority_value(a, v) by {
            if grouping::majority_value(a, v) {
                let i = choose|i: int| #[trigger]
                    grouping::in_majority(a, i) && a[i]->0.contains(v);
                let other = choose|other: int| #[trigger]
                    grouping::leads_majority(a, other) && grouping::linked(a, other, i);
                grouping::linked_answered(a, other, i);
                assert(0 <= i < n);
            }
        }
    }
    (majority_rows, majority_values)
}

/// Tallies the rows of a table.
pub fn summarize(list: &Vec<RowState>) -> (out: Summary)
    ensures
        describes(out, list@),
{
    let n = list.len();
    let ghost a = grouping::answers(list@);
    let labels = grouping::group_labels(list);
    let mut counts: Vec<usize> = Vec::new();
    let mut majority_rows: Vec<bool> = Vec::new();
    let mut i: usize = 0;
    while i < n
        invariant
            i <= n,
            counts@.len() == i,
            majority_rows@.len() == i,
            forall|j: int| 0 <= j < i ==> #[trigger] counts@[j] == 0,
            forall|j: int| 0 <= j < i ==> #[trigger] majority_rows@[j] == false,
        decreases n - i,
    {
        counts.push(0);
        majority_rows.push(false);
        i += 1;
    }

    // First pass: classes, group sizes, groups.
    let mut done: usize = 0;
    let mut ok: usize = 0;
    let mut no_records: usize = 0;
    let mut servfail: usize = 0;
    let mut errors: usize = 0;
    let mut ecs_blind: usize = 0;
    let mut groups: usize = 0;
    let mut k: usize = 0;
    while k < n
        invariant
            n == list@.len(),
            a == grouping::answers(list@),
            k <= n,
            labels@.len() == n,
            counts@.len() == n,
            forall|i: int| 0 <= i < n ==> #[trigger] labels@[i] < n,
            forall|i: int, j: int|
                grouping::answered(a, i) && grouping::answered(a, j) ==> ((#[trigger] labels@[i]
                    == #[trigger] labels@[j]) <==> grouping::linked(a, i, j)),
            forall|i: int| #[trigger]
                grouping::answered(a, i) ==> counts@[labels@[i] as int] == grouping::group_below(
                    a,
                    i,
                    k as nat,
                ),
            forall|l: int| 0 <= l < n ==> #[trigger] counts@[l] <= k,
            groups == grouping::leaders_below(a, k as nat),
            groups <= k,
            done == k - tally(list@, k as nat, RowClass::Waiting),
            ok == tally(list@, k as nat, RowClass::Answer),
            no_records == tally(list@, k as nat, RowClass::NoRecords),
            servfail == tally(list@, k as nat, RowClass::ServFail),
            errors == tally(list@, k as nat, RowClass::Error),
            ecs_blind == tally(list@, k as nat, RowClass::Blind),
        decreases n - k,
    {
        let ghost before = counts@;
        proof {
            tally_total(list@, k as nat);
            tally_total(list@, (k + 1) as nat);
            assert(a[k as int] == rows::answer(list@[k as int]));
            assert forall|i: int| #[trigger] grouping::answered(a, i) implies grouping::linked(
                a,
                i,
                k as int,
            ) == (grouping::answered(a, k as int) && labels@[i] == labels@[k as int]) by {
                if grouping::linked(a, i, k as int) {
                    grouping::linked_answered(a, i, k as int);
                }
            }
        }
        match &list[k] {
            RowState::Done { result, ecs_honored, .. } => {
                done += 1;
                let ignored = match ecs_honored {
                    Some(false) => true,
                    _ => false,
                };
                match result {
                    QueryResult::Records { .. } => {
                        if ignored {
                            ecs_blind += 1;
                        } else {
                            ok += 1;
                            let label: usize = labels[k];
                            proof {
                                assert(grouping::answered(a, k as int));
                                let p = |j: int| grouping::linked(a, k as int, j);
                                grouping::count_zero(k as nat, p);
                                if counts@[label as int] == 0 {
                                    assert forall|j: int| 0 <= j < k implies !grouping::linked(
                                        a,
                                        j,
                                        k as int,
                                    ) by {
                                        if grouping::linked(a, j, k as int) {
                                            grouping::linked_symmetric(a, j, k as int);
                                            assert(p(j));
                                        }
                                    }
                                    assert(grouping::leads(a, k as int));
                                } else {
                                    let j = choose|j: int| 0 <= j < k && #[trigger] p(j);
                                    grouping::linked_symmetric(a, k as int, j);
                                    assert(!grouping::leads(a, k as int));
                                }
                            }
                            if counts[label] == 0 {
                                groups += 1;
                            }
                            counts.set(label, counts[label] + 1);
                        }
                    },
                    QueryResult::NoRecords(_) => {
                        if ignored {
                            ecs_blind += 1;
                        } else {
                            no_records += 1;
                        }
                    },
                    QueryResult::ServFail => {
                        servfail += 1;
                    },
                    QueryResult::Error(_) => {
                        errors += 1;
                    },
                }
            },
            _ => {},
        }
        k += 1;
    }
    proof {
        tally_total(list@, n as nat);
    }

    // Second pass: the first answer, in row order, of a largest group.
    let mut lead: Option<usize> = None;
    let mut best: usize = 0;
    let mut k: usize = 0;
    while k < n
        invariant
            n == list@.len(),
            a == grouping::answers(list@),
            k <= n,
            labels@.len() == n,
            counts@.len() == n,
            forall|i: int| 0 <= i < n ==> #[trigger] labels@[i] < n,
            forall|i: int| #[trigger]
                grouping::answered(a, i) ==> counts@[labels@[i] as int] == grouping::group_size(
                    a,
                    i,
                ),
            forall|j: int| #[trigger]
                grouping::answered(a, j) && j < k ==> grouping::group_size(a, j) <= best,
            lead is None ==> best == 0 && forall|j: int| 0 <= j < k ==> !grouping::answered(a, j),
            lead matches Some(m) ==> {
                &&& m < k
                &&& grouping::answered(a, m as int)
                &&& grouping::group_size(a, m as int) == best
                &&& forall|j: int| #[trigger]
                    grouping::answered(a, j) && j < m ==> grouping::group_size(a, j) < best
            },
        decreases n - k,
    {
        assert(a[k as int] == rows::answer(list@[k as int]));
        if list[k].answer().is_some() {
            let size: usize = counts[labels[k]];
            proof {
                assert(grouping::answered(a, k as int));
                grouping::group_size_positive(a, k as int);
            }
            if size > best {
                best = size;
                lead = Some(k);
            }
        }
        k += 1;
    }

    // Third pass: the members and values of that group.
    let mut majority_values: Vec<String> = Vec::new();
    match lead {
        Some(m) => {
            assert(grouping::leads_majority(a, m as int));
            let members = majority_of(list, &labels, m);
            majority_rows = members.0;
            majority_values = members.1;
            proof {
                assert forall|x: int| #[trigger] grouping::leads_majority(a, x) implies best
                    == grouping::group_size(a, x) by {
                    assert(grouping::answered(a, x) && grouping::answered(a, m as int));
                }
                let p = |i: int| class_of(list@[i]) == RowClass::Answer;
                grouping::count_zero(n as nat, p);
                assert(a[m as int] == rows::answer(list@[m as int]));
                assert(p(m as int));
            }
        },
        None => {
            proof {
                assert forall|i: int| !grouping::in_majority(a, i) by {
                    if grouping::in_majority(a, i) {
                        let x = choose|x: int| #[trigger]
                            grouping::leads_majority(a, x) && grouping::linked(a, x, i);
                        assert(grouping::answered(a, x));
                    }
                }
            }
        },
    }
    Summary {
        done,
        ok,
        no_records,
        servfail,
        errors,
        responding: ok + no_records + servfail,
        groups,
        agree: best,
        majority_rows,
        majority_values,
        ecs_blind,
    }
}

/// The marked rows are as many as agree, and there is a group exactly when
/// there is an answer.
pub proof fn agree_counts_the_majority_rows(s: Summary, list: Seq<RowState>)
    requires
        describes(s, list),
    ensures
        s.agree == grouping::count(list.len(), |i: int| s.majority_rows@[i]),
        s.groups > 0 <==> s.ok > 0,
{
    let a = grouping::answers(list);
    let n = list.len();
    let marked = |i: int| s.majority_rows@[i];
    let answer = |i: int| class_of(list[i]) == RowClass::Answer;
    let leader = |i: int| grouping::leads(a, i);
    grouping::count_zero(n, answer);
    grouping::count_zero(n, leader);
    assert forall|i: int| 0 <= i < n implies answer(i) == #[trigger] grouping::answered(a, i) by {
        assert(a[i] == rows::answer(list[i]));
    }
    if s.ok > 0 {
        let i = choose|i: int| 0 <= i < n && #[trigger] answer(i);
        assert(grouping::answered(a, i));
        grouping::majority_exists(a, i);
        let m = choose|m: int| #[trigger] grouping::leads_majority(a, m);
        let member = |j: int| grouping::linked(a, m, j);
        assert forall|j: int| 0 <= j < n implies #[trigger] marked(j) == member(j) by {
            assert(s.majority_rows@[j] == grouping::in_majority(a, j));
        }
        grouping::count_monotone(n, marked, member);
        assert forall|j: int| 0 <= j < n && #[trigger] member(j) implies marked(j) by {
            assert(s.majority_rows@[j] == grouping::in_majority(a, j));
        }
        grouping::count_monotone(n, member, marked);
        let first = first_of_group(a, i);
        assert(leader(first));
    } else {
        assert forall|j: int| 0 <= j < n implies !#[trigger] marked(j) by {
            assert(s.majority_rows@[j] == grouping::in_majority(a, j));
            if grouping::in_majority(a, j) {
                let m = choose|m: int| #[trigger]
                    grouping::leads_majority(a, m) && grouping::linked(a, m, j);
                assert(grouping::answered(a, m));
                assert(answer(m));
            }
        }
        grouping::count_zero(n, marked);
        assert forall|j: int| 0 <= j < n implies !#[trigger] leader(j) by {
            assert(grouping::answered(a, j) == answer(j));
        }
    }
}

/// The first answer of the group of the one at `i`.
proof fn first_of_group(a: Seq<Option<Seq<Seq<char>>>>, i: int) -> (m: int)
    requires
        grouping::answered(a, i),
    ensures
        0 <= m <= i,
        grouping::leads(a, m),
    decreases i,
{
    if exists|j: int| 0 <= j < i && grouping::linked(a, j, i) {
        let j = choose|j: int| 0 <= j < i && grouping::linked(a, j, i);
        grouping::linked_answered(a, j, i);
        first_of_group(a, j)
    } else {
        i
    }
}

/// A resolver that cannot resolve the name, or finds no record, holds
/// propagation up.
pub proof fn failures_hold_propagation_up(list: Seq<RowState>, i: int)
    requires
        0 <= i < list.len(),
        class_of(list[i]) is ServFail || class_of(list[i]) is NoRecords,
    ensures
        !propagated(list),
{
    let p = |i: int| class_of(list[i]) == RowClass::ServFail;
    let q = |i: int| class_of(list[i]) == RowClass::NoRecords;
    grouping::count_zero(list.len(), p);
    grouping::count_zero(list.len(), q);
    assert(p(i) || q(i));
}

// ---------------------------------------------------------------- laws of the tally

/// The rows below `n` for which `p` holds.
pub open spec fn rows_where(n: nat, p: spec_fn(int) -> bool) -> Set<int> {
    Set::new(|i: int| 0 <= i < n && p(i))
}

/// A tally of rows is the number of rows of that kind.
proof fn tally_is_size(list: Seq<RowState>, class: RowClass, p: spec_fn(int) -> bool)
    requires
        forall|i: int| 0 <= i < list.len() ==> (class_of(#[trigger] list[i]) == class <==> p(i)),
    ensures
        tally(list, list.len(), class) == rows_where(list.len(), p).len(),
{
    let q = |i: int| class_of(list[i]) == class;
    grouping::count_is_size(list.len(), q);
    assert(Set::new(|i: int| 0 <= i < list.len() && q(i)) =~= rows_where(list.len(), p));
}

/// Every row counts where its result says: record values, "no records" of
/// whatever reason, SERVFAIL and errors each in their own number; real answers
/// that ignored the client subnet apart from all of these; and everyone who gave
/// record values, "no records" or SERVFAIL is responding.
pub proof fn every_result_is_counted(s: Summary, list: Seq<RowState>)
    requires
        describes(s, list),
    ensures
        s.done == rows_where(list.len(), |i: int| list[i] is Done).len(),
        s.ok == rows_where(
            list.len(),
            |i: int| list[i] is Done && list[i]->result is Records && list[i]->ecs_honored != Some(
                false,
            ),
        ).len(),
        s.no_records == rows_where(
            list.len(),
            |i: int|
                list[i] is Done && list[i]->result is NoRecords && list[i]->ecs_honored != Some(
                    false,
                ),
        ).len(),
        s.servfail == rows_where(
            list.len(),
            |i: int| list[i] is Done && list[i]->result is ServFail,
        ).len(),
        s.errors == rows_where(
            list.len(),
            |i: int| list[i] is Done && list[i]->result is Error,
        ).len(),
        s.ecs_blind == rows_where(
            list.len(),
            |i: int|
                list[i] is Done && (list[i]->result is Records || list[i]->result is NoRecords)
                    && list[i]->ecs_honored == Some(false),
        ).len(),
        s.responding == s.ok + s.no_records + s.servfail,
        s.done == s.responding + s.errors + s.ecs_blind,
{
    let n = list.len();
    tally_total(list, n);
    tally_is_size(
        list,
        RowClass::Answer,
        |i: int| list[i] is Done && list[i]->result is Records && list[i]->ecs_honored != Some(false),
    );
    tally_is_size(
        list,
        RowClass::NoRecords,
        |i: int|
            list[i] is Done && list[i]->result is NoRecords && list[i]->ecs_honored != Some(false),
    );
    tally_is_size(
        list,
        RowClass::ServFail,
        |i: int| list[i] is Done && list[i]->result is ServFail,
    );
    tally_is_size(list, RowClass::Error, |i: int| list[i] is Done && list[i]->result is Error);
    tally_is_size(
        list,
        RowClass::Blind,
        |i: int|
            list[i] is Done && (list[i]->result is Records || list[i]->result is NoRecords)
                && list[i]->ecs_honored == Some(false),
    );
    let p = |i: int| class_of(list[i]) == RowClass::Waiting;
    let q = |i: int| list[i] is Done;
    grouping::count_complement(n, p, q);
    grouping::count_is_size(n, q);
    assert(Set::new(|i: int| 0 <= i < n && q(i)) =~= rows_where(
        n,
        |i: int| list[i] is Done,
    ));
}

/// A resolver that finds no record, for whatever reason, or cannot resolve the
/// name holds propagation up, and counts among those who respond.
pub proof fn missing_records_hold_propagation_up(s: Summary, list: Seq<RowState>, i: int)
    requires
        describes(s, list),
        0 <= i < list.len(),
        list[i] is Done,
        list[i]->result is ServFail || (list[i]->result is NoRecords && list[i]->ecs_honored
            != Some(false)),
    ensures
        !propagated(list),
        s.responding > 0,
        s.agree < s.responding,
{
    failures_hold_propagation_up(list, i);
    complete_means_one_group(s, list);
    agree_bounded(s, list);
    let p = |i: int| class_of(list[i]) == RowClass::ServFail;
    let q = |i: int| class_of(list[i]) == RowClass::NoRecords;
    grouping::count_zero(list.len(), p);
    grouping::count_zero(list.len(), q);
    assert(p(i) || q(i));
}

/// Two answers that can be told apart without separating any rows with a common
/// value hold propagation up.
pub proof fn separate_answers_hold_propagation_up(
    list: Seq<RowState>,
    i: int,
    j: int,
    side: spec_fn(int) -> bool,
)
    requires
        0 <= i < list.len(),
        0 <= j < list.len(),
        rows::gives_records(list[i]),
        rows::gives_records(list[j]),
        grouping::keeps_together(list, side),
        side(i) != side(j),
    ensures
        !propagated(list),
{
    let a = grouping::answers(list);
    rows::answers_are_record_values(list[i], Seq::empty());
    rows::answers_are_record_values(list[j], Seq::empty());
    assert(grouping::answered(a, i) && grouping::answered(a, j));
    if grouping::linked(a, i, j) {
        grouping::groups_are_not_split(list, side, i, j);
    }
}

/// Once someone has answered with records, nobody who responds lacks them, and
/// no two answers can be told apart without separating rows with a common value,
/// the record has propagated.
pub proof fn one_pool_has_propagated(list: Seq<RowState>)
    requires
        exists|i: int| 0 <= i < list.len() && rows::gives_records(#[trigger] list[i]),
        forall|i: int|
            0 <= i < list.len() && #[trigger] list[i] is Done ==> {
                &&& !(list[i]->result is ServFail)
                &&& list[i]->result is NoRecords ==> list[i]->ecs_honored == Some(false)
            },
        forall|side: spec_fn(int) -> bool, i: int, j: int|
            #![trigger grouping::keeps_together(list, side), list[i], list[j]]
            grouping::keeps_together(list, side) && 0 <= i < list.len() && 0 <= j < list.len()
                && rows::gives_records(list[i]) && rows::gives_records(list[j]) ==> side(i) == side(
                j,
            ),
    ensures
        propagated(list),
{
    let n = list.len();
    let a = grouping::answers(list);
    let answer = |i: int| class_of(list[i]) == RowClass::Answer;
    let none = |i: int| class_of(list[i]) == RowClass::NoRecords;
    let failed = |i: int| class_of(list[i]) == RowClass::ServFail;
    grouping::count_zero(n, answer);
    grouping::count_zero(n, none);
    grouping::count_zero(n, failed);
    let k = choose|i: int| 0 <= i < list.len() && rows::gives_records(#[trigger] list[i]);
    assert(answer(k));
    assert forall|i: int| 0 <= i < n implies !#[trigger] none(i) && !failed(i) by {
        assert(list[i] is Done ==> !(list[i]->result is ServFail));
    }
    assert forall|i: int| 0 <= i < n implies !#[trigger] failed(i) by {
        assert(!none(i));
    }
    assert forall|i: int, j: int|
        grouping::answered(a, i) && grouping::answered(a, j) implies #[trigger] grouping::linked(
        a,
        i,
        j,
    ) by {
        rows::answers_are_record_values(list[i], Seq::empty());
        rows::answers_are_record_values(list[j], Seq::empty());
        grouping::groups_are_what_cannot_be_split(list, i, j);
        assert forall|side: spec_fn(int) -> bool| #[trigger]
            grouping::keeps_together(list, side) implies side(i) == side(j) by {
            assert(rows::gives_records(list[i]) && rows::gives_records(list[j]));
        }
    }
}

/// Is `members` a set of answers that cannot be split without separating rows
/// with a common value?
pub open spec fn hangs_together(list: Seq<RowState>, members: Set<int>) -> bool {
    &&& forall|i: int| #[trigger]
        members.contains(i) ==> 0 <= i < list.len() && rows::gives_records(list[i])
    &&& forall|side: spec_fn(int) -> bool, i: int, j: int|
        #![trigger grouping::keeps_together(list, side), members.contains(i), members.contains(j)]
        grouping::keeps_together(list, side) && members.contains(i) && members.contains(j)
            ==> side(i) == side(j)
}

/// The rows marked as the majority are answers to the question asked, all those
/// with a value in common with one of them are marked too, nothing that keeps
/// rows with a common value together splits them, and they are as many as agree.
pub proof fn majority_is_one_whole_group(s: Summary, list: Seq<RowState>)
    requires
        describes(s, list),
    ensures
        s.majority_rows@.len() == list.len(),
        hangs_together(list, rows_where(list.len(), |i: int| s.majority_rows@[i])),
        grouping::keeps_together(list, |i: int| s.majority_rows@[i]),
        rows_where(list.len(), |i: int| s.majority_rows@[i]).finite(),
        rows_where(list.len(), |i: int| s.majority_rows@[i]).len() == s.agree,
        s.ok > 0 <==> s.agree > 0,
{
    let n = list.len();
    let a = grouping::answers(list);
    let marked = |i: int| s.majority_rows@[i];
    let members = rows_where(n, marked);
    agree_counts_the_majority_rows(s, list);
    grouping::count_is_size(n, marked);
    assert(Set::new(|i: int| 0 <= i < n && marked(i)) =~= members);
    assert forall|i: int| #[trigger] members.contains(i) implies 0 <= i < n && rows::gives_records(
        list[i],
    ) && grouping::in_majority(a, i) by {
        assert(s.majority_rows@[i] == grouping::in_majority(a, i));
        let m = choose|m: int| #[trigger]
            grouping::leads_majority(a, m) && grouping::linked(a, m, i);
        grouping::linked_answered(a, m, i);
        rows::answers_are_record_values(list[i], Seq::empty());
        assert(a[i] == rows::answer(list[i]));
    }
    assert forall|side: spec_fn(int) -> bool, i: int, j: int|
        #![trigger grouping::keeps_together(list, side), members.contains(i), members.contains(j)]
        grouping::keeps_together(list, side) && members.contains(i) && members.contains(
            j,
        ) implies side(i) == side(j) by {
        let m = choose|m: int| #[trigger]
            grouping::leads_majority(a, m) && grouping::linked(a, m, i);
        let k = choose|k: int| #[trigger]
            grouping::leads_majority(a, k) && grouping::linked(a, k, j);
        grouping::linked_answered(a, m, i);
        grouping::majority_exists(a, i);
        assert(m == k);
        grouping::groups_are_not_split(list, side, m, i);
        grouping::groups_are_not_split(list, side, m, j);
    }
    let answer = |i: int| class_of(list[i]) == RowClass::Answer;
    grouping::count_zero(n, answer);
    if s.ok > 0 {
        let i = choose|i: int| 0 <= i < n && #[trigger] answer(i);
        assert(a[i] == rows::answer(list[i]));
        assert(grouping::answered(a, i));
        grouping::majority_exists(a, i);
        let m = choose|m: int| #[trigger] grouping::leads_majority(a, m);
        grouping::group_size_positive(a, m);
        let group = |k: int| grouping::linked(a, m, k);
        grouping::groups_keep_together(list, m, group);
        assert forall|k: int, l: int, v: Seq<char>|
            0 <= k < n && 0 <= l < n && #[trigger] rows::gives_value(list[k], v)
                && #[trigger] rows::gives_value(list[l], v) implies marked(k) == marked(l) by {
            assert(group(k) == group(l));
            marked_is_linked(s, list, m, k);
            marked_is_linked(s, list, m, l);
        }
    } else {
        assert forall|k: int, l: int, v: Seq<char>|
            0 <= k < n && 0 <= l < n && #[trigger] rows::gives_value(list[k], v)
                && #[trigger] rows::gives_value(list[l], v) implies marked(k) == marked(l) by {
            assert(answer(k));
        }
    }
    assert(grouping::keeps_together(list, marked));
}

/// A row is marked exactly when it is in the group of the row that leads.
proof fn marked_is_linked(s: Summary, list: Seq<RowState>, m: int, i: int)
    requires
        describes(s, list),
        grouping::leads_majority(grouping::answers(list), m),
        0 <= i < list.len(),
    ensures
        s.majority_rows@[i] == grouping::linked(grouping::answers(list), m, i),
{
    let a = grouping::answers(list);
    assert(s.majority_rows@[i] == grouping::in_majority(a, i));
    grouping::majority_exists(a, m);
}

/// No set of answers that hangs together is larger than the majority, and of
/// several as large the majority is the one that begins first.
pub proof fn majority_is_the_first_of_the_largest(s: Summary, list: Seq<RowState>, members: Set<int>)
    requires
        describes(s, list),
        hangs_together(list, members),
    ensures
        members.finite(),
        members.len() <= s.agree,
        members.len() == s.agree ==> forall|j: int| #[trigger]
            members.contains(j) ==> exists|i: int| 0 <= i <= j && #[trigger] s.majority_rows@[i],
{
    let n = list.len();
    let a = grouping::answers(list);
    let p = |i: int| members.contains(i);
    grouping::count_is_size(n, p);
    assert(Set::new(|i: int| 0 <= i < n && p(i)) =~= members);
    if exists|j: int| members.contains(j) {
        let any = choose|j: int| members.contains(j);
        rows::answers_are_record_values(list[any], Seq::empty());
        assert(a[any] == rows::answer(list[any]));
        assert(grouping::answered(a, any));
        grouping::majority_exists(a, any);
        let m = choose|m: int| #[trigger] grouping::leads_majority(a, m);
        grouping::linked_reflexive(a, m);
        marked_is_linked(s, list, m, m);
        assert forall|j: int| members.contains(j) implies members.len() <= grouping::group_size(
            a,
            j,
        ) && grouping::answered(a, j) by {
            rows::answers_are_record_values(list[j], Seq::empty());
            assert(a[j] == rows::answer(list[j]));
            let q = |k: int| grouping::linked(a, j, k);
            assert forall|k: int| 0 <= k < n && #[trigger] p(k) implies q(k) by {
                assert(members.contains(j) && members.contains(k));
                grouping::groups_are_what_cannot_be_split(list, j, k);
                assert forall|side: spec_fn(int) -> bool| #[trigger]
                    grouping::keeps_together(list, side) implies side(j) == side(k) by {
                    assert(members.contains(j) && members.contains(k));
                }
            }
            grouping::count_monotone(n, p, q);
        }
        assert(members.len() <= grouping::group_size(a, any));
        if members.len() == s.agree {
            assert forall|j: int| #[trigger] members.contains(j) implies exists|i: int|
                0 <= i <= j && #[trigger] s.majority_rows@[i] by {
                assert(grouping::group_size(a, j) <= grouping::group_size(a, m));
                assert(m <= j);
                assert(s.majority_rows@[m]);
            }
        }
    } else {
        assert(members =~= Set::empty());
    }
}

/// There are as many groups as answers that begin one: those that can be told
/// apart from every answer before them without separating rows with a common
/// value.
pub proof fn groups_are_counted_by_their_first(s: Summary, list: Seq<RowState>)
    requires
        describes(s, list),
    ensures
        s.groups == rows_where(
            list.len(),
            |i: int|
                rows::gives_records(list[i]) && exists|side: spec_fn(int) -> bool|
                    #[trigger] grouping::keeps_together(list, side) && side(i) && forall|j: int|
                        0 <= j < i && rows::gives_records(#[trigger] list[j]) ==> !side(j),
        ).len(),
{
    let n = list.len();
    let a = grouping::answers(list);
    let leader = |i: int| grouping::leads(a, i);
    let first = |i: int|
        rows::gives_records(list[i]) && exists|side: spec_fn(int) -> bool| #[trigger]
            grouping::keeps_together(list, side) && side(i) && forall|j: int|
                0 <= j < i && rows::gives_records(#[trigger] list[j]) ==> !side(j);
    grouping::count_is_size(n, leader);
    assert forall|i: int| 0 <= i < n implies leader(i) == #[trigger] first(i) by {
        rows::answers_are_record_values(list[i], Seq::empty());
        assert(a[i] == rows::answer(list[i]));
        if leader(i) {
            let side = |k: int| grouping::linked(a, i, k);
            grouping::groups_keep_together(list, i, side);
            grouping::linked_reflexive(a, i);
            assert(side(i));
            assert forall|j: int| 0 <= j < i && rows::gives_records(#[trigger] list[j]) implies !side(
                j,
            ) by {
                if side(j) {
                    grouping::linked_symmetric(a, i, j);
                }
            }
            assert(grouping::keeps_together(list, side));
        }
        if first(i) {
            let side = choose|side: spec_fn(int) -> bool| #[trigger]
                grouping::keeps_together(list, side) && side(i) && forall|j: int|
                    0 <= j < i && rows::gives_records(#[trigger] list[j]) ==> !side(j);
            assert forall|j: int| 0 <= j < i implies !grouping::linked(a, j, i) by {
                if grouping::linked(a, j, i) {
                    grouping::groups_are_not_split(list, side, j, i);
                    grouping::linked_answered(a, j, i);
                    rows::answers_are_record_values(list[j], Seq::empty());
                    assert(a[j] == rows::answer(list[j]));
                    assert(rows::gives_records(list[j]));
                }
            }
        }
    }
    assert(Set::new(|i: int| 0 <= i < n && leader(i)) =~= rows_where(n, first));
}

/// The majority's values are the values of the marked rows, each once, in order.
pub proof fn majority_values_are_those_of_the_marked_rows(
    s: Summary,
    list: Seq<RowState>,
    v: Seq<char>,
)
    requires
        describes(s, list),
    ensures
        (exists|k: int| 0 <= k < s.majority_values@.len() && (#[trigger] s.majority_values@[k])@ == v)
            <==> exists|i: int|
            0 <= i < list.len() && s.majority_rows@[i] && #[trigger] rows::gives_value(list[i], v),
        forall|j: int, k: int|
            0 <= j < k < s.majority_values@.len() ==> order::text_lt(
                (#[trigger] s.majority_values@[j])@,
                (#[trigger] s.majority_values@[k])@,
            ),
{
    let a = grouping::answers(list);
    let values = text::texts(s.majority_values@);
    if exists|k: int| 0 <= k < s.majority_values@.len() && (#[trigger] s.majority_values@[k])@ == v {
        let k = choose|k: int|
            0 <= k < s.majority_values@.len() && (#[trigger] s.majority_values@[k])@ == v;
        assert(values[k] == v);
        assert(values.contains(v));
        let i = choose|i: int| #[trigger] grouping::in_majority(a, i) && a[i]->0.contains(v);
        let m = choose|m: int| #[trigger]
            grouping::leads_majority(a, m) && grouping::linked(a, m, i);
        grouping::linked_answered(a, m, i);
        assert(a[i] == rows::answer(list[i]));
        rows::answers_are_record_values(list[i], v);
        assert(s.majority_rows@[i] && rows::gives_value(list[i], v));
    }
    if exists|i: int|
        0 <= i < list.len() && s.majority_rows@[i] && #[trigger] rows::gives_value(list[i], v) {
        let i = choose|i: int|
            0 <= i < list.len() && s.majority_rows@[i] && #[trigger] rows::gives_value(list[i], v);
        rows::answers_are_record_values(list[i], v);
        assert(a[i] == rows::answer(list[i]));
        assert(s.majority_rows@[i] == grouping::in_majority(a, i));
        assert(grouping::majority_value(a, v));
        assert(values.contains(v));
        let k = choose|k: int| 0 <= k < values.len() && values[k] == v;
        assert(s.majority_values@[k]@ == v);
    }
    assert forall|j: int, k: int| 0 <= j < k < s.majority_values@.len() implies order::text_lt(
        (#[trigger] s.majority_values@[j])@,
        (#[trigger] s.majority_values@[k])@,
    ) by {
        assert(order::text_lt(values[j], values[k]));
    }
}

} // verus!
