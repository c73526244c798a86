//! Groups of answers. Two answers belong together when they share a record
//! value, directly or through a chain of other answers. This keeps the subsets
//! that a round-robin pool hands out in one group.
use vstd::prelude::*;

use crate::rows;
use crate::rows::RowState;
use crate::text;

verus! {

/// The number of indices below `n` that satisfy `p`.
pub open spec fn count(n: nat, p: spec_fn(int) -> bool) -> nat
    decreases n,
{
    if n == 0 {
        0
    } else {
        count((n - 1) as nat, p) + if p(n - 1) {
            1nat
        } else {
            0nat
        }
    }
}

/// The answers of a list of rows.
pub open spec fn answers(list: Seq<RowState>) -> Seq<Option<Seq<Seq<char>>>> {
    list.map_values(|row: RowState| rows::answer(row))
}

/// Is there an answer at index `i`?
pub open spec fn answered(a: Seq<Option<Seq<Seq<char>>>>, i: int) -> bool {
    0 <= i < a.len() && a[i] is Some
}

/// Do the answers at `i` and `j` have a value in common?
pub open spec fn shares(a: Seq<Option<Seq<Seq<char>>>>, i: int, j: int) -> bool {
    &&& answered(a, i)
    &&& answered(a, j)
    &&& exists|v: Seq<char>| a[i]->0.contains(v) && #[trigger] a[j]->0.contains(v)
}

/// A path of answers in which each shares a value with the next.
pub open spec fn chain(a: Seq<Option<Seq<Seq<char>>>>, path: Seq<int>) -> bool {
    &&& path.len() > 0
    &&& forall|k: int| 0 <= k < path.len() ==> answered(a, #[trigger] path[k])
    &&& forall|k: int, l: int|
        0 <= k && l == k + 1 && l < path.len() ==> shares(a, #[trigger] path[k], #[trigger] path[l])
}

/// Are the answers at `i` and `j` in one group?
pub open spec fn linked(a: Seq<Option<Seq<Seq<char>>>>, i: int, j: int) -> bool {
    exists|path: Seq<int>| #[trigger] chain(a, path) && path[0] == i && path.last() == j
}

/// How many of the first `n` answers are in the group of the one at `i`.
pub open spec fn group_below(a: Seq<Option<Seq<Seq<char>>>>, i: int, n: nat) -> nat {
    count(n, |j: int| linked(a, i, j))
}

/// The number of answers in the group of the one at `i`.
pub open spec fn group_size(a: Seq<Option<Seq<Seq<char>>>>, i: int) -> nat {
    group_below(a, i, a.len())
}

/// Is the answer at `i` the first of its group?
pub open spec fn leads(a: Seq<Option<Seq<Seq<char>>>>, i: int) -> bool {
    answered(a, i) && forall|j: int| 0 <= j < i ==> !linked(a, j, i)
}

/// How many of the first `n` answers are the first of their group.
pub open spec fn leaders_below(a: Seq<Option<Seq<Seq<char>>>>, n: nat) -> nat {
    count(n, |i: int| leads(a, i))
}

/// The number of groups.
pub open spec fn group_count(a: Seq<Option<Seq<Seq<char>>>>) -> nat {
    leaders_below(a, a.len())
}

/// Does the answer at `m` lead the majority: the largest group, and among
/// several of that size the one that comes first?
pub open spec fn leads_majority(a: Seq<Option<Seq<Seq<char>>>>, m: int) -> bool {
    &&& answered(a, m)
    &&& forall|j: int| #[trigger] answered(a, j) ==> group_size(a, j) <= group_size(a, m)
    &&& forall|j: int| #[trigger] answered(a, j) && j < m ==> group_size(a, j) < group_size(a, m)
}

/// Is the answer at `i` in the majority?
pub open spec fn in_majority(a: Seq<Option<Seq<Seq<char>>>>, i: int) -> bool {
    exists|m: int| #[trigger] leads_majority(a, m) && linked(a, m, i)
}

/// Is `v` a value of some answer in the majority?
pub open spec fn majority_value(a: Seq<Option<Seq<Seq<char>>>>, v: Seq<char>) -> bool {
    exists|i: int| #[trigger] in_majority(a, i) && a[i]->0.contains(v)
}

/// A count is zero exactly when no index satisfies the predicate.
pub proof fn count_zero(n: nat, p: spec_fn(int) -> bool)
    ensures
        count(n, p) == 0 <==> forall|i: int| 0 <= i < n ==> !#[trigger] p(i),
    decreases n,
{
    if n > 0 {
        count_zero((n - 1) as nat, p);
        if count(n, p) == 0 {
            assert forall|i: int| 0 <= i < n implies !#[trigger] p(i) by {
                if i < n - 1 {
                } else {
                    assert(i == n - 1);
                }
            }
        } else if count((n - 1) as nat, p) == 0 {
            assert(p(n - 1));
        }
    }
}

/// A group of answers has a member: the answer itself.
pub proof fn group_size_positive(a: Seq<Option<Seq<Seq<char>>>>, i: int)
    requires
        answered(a, i),
    ensures
        group_size(a, i) >= 1,
{
    linked_reflexive(a, i);
    let p = |j: int| linked(a, i, j);
    count_zero(a.len(), p);
    assert(p(i));
}

/// Counting fewer things gives a smaller count.
pub proof fn count_monotone(n: nat, p: spec_fn(int) -> bool, q: spec_fn(int) -> bool)
    requires
        forall|i: int| 0 <= i < n && #[trigger] p(i) ==> q(i),
    ensures
        count(n, p) <= count(n, q),
    decreases n,
{
    if n > 0 {
        count_monotone((n - 1) as nat, p, q);
    }
}

/// Counts are equal only if nothing that one counts is missed by the other.
pub proof fn count_equal(n: nat, p: spec_fn(int) -> bool, q: spec_fn(int) -> bool)
    requires
        forall|i: int| 0 <= i < n && #[trigger] p(i) ==> q(i),
        count(n, p) == count(n, q),
    ensures
        forall|i: int| 0 <= i < n ==> #[trigger] p(i) == q(i),
    decreases n,
{
    if n > 0 {
        count_monotone((n - 1) as nat, p, q);
        assert(p(n - 1) == q(n - 1));
        count_equal((n - 1) as nat, p, q);
    }
}

/// Where there is an answer among the first `n`, one of them is the first of
/// the largest size.
proof fn largest_below(a: Seq<Option<Seq<Seq<char>>>>, n: int) -> (m: int)
    requires
        0 <= n <= a.len(),
        exists|i: int| i < n && #[trigger] answered(a, i),
    ensures
        answered(a, m),
        m < n,
        forall|j: int| #[trigger] answered(a, j) && j < n ==> group_size(a, j) <= group_size(a, m),
        forall|j: int| #[trigger] answered(a, j) && j < m ==> group_size(a, j) < group_size(a, m),
    decreases n,
{
    if exists|i: int| i < n - 1 && #[trigger] answered(a, i) {
        let m = largest_below(a, n - 1);
        if answered(a, n - 1) && group_size(a, n - 1) > group_size(a, m) {
            n - 1
        } else {
            m
        }
    } else {
        n - 1
    }
}

/// Where there is any answer, exactly one answer leads the majority.
pub proof fn majority_exists(a: Seq<Option<Seq<Seq<char>>>>, i: int)
    requires
        answered(a, i),
    ensures
        exists|m: int| #[trigger] leads_majority(a, m),
        forall|m: int, k: int| #[trigger]
            leads_majority(a, m) && #[trigger] leads_majority(a, k) ==> m == k,
{
    let m = largest_below(a, a.len() as int);
    assert(leads_majority(a, m));
}

/// Every answer is in a group with itself.
pub proof fn linked_reflexive(a: Seq<Option<Seq<Seq<char>>>>, i: int)
    requires
        answered(a, i),
    ensures
        linked(a, i, i),
{
    let path = seq![i];
    assert(chain(a, path));
}

/// Being in one group does not depend on the order.
pub proof fn linked_symmetric(a: Seq<Option<Seq<Seq<char>>>>, i: int, j: int)
    requires
        linked(a, i, j),
    ensures
        linked(a, j, i),
{
    let path = choose|path: Seq<int>| #[trigger]
        chain(a, path) && path[0] == i && path.last() == j;
    let back = path.reverse();
    assert forall|k: int, l: int| 0 <= k && l == k + 1 && l < back.len() implies shares(
        a,
        #[trigger] back[k],
        #[trigger] back[l],
    ) by {
        let n = path.len();
        assert(back[k] == path[n - 1 - k] && back[l] == path[n - 1 - l]);
        assert(shares(a, path[n - 1 - l], path[n - 1 - k]));
        let v = choose|v: Seq<char>|
            a[path[n - 1 - l]]->0.contains(v) && #[trigger] a[path[n - 1 - k]]->0.contains(v);
        assert(a[path[n - 1 - l]]->0.contains(v));
    }
    assert(chain(a, back));
}

/// Two groups with a common answer are one group.
pub proof fn linked_transitive(a: Seq<Option<Seq<Seq<char>>>>, i: int, j: int, k: int)
    requires
        linked(a, i, j),
        linked(a, j, k),
    ensures
        linked(a, i, k),
{
    let p = choose|path: Seq<int>| #[trigger] chain(a, path) && path[0] == i && path.last() == j;
    let q = choose|path: Seq<int>| #[trigger] chain(a, path) && path[0] == j && path.last() == k;
    let path = p + q.skip(1);
    assert forall|x: int, y: int| 0 <= x && y == x + 1 && y < path.len() implies shares(
        a,
        #[trigger] path[x],
        #[trigger] path[y],
    ) by {
        if y < p.len() {
            assert(path[x] == p[x] && path[y] == p[y]);
        } else {
            assert(path[y] == q[y - p.len() + 1]);
            if x >= p.len() {
                assert(path[x] == q[x - p.len() + 1]);
            } else {
                assert(path[x] == q[0]);
            }
            assert(shares(a, q[x - p.len() + 1], q[y - p.len() + 1]));
        }
    }
    assert(chain(a, path));
    if q.len() > 1 {
        assert(path.last() == q.last());
    }
}

/// Answers with a common value are in one group.
pub proof fn shares_linked(a: Seq<Option<Seq<Seq<char>>>>, i: int, j: int)
    requires
        shares(a, i, j),
    ensures
        linked(a, i, j),
{
    let path = seq![i, j];
    assert(chain(a, path));
}

/// The members of a group are answers.
pub proof fn linked_answered(a: Seq<Option<Seq<Seq<char>>>>, i: int, j: int)
    requires
        linked(a, i, j),
    ensures
        answered(a, i),
        answered(a, j),
{
    let path = choose|path: Seq<int>| #[trigger]
        chain(a, path) && path[0] == i && path.last() == j;
    assert(answered(a, path[0]) && answered(a, path[path.len() - 1]));
}

// ---------------------------------------------------------------- disjoint sets

/// A forest of parent pointers: `root` says in which tree each node is, and
/// `depth` shrinks on the way to the root.
spec fn forest(parent: Seq<usize>, root: Seq<int>, depth: Seq<nat>) -> bool {
    &&& root.len() == parent.len()
    &&& depth.len() == parent.len()
    &&& forall|x: int|
        0 <= x < parent.len() ==> {
            &&& (#[trigger] parent[x]) < parent.len()
            &&& root[parent[x] as int] == root[x]
            &&& parent[x] != x ==> depth[parent[x] as int] < depth[x]
            &&& parent[x] == x ==> root[x] == x
        }
    &&& forall|x: int|
        0 <= x < root.len() ==> 0 <= #[trigger] root[x] < root.len() && parent[root[x]] == root[x]
}

/// The root of the tree of `start`. Halves the path on the way up.
fn find(parent: &mut Vec<usize>, start: usize, Ghost(root): Ghost<Seq<int>>, Ghost(depth): Ghost<
    Seq<nat>,
>) -> (out: usize)
    requires
        forest(old(parent)@, root, depth),
        start < old(parent)@.len(),
    ensures
        forest(final(parent)@, root, depth),
        final(parent)@.len() == old(parent)@.len(),
        out == root[start as int],
        out < final(parent)@.len(),
{
    let mut x: usize = start;
    while parent[x] != x
        invariant
            forest(parent@, root, depth),
            parent@.len() == old(parent)@.len(),
            x < parent@.len(),
            root[x as int] == root[start as int],
        decreases depth[x as int],
    {
        let up: usize = parent[x];
        let grand: usize = parent[up];
        parent.set(x, grand);
        x = grand;
    }
    x
}

/// Merging the tree with root `from` into the one with root `into`.
spec fn merged_root(root: Seq<int>, from: int, into: int) -> Seq<int> {
    Seq::new(root.len(), |x: int| if root[x] == from { into } else { root[x] })
}

/// The depths after that merge.
spec fn merged_depth(root: Seq<int>, depth: Seq<nat>, from: int, into: int) -> Seq<nat> {
    Seq::new(
        depth.len(),
        |x: int|
            if root[x] == from && from != into {
                depth[x] + depth[into] + 1
            } else {
                depth[x]
            },
    )
}

proof fn merge_forest(parent: Seq<usize>, root: Seq<int>, depth: Seq<nat>, from: usize, into: usize)
    requires
        forest(parent, root, depth),
        from < parent.len(),
        into < parent.len(),
        parent[from as int] == from,
        parent[into as int] == into,
    ensures
        forest(
            parent.update(from as int, into),
            merged_root(root, from as int, into as int),
            merged_depth(root, depth, from as int, into as int),
        ),
{
}

/// The value that entry `e` of a first-seen list stands for.
spec fn seen_value(a: Seq<Option<Seq<Seq<char>>>>, e: (usize, usize)) -> Seq<char> {
    a[e.0 as int]->0[e.1 as int]
}

/// A first-seen list: positions of values, no value twice.
spec fn seen_list(a: Seq<Option<Seq<Seq<char>>>>, seen: Seq<(usize, usize)>) -> bool {
    &&& forall|e: int|
        0 <= e < seen.len() ==> answered(a, (#[trigger] seen[e]).0 as int) && seen[e].1
            < a[seen[e].0 as int]->0.len()
    &&& forall|e: int, f: int|
        0 <= e < f < seen.len() ==> seen_value(a, #[trigger] seen[e]) != seen_value(
            a,
            #[trigger] seen[f],
        )
}

/// The value at index `k` of row `i` is in the first-seen list, under a row
/// of the same tree.
spec fn recorded(
    a: Seq<Option<Seq<Seq<char>>>>,
    seen: Seq<(usize, usize)>,
    root: Seq<int>,
    i: int,
    k: int,
) -> bool {
    exists|e: int|
        0 <= e < seen.len() && seen_value(a, #[trigger] seen[e]) == a[i]->0[k] && root[seen[e].0 as int]
            == root[i]
}

/// Trees hold only linked answers.
spec fn sound(a: Seq<Option<Seq<Seq<char>>>>, root: Seq<int>) -> bool {
    forall|x: int, y: int|
        0 <= x < root.len() && 0 <= y < root.len() && #[trigger] root[x] == #[trigger] root[y] ==> x
            == y || linked(a, x, y)
}

/// A path of answers stays inside one tree, once answers that share a value do.
proof fn chain_in_tree(a: Seq<Option<Seq<Seq<char>>>>, root: Seq<int>, path: Seq<int>)
    requires
        root.len() == a.len(),
        chain(a, path),
        forall|i: int, j: int| shares(a, i, j) ==> root[i] == root[j],
    ensures
        root[path[0]] == root[path.last()],
    decreases path.len(),
{
    if path.len() > 1 {
        let front = path.drop_last();
        assert(chain(a, front)) by {
            assert forall|k: int, l: int| 0 <= k && l == k + 1 && l < front.len() implies shares(
                a,
                #[trigger] front[k],
                #[trigger] front[l],
            ) by {
                assert(shares(a, path[k], path[l]));
            }
        }
        chain_in_tree(a, root, front);
        assert(shares(a, path[path.len() - 2], path[path.len() - 1]));
    }
}

/// A merge keeps what was recorded.
proof fn merge_recorded(
    a: Seq<Option<Seq<Seq<char>>>>,
    seen: Seq<(usize, usize)>,
    root: Seq<int>,
    from: int,
    into: int,
    i: int,
    k: int,
)
    requires
        root.len() == a.len(),
        seen_list(a, seen),
        0 <= i < a.len(),
        recorded(a, seen, root, i, k),
    ensures
        recorded(a, seen, merged_root(root, from, into), i, k),
{
    let e = choose|e: int|
        0 <= e < seen.len() && seen_value(a, #[trigger] seen[e]) == a[i]->0[k] && root[seen[e].0 as int]
            == root[i];
    assert(answered(a, seen[e].0 as int));
    assert(merged_root(root, from, into)[seen[e].0 as int] == merged_root(root, from, into)[i]);
}

/// A merge of two trees with linked nodes keeps trees sound.
proof fn merge_sound(a: Seq<Option<Seq<Seq<char>>>>, root: Seq<int>, i: int, j: int)
    requires
        root.len() == a.len(),
        sound(a, root),
        linked(a, i, j),
    ensures
        sound(a, merged_root(root, root[i], root[j])),
{
    linked_answered(a, i, j);
    let new = merged_root(root, root[i], root[j]);
    assert forall|x: int, y: int|
        0 <= x < new.len() && 0 <= y < new.len() && #[trigger] new[x] == #[trigger] new[y] implies x
        == y || linked(a, x, y) by {
        if root[x] != root[y] {
            let (p, q) = if root[x] == root[i] {
                (x, y)
            } else {
                (y, x)
            };
            assert(root[p] == root[i] && root[q] == root[j]);
            linked_reflexive(a, i);
            linked_reflexive(a, j);
            assert(linked(a, p, i));
            assert(linked(a, j, q));
            linked_transitive(a, p, i, j);
            linked_transitive(a, p, j, q);
            linked_symmetric(a, p, q);
        }
    }
}

/// The position in `seen` of the value `v`, if it is there.
fn lookup(list: &Vec<RowState>, seen: &Vec<(usize, usize)>, v: &String) -> (out: Option<usize>)
    requires
        seen_list(answers(list@), seen@),
    ensures
        out matches Some(e) ==> e < seen@.len() && seen_value(answers(list@), seen@[e as int]) == v@,
        out is None ==> forall|e: int|
            0 <= e < seen@.len() ==> seen_value(answers(list@), #[trigger] seen@[e]) != v@,
{
    let ghost a = answers(list@);
    let mut e: usize = 0;
    while e < seen.len()
        invariant
            a == answers(list@),
            seen_list(a, seen@),
            e <= seen@.len(),
            forall|f: int| 0 <= f < e ==> seen_value(a, #[trigger] seen@[f]) != v@,
        decreases seen@.len() - e,
    {
        let (row, k) = seen[e];
        proof {
            assert(answered(a, seen@[e as int].0 as int));
        }
        if let Some(values) = list[row].answer() {
            if values[k] == *v {
                return Some(e);
            }
        }
        e += 1;
    }
    None
}

/// A label for each row such that two rows with answers have the same label
/// exactly when their answers are in one group.
pub fn group_labels(list: &Vec<RowState>) -> (labels: Vec<usize>)
    ensures
        labels@.len() == list@.len(),
        forall|i: int| 0 <= i < labels@.len() ==> #[trigger] labels@[i] < labels@.len(),
        forall|i: int, j: int|
            answered(answers(list@), i) && answered(answers(list@), j) ==> ((#[trigger] labels@[i]
                == #[trigger] labels@[j]) <==> linked(answers(list@), i, j)),
{
    let n = list.len();
    let ghost a = answers(list@);
    let mut parent: Vec<usize> = Vec::new();
    let mut x: usize = 0;
    while x < n
        invariant
            x <= n,
            parent@.len() == x,
            forall|y: int| 0 <= y < x ==> #[trigger] parent@[y] == y,
        decreases n - x,
    {
        parent.push(x);
        x += 1;
    }
    let ghost mut root: Seq<int> = Seq::new(n as nat, |y: int| y);
    let ghost mut depth: Seq<nat> = Seq::new(n as nat, |y: int| 0nat);
    let mut seen: Vec<(usize, usize)> = Vec::new();
    let mut i: usize = 0;
    while i < n
        invariant
            n == list@.len(),
            a == answers(list@),
            parent@.len() == n,
            i <= n,
            forest(parent@, root, depth),
            sound(a, root),
            seen_list(a, seen@),
            forall|j: int, k: int|
                answered(a, j) && j < i && 0 <= k < a[j]->0.len() ==> #[trigger] recorded(
                    a,
                    seen@,
                    root,
                    j,
                    k,
                ),
        decreases n - i,
    {
        if let Some(values) = list[i].answer() {
            let mut k: usize = 0;
            while k < values.len()
                invariant
                    n == list@.len(),
                    a == answers(list@),
                    parent@.len() == n,
                    i < n,
                    answered(a, i as int),
                    a[i as int]->0 == text::texts(values@),
                    k <= values@.len(),
                    forest(parent@, root, depth),
                    sound(a, root),
                    seen_list(a, seen@),
                    forall|j: int, l: int|
                        answered(a, j) && (j < i && 0 <= l < a[j]->0.len() || j == i && 0 <= l < k)
                            ==> #[trigger] recorded(a, seen@, root, j, l),
                decreases values@.len() - k,
            {
                let ghost v = values@[k as int]@;
                assert(a[i as int]->0[k as int] == v);
                match lookup(list, &seen, &values[k]) {
                    Some(e) => {
                        let other: usize = seen[e].0;
                        proof {
                            assert(answered(a, other as int));
                            assert(a[other as int]->0[seen@[e as int].1 as int] == v);
                            assert(a[other as int]->0.contains(v));
                            assert(a[i as int]->0.contains(v));
                            assert(shares(a, i as int, other as int));
                            shares_linked(a, i as int, other as int);
                        }
                        let from: usize = find(&mut parent, i, Ghost(root), Ghost(depth));
                        let into: usize = find(&mut parent, other, Ghost(root), Ghost(depth));
                        proof {
                            merge_forest(parent@, root, depth, from, into);
                            merge_sound(a, root, i as int, other as int);
                            assert forall|j: int, l: int|
                                answered(a, j) && (j < i && 0 <= l < a[j]->0.len() || j == i && 0
                                    <= l < k) implies #[trigger] recorded(
                                a,
                                seen@,
                                merged_root(root, from as int, into as int),
                                j,
                                l,
                            ) by {
                                assert(recorded(a, seen@, root, j, l));
                                merge_recorded(a, seen@, root, from as int, into as int, j, l);
                            }
                            let new = merged_root(root, from as int, into as int);
                            assert(new[seen@[e as int].0 as int] == new[i as int]);
                            assert(recorded(a, seen@, new, i as int, k as int));
                            depth = merged_depth(root, depth, from as int, into as int);
                            root = new;
                        }
                        parent.set(from, into);
                    },
                    None => {
                        let ghost before = seen@;
                        seen.push((i, k));
                        proof {
                            assert(seen_value(a, seen@[seen@.len() - 1]) == v);
                            assert forall|j: int, l: int|
                                answered(a, j) && (j < i && 0 <= l < a[j]->0.len() || j == i && 0
                                    <= l < k) implies #[trigger] recorded(a, seen@, root, j, l) by {
                                assert(recorded(a, before, root, j, l));
                                let e = choose|e: int|
                                    0 <= e < before.len() && seen_value(a, #[trigger] before[e])
                                        == a[j]->0[l] && root[before[e].0 as int] == root[j];
                                assert(seen@[e] == before[e]);
                            }
                            assert(recorded(a, seen@, root, i as int, k as int));
                        }
                    },
                }
                k += 1;
            }
        }
        i += 1;
    }
    proof {
        assert forall|p: int, q: int| shares(a, p, q) implies root[p] == root[q] by {
            let v = choose|v: Seq<char>| a[p]->0.contains(v) && #[trigger] a[q]->0.contains(v);
            let k = choose|k: int| 0 <= k < a[p]->0.len() && a[p]->0[k] == v;
            let l = choose|l: int| 0 <= l < a[q]->0.len() && a[q]->0[l] == v;
            assert(recorded(a, seen@, root, p, k));
            assert(recorded(a, seen@, root, q, l));
        }
        assert forall|p: int, q: int| linked(a, p, q) implies root[p] == root[q] by {
            let path = choose|path: Seq<int>| #[trigger]
                chain(a, path) && path[0] == p && path.last() == q;
            chain_in_tree(a, root, path);
        }
        assert forall|p: int| answered(a, p) implies linked(a, p, p) by {
            linked_reflexive(a, p);
        }
    }
    let mut labels: Vec<usize> = Vec::new();
    let mut y: usize = 0;
    while y < n
        invariant
            y <= n,
            parent@.len() == n,
            forest(parent@, root, depth),
            labels@.len() == y,
            forall|j: int| 0 <= j < y ==> #[trigger] labels@[j] == root[j],
        decreases n - y,
    {
        let label: usize = find(&mut parent, y, Ghost(root), Ghost(depth));
        labels.push(label);
        y += 1;
    }
    labels
}

// ---------------------------------------------------------------- laws

/// A count is the number of members of a set.
pub proof fn count_is_size(n: nat, p: spec_fn(int) -> bool)
    ensures
        Set::new(|i: int| 0 <= i < n && p(i)).finite(),
        count(n, p) == Set::new(|i: int| 0 <= i < n && p(i)).len(),
    decreases n,
{
    let all = Set::new(|i: int| 0 <= i < n && p(i));
    if n == 0 {
        assert(all =~= Set::empty());
    } else {
        let fewer = Set::new(|i: int| 0 <= i < n - 1 && p(i));
        count_is_size((n - 1) as nat, p);
        if p(n - 1) {
            assert(all =~= fewer.insert(n - 1));
        } else {
            assert(all =~= fewer);
        }
    }
}

/// What satisfies a predicate and what does not are all there is.
pub proof fn count_complement(n: nat, p: spec_fn(int) -> bool, q: spec_fn(int) -> bool)
    requires
        forall|i: int| 0 <= i < n ==> #[trigger] p(i) != q(i),
    ensures
        count(n, p) + count(n, q) == n,
    decreases n,
{
    if n > 0 {
        count_complement((n - 1) as nat, p, q);
        assert(p(n - 1) != q(n - 1));
    }
}

/// Do rows with a value in common always lie on the same side of `side`?
pub open spec fn keeps_together(list: Seq<RowState>, side: spec_fn(int) -> bool) -> bool {
    forall|i: int, j: int, v: Seq<char>|
        0 <= i < list.len() && 0 <= j < list.len() && #[trigger] rows::gives_value(list[i], v)
            && #[trigger] rows::gives_value(list[j], v) ==> side(i) == side(j)
}

/// Answers in one group are not separated by anything that keeps rows with a
/// common value together.
pub proof fn groups_are_not_split(list: Seq<RowState>, side: spec_fn(int) -> bool, i: int, j: int)
    requires
        keeps_together(list, side),
        linked(answers(list), i, j),
    ensures
        side(i) == side(j),
{
    let a = answers(list);
    let path = choose|path: Seq<int>| #[trigger]
        chain(a, path) && path[0] == i && path.last() == j;
    chain_on_one_side(list, side, path);
}

/// A path of answers stays on one side.
proof fn chain_on_one_side(list: Seq<RowState>, side: spec_fn(int) -> bool, path: Seq<int>)
    requires
        keeps_together(list, side),
        chain(answers(list), path),
    ensures
        side(path[0]) == side(path.last()),
    decreases path.len(),
{
    let a = answers(list);
    if path.len() > 1 {
        let front = path.drop_last();
        assert(chain(a, front)) by {
            assert forall|k: int, l: int| 0 <= k && l == k + 1 && l < front.len() implies shares(
                a,
                #[trigger] front[k],
                #[trigger] front[l],
            ) by {
                assert(shares(a, path[k], path[l]));
            }
        }
        chain_on_one_side(list, side, front);
        let x = path[path.len() - 2];
        let y = path[path.len() - 1];
        assert(shares(a, x, y));
        let v = choose|v: Seq<char>| a[x]->0.contains(v) && #[trigger] a[y]->0.contains(v);
        rows::answers_are_record_values(list[x], v);
        rows::answers_are_record_values(list[y], v);
        assert(rows::gives_value(list[x], v) && rows::gives_value(list[y], v));
    }
}

/// A group keeps rows with a common value together.
pub proof fn groups_keep_together(list: Seq<RowState>, i: int, side: spec_fn(int) -> bool)
    requires
        forall|j: int| #[trigger] side(j) == linked(answers(list), i, j),
    ensures
        keeps_together(list, side),
{
    let a = answers(list);
    assert forall|k: int, l: int, v: Seq<char>|
        0 <= k < list.len() && 0 <= l < list.len() && #[trigger] rows::gives_value(list[k], v)
            && #[trigger] rows::gives_value(list[l], v) implies side(k) == side(l) by {
        rows::answers_are_record_values(list[k], v);
        rows::answers_are_record_values(list[l], v);
        assert(a[k] == rows::answer(list[k]) && a[l] == rows::answer(list[l]));
        assert(a[k]->0.contains(v) && a[l]->0.contains(v));
        assert(shares(a, k, l));
        shares_linked(a, k, l);
        linked_symmetric(a, k, l);
        if side(k) {
            linked_transitive(a, i, k, l);
        }
        if side(l) {
            linked_transitive(a, i, l, k);
        }
    }
}

/// Two answers are in one group exactly when nothing that keeps rows with a
/// common value together separates them.
pub proof fn groups_are_what_cannot_be_split(list: Seq<RowState>, i: int, j: int)
    requires
        0 <= i < list.len(),
        0 <= j < list.len(),
        rows::gives_records(list[i]),
        rows::gives_records(list[j]),
    ensures
        linked(answers(list), i, j) <==> forall|side: spec_fn(int) -> bool| #[trigger]
            keeps_together(list, side) ==> side(i) == side(j),
{
    let a = answers(list);
    let group = |k: int| linked(a, i, k);
    groups_keep_together(list, i, group);
    rows::answers_are_record_values(list[i], Seq::empty());
    linked_reflexive(a, i);
    assert(group(i));
    if forall|side: spec_fn(int) -> bool| #[trigger] keeps_together(list, side) ==> side(i) == side(
        j,
    ) {
        assert(keeps_together(list, group));
        assert(group(j));
    }
    if linked(a, i, j) {
        assert forall|side: spec_fn(int) -> bool| #[trigger] keeps_together(list, side) implies side(i)
            == side(j) by {
            groups_are_not_split(list, side, i, j);
        }
    }
}

} // verus!
