//! The order of texts, and lists of texts without repeats kept in that order.
use vstd::prelude::*;

use crate::text;

verus! {

/// Does `a` come before `b`? Texts are ordered like words in a dictionary,
/// character by character, a prefix before what continues it.
pub open spec fn text_lt(a: Seq<char>, b: Seq<char>) -> bool
    decreases a.len(),
{
    if b.len() == 0 {
        false
    } else if a.len() == 0 {
        true
    } else if a[0] != b[0] {
        a[0] < b[0]
    } else {
        text_lt(a.drop_first(), b.drop_first())
    }
}

/// Does the list `a` come before the list `b`? Lists are ordered text by text,
/// a prefix before what continues it.
pub open spec fn list_lt(a: Seq<Seq<char>>, b: Seq<Seq<char>>) -> bool
    decreases a.len(),
{
    if b.len() == 0 {
        false
    } else if a.len() == 0 {
        true
    } else if a[0] != b[0] {
        text_lt(a[0], b[0])
    } else {
        list_lt(a.drop_first(), b.drop_first())
    }
}

/// In order, and no text twice.
pub open spec fn ascending(list: Seq<Seq<char>>) -> bool {
    forall|i: int, j: int| 0 <= i < j < list.len() ==> text_lt(#[trigger] list[i], #[trigger] list[j])
}

/// No text comes before itself.
pub proof fn text_lt_irreflexive(a: Seq<char>)
    ensures
        !text_lt(a, a),
    decreases a.len(),
{
    if a.len() > 0 {
        text_lt_irreflexive(a.drop_first());
    }
}

/// The order of texts is transitive.
pub proof fn text_lt_transitive(a: Seq<char>, b: Seq<char>, c: Seq<char>)
    requires
        text_lt(a, b),
        text_lt(b, c),
    ensures
        text_lt(a, c),
    decreases a.len(),
{
    if a.len() > 0 && a[0] == b[0] && b[0] == c[0] {
        text_lt_transitive(a.drop_first(), b.drop_first(), c.drop_first());
    }
}

/// Of two different texts, one comes before the other.
pub proof fn text_lt_total(a: Seq<char>, b: Seq<char>)
    ensures
        a == b || text_lt(a, b) || text_lt(b, a),
    decreases a.len(),
{
    if a.len() > 0 && b.len() > 0 && a[0] == b[0] {
        text_lt_total(a.drop_first(), b.drop_first());
        if a.drop_first() == b.drop_first() {
            assert(a =~= seq![a[0]] + a.drop_first());
            assert(b =~= seq![b[0]] + b.drop_first());
        }
    } else if a.len() == 0 && b.len() == 0 {
        assert(a =~= b);
    }
}

/// No list comes before itself.
pub proof fn list_lt_irreflexive(a: Seq<Seq<char>>)
    ensures
        !list_lt(a, a),
    decreases a.len(),
{
    if a.len() > 0 {
        list_lt_irreflexive(a.drop_first());
    }
}

/// The order of lists is transitive.
pub proof fn list_lt_transitive(a: Seq<Seq<char>>, b: Seq<Seq<char>>, c: Seq<Seq<char>>)
    requires
        list_lt(a, b),
        list_lt(b, c),
    ensures
        list_lt(a, c),
    decreases a.len(),
{
    if a.len() > 0 {
        if a[0] == b[0] && b[0] == c[0] {
            list_lt_transitive(a.drop_first(), b.drop_first(), c.drop_first());
        } else if a[0] != b[0] && b[0] != c[0] {
            text_lt_transitive(a[0], b[0], c[0]);
            if a[0] == c[0] {
                text_lt_irreflexive(a[0]);
            }
        }
    }
}

/// Of two different lists, one comes before the other.
pub proof fn list_lt_total(a: Seq<Seq<char>>, b: Seq<Seq<char>>)
    ensures
        a == b || list_lt(a, b) || list_lt(b, a),
    decreases a.len(),
{
    if a.len() > 0 && b.len() > 0 {
        if a[0] == b[0] {
            list_lt_total(a.drop_first(), b.drop_first());
            if a.drop_first() == b.drop_first() {
                assert(a =~= seq![a[0]] + a.drop_first());
                assert(b =~= seq![b[0]] + b.drop_first());
            }
        } else {
            text_lt_total(a[0], b[0]);
        }
    } else if a.len() == 0 && b.len() == 0 {
        assert(a =~= b);
    }
}

/// Two lists that are in order, without repeats, and hold the same texts are
/// one and the same list.
pub proof fn ascending_unique(a: Seq<Seq<char>>, b: Seq<Seq<char>>)
    requires
        ascending(a),
        ascending(b),
        forall|v: Seq<char>| #[trigger] a.contains(v) <==> b.contains(v),
    ensures
        a == b,
    decreases a.len(),
{
    if a.len() == 0 {
        if b.len() > 0 {
            assert(b.contains(b[0]));
            assert(a.contains(b[0]));
        }
        assert(a =~= b);
    } else {
        assert(a.contains(a[0]));
        assert(b.contains(a[0]));
        let i = choose|i: int| 0 <= i < b.len() && b[i] == a[0];
        assert(b.contains(b[0]));
        assert(a.contains(b[0]));
        let j = choose|j: int| 0 <= j < a.len() && a[j] == b[0];
        if i > 0 && j > 0 {
            assert(text_lt(b[0], b[i]));
            assert(text_lt(a[0], a[j]));
            text_lt_transitive(a[0], b[0], a[0]);
            text_lt_irreflexive(a[0]);
        }
        assert(a[0] == b[0]);
        let ta = a.drop_first();
        let tb = b.drop_first();
        assert forall|v: Seq<char>| #[trigger] ta.contains(v) implies tb.contains(v) by {
            let k = choose|k: int| 0 <= k < ta.len() && ta[k] == v;
            assert(a[k + 1] == v);
            assert(text_lt(a[0], a[k + 1]));
            text_lt_irreflexive(v);
            assert(a.contains(v));
            let l = choose|l: int| 0 <= l < b.len() && b[l] == v;
            assert(tb[l - 1] == v);
        }
        assert forall|v: Seq<char>| #[trigger] tb.contains(v) implies ta.contains(v) by {
            let k = choose|k: int| 0 <= k < tb.len() && tb[k] == v;
            assert(b[k + 1] == v);
            assert(text_lt(b[0], b[k + 1]));
            text_lt_irreflexive(v);
            assert(b.contains(v));
            assert(a.contains(v));
            let l = choose|l: int| 0 <= l < a.len() && a[l] == v;
            assert(ta[l - 1] == v);
        }
        assert(ascending(ta)) by {
            assert forall|i: int, j: int| 0 <= i < j < ta.len() implies text_lt(
                #[trigger] ta[i],
                #[trigger] ta[j],
            ) by {
                assert(text_lt(a[i + 1], a[j + 1]));
            }
        }
        assert(ascending(tb)) by {
            assert forall|i: int, j: int| 0 <= i < j < tb.len() implies text_lt(
                #[trigger] tb[i],
                #[trigger] tb[j],
            ) by {
                assert(text_lt(b[i + 1], b[j + 1]));
            }
        }
        ascending_unique(ta, tb);
        assert(a =~= seq![a[0]] + ta);
        assert(b =~= seq![b[0]] + tb);
    }
}

/// Does `a` come before `b`?
pub fn text_less(a: &str, b: &str) -> (out: bool)
    ensures
        out == text_lt(a@, b@),
{
    let x = text::chars_of(a);
    let y = text::chars_of(b);
    let mut k: usize = 0;
    assert(x@.skip(0) =~= x@ && y@.skip(0) =~= y@);
    while k < x.len() && k < y.len()
        invariant
            x@ == a@,
            y@ == b@,
            k <= x@.len(),
            k <= y@.len(),
            text_lt(a@, b@) == text_lt(x@.skip(k as int), y@.skip(k as int)),
        decreases x@.len() - k,
    {
        if x[k] != y[k] {
            return x[k] < y[k];
        }
        assert(x@.skip(k as int).drop_first() =~= x@.skip(k + 1));
        assert(y@.skip(k as int).drop_first() =~= y@.skip(k + 1));
        k += 1;
    }
    k < y.len()
}

/// Does the list `a` come before the list `b`?
pub fn list_less(a: &Vec<String>, b: &Vec<String>) -> (out: bool)
    ensures
        out == list_lt(text::texts(a@), text::texts(b@)),
{
    let ghost x = text::texts(a@);
    let ghost y = text::texts(b@);
    let mut k: usize = 0;
    assert(x.skip(0) =~= x && y.skip(0) =~= y);
    while k < a.len() && k < b.len()
        invariant
            x == text::texts(a@),
            y == text::texts(b@),
            k <= a@.len(),
            k <= b@.len(),
            list_lt(x, y) == list_lt(x.skip(k as int), y.skip(k as int)),
        decreases a@.len() - k,
    {
        if a[k] != b[k] {
            return text_less(a[k].as_str(), b[k].as_str());
        }
        assert(x.skip(k as int).drop_first() =~= x.skip(k + 1));
        assert(y.skip(k as int).drop_first() =~= y.skip(k + 1));
        k += 1;
    }
    k < b.len()
}

/// Puts `v` into a list that is in order, at its place, unless it is there.
pub fn insert_ascending(list: &mut Vec<String>, v: &String)
    requires
        ascending(text::texts(old(list)@)),
    ensures
        ascending(text::texts(final(list)@)),
        forall|w: Seq<char>| #[trigger]
            text::texts(final(list)@).contains(w) <==> w == v@ || text::texts(old(list)@).contains(
                w,
            ),
{
    let ghost before = text::texts(list@);
    let mut k: usize = 0;
    while k < list.len() && text_less(list[k].as_str(), v.as_str())
        invariant
            *list == *old(list),
            before == text::texts(list@),
            ascending(before),
            k <= list@.len(),
            forall|i: int| 0 <= i < k ==> text_lt(#[trigger] before[i], v@),
        decreases list@.len() - k,
    {
        k += 1;
    }
    if k < list.len() && list[k] == *v {
        assert(before[k as int] == v@);
        return ;
    }
    proof {
        if k < list@.len() {
            text_lt_total(before[k as int], v@);
        }
        assert forall|i: int| k <= i < before.len() implies text_lt(v@, #[trigger] before[i]) by {
            if i > k {
                text_lt_transitive(v@, before[k as int], before[i]);
            }
        }
    }
    list.insert(k, v.clone());
    let ghost after = text::texts(list@);
    proof {
        assert(after =~= before.insert(k as int, v@));
        assert forall|w: Seq<char>| #[trigger] after.contains(w) <==> w == v@ || before.contains(
            w,
        ) by {
            if after.contains(w) {
                let i = choose|i: int| 0 <= i < after.len() && after[i] == w;
                if i < k {
                    assert(before[i] == w);
                } else if i > k {
                    assert(before[i - 1] == w);
                }
            }
            if before.contains(w) {
                let i = choose|i: int| 0 <= i < before.len() && before[i] == w;
                if i < k {
                    assert(after[i] == w);
                } else {
                    assert(after[i + 1] == w);
                }
            }
            if w == v@ {
                assert(after[k as int] == w);
            }
        }
    }
}

/// A text comes before another exactly when it is a shorter beginning of it, or
/// has a smaller character where the two first differ.
pub proof fn texts_are_ordered_where_they_first_differ(a: Seq<char>, b: Seq<char>, k: int)
    requires
        0 <= k <= a.len(),
        k <= b.len(),
        forall|i: int| 0 <= i < k ==> #[trigger] a[i] == b[i],
    ensures
        k == a.len() && k < b.len() ==> text_lt(a, b),
        k == b.len() ==> !text_lt(a, b),
        k < a.len() && k < b.len() && a[k] != b[k] ==> text_lt(a, b) == (a[k] < b[k]),
    decreases a.len(),
{
    if k > 0 {
        assert(a[0] == b[0]);
        let (s, t) = (a.drop_first(), b.drop_first());
        assert forall|i: int| 0 <= i < k - 1 implies #[trigger] s[i] == t[i] by {
            assert(a[i + 1] == b[i + 1]);
        }
        texts_are_ordered_where_they_first_differ(s, t, k - 1);
    }
}

/// A list comes before another exactly when it is a shorter beginning of it, or
/// has the smaller text where the two first differ.
pub proof fn lists_are_ordered_where_they_first_differ(
    a: Seq<Seq<char>>,
    b: Seq<Seq<char>>,
    k: int,
)
    requires
        0 <= k <= a.len(),
        k <= b.len(),
        forall|i: int| 0 <= i < k ==> #[trigger] a[i] == b[i],
    ensures
        k == a.len() && k < b.len() ==> list_lt(a, b),
        k == b.len() ==> !list_lt(a, b),
        k < a.len() && k < b.len() && a[k] != b[k] ==> list_lt(a, b) == text_lt(a[k], b[k]),
    decreases a.len(),
{
    if k > 0 {
        assert(a[0] == b[0]);
        let (s, t) = (a.drop_first(), b.drop_first());
        assert forall|i: int| 0 <= i < k - 1 implies #[trigger] s[i] == t[i] by {
            assert(a[i + 1] == b[i + 1]);
        }
        lists_are_ordered_where_they_first_differ(s, t, k - 1);
    }
}

/// In an ascending list no text stands twice, and each comes before those behind
/// it; a list with two neighbours the wrong way round is not ascending.
pub proof fn ascending_lists_have_no_repeats(list: Seq<Seq<char>>, i: int, j: int)
    requires
        0 <= i < j < list.len(),
    ensures
        ascending(list) ==> text_lt(list[i], list[j]) && list[i] != list[j],
        !text_lt(list[i], list[j]) ==> !ascending(list),
{
    text_lt_irreflexive(list[i]);
}

} // verus!
