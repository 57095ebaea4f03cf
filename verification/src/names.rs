//! Lists of names in first-seen order, without repetition.

use crate::text;
use vstd::prelude::*;

verus! {

/// The names of a list, as characters.
pub open spec fn views(v: Seq<String>) -> Seq<Seq<char>> {
    v.map_values(|s: String| s@)
}

/// `list` with `name` at its end, unless it is there already.
pub open spec fn with_name(list: Seq<Seq<char>>, name: Seq<char>) -> Seq<Seq<char>> {
    if list.contains(name) {
        list
    } else {
        list.push(name)
    }
}

/// The names of a sequence in first-seen order, each once.
pub open spec fn distinct(s: Seq<Seq<char>>) -> Seq<Seq<char>>
    decreases s.len(),
{
    if s.len() == 0 {
        Seq::empty()
    } else {
        with_name(distinct(s.drop_last()), s.last())
    }
}

/// The non-empty names of a sequence in first-seen order, each once.
pub open spec fn distinct_present(s: Seq<Seq<char>>) -> Seq<Seq<char>>
    decreases s.len(),
{
    if s.len() == 0 {
        Seq::empty()
    } else if s.last().len() == 0 {
        distinct_present(s.drop_last())
    } else {
        with_name(distinct_present(s.drop_last()), s.last())
    }
}

/// The names of `s` that are not in `dropped`, in order.
pub open spec fn without(s: Seq<Seq<char>>, dropped: Seq<Seq<char>>) -> Seq<Seq<char>>
    decreases s.len(),
{
    if s.len() == 0 {
        Seq::empty()
    } else if dropped.contains(s.last()) {
        without(s.drop_last(), dropped)
    } else {
        without(s.drop_last(), dropped).push(s.last())
    }
}

pub proof fn lemma_distinct_push(s: Seq<Seq<char>>, name: Seq<char>)
    ensures
        distinct(s.push(name)) == with_name(distinct(s), name),
        distinct_present(s.push(name)) == (if name.len() == 0 {
            distinct_present(s)
        } else {
            with_name(distinct_present(s), name)
        }),
{
    assert(s.push(name).drop_last() =~= s);
}

/// A list in first-seen order holds the names of its sequence and no name
/// twice.
pub proof fn lemma_distinct(s: Seq<Seq<char>>)
    ensures
        distinct(s).no_duplicates(),
        forall|n: Seq<char>| #[trigger] distinct(s).contains(n) <==> s.contains(n),
    decreases s.len(),
{
    if s.len() > 0 {
        let rest = s.drop_last();
        let x = s.last();
        lemma_distinct(rest);
        assert forall|n: Seq<char>| #[trigger] distinct(s).contains(n) <==> s.contains(n) by {
            lemma_contains_push(rest, x, n);
            lemma_contains_push(distinct(rest), x, n);
            assert(rest.push(x) =~= s);
        }
    }
}

/// The same without empty names.
pub proof fn lemma_distinct_present(s: Seq<Seq<char>>)
    ensures
        distinct_present(s).no_duplicates(),
        forall|n: Seq<char>| #[trigger]
            distinct_present(s).contains(n) <==> s.contains(n) && n.len() > 0,
    decreases s.len(),
{
    if s.len() > 0 {
        let rest = s.drop_last();
        let x = s.last();
        lemma_distinct_present(rest);
        assert forall|n: Seq<char>| #[trigger]
            distinct_present(s).contains(n) <==> s.contains(n) && n.len() > 0 by {
            lemma_contains_push(rest, x, n);
            lemma_contains_push(distinct_present(rest), x, n);
            assert(rest.push(x) =~= s);
        }
    }
}

pub proof fn lemma_contains_push(s: Seq<Seq<char>>, x: Seq<char>, n: Seq<char>)
    ensures
        s.push(x).contains(n) <==> s.contains(n) || x == n,
{
    if s.contains(n) {
        let i = choose|i: int| 0 <= i < s.len() && s[i] == n;
        assert(s.push(x)[i] == n);
    }
    if x == n {
        assert(s.push(x)[s.len() as int] == n);
    }
    if s.push(x).contains(n) && x != n {
        let i = choose|i: int| 0 <= i < s.push(x).len() && s.push(x)[i] == n;
        assert(s[i] == n);
    }
}

/// Dropping names keeps the others, once each if they were distinct.
pub proof fn lemma_without(s: Seq<Seq<char>>, dropped: Seq<Seq<char>>)
    ensures
        forall|n: Seq<char>| #[trigger]
            without(s, dropped).contains(n) <==> s.contains(n) && !dropped.contains(n),
        s.no_duplicates() ==> without(s, dropped).no_duplicates(),
    decreases s.len(),
{
    if s.len() > 0 {
        let rest = s.drop_last();
        let x = s.last();
        lemma_without(rest, dropped);
        assert(rest.push(x) =~= s);
        assert forall|n: Seq<char>| #[trigger]
            without(s, dropped).contains(n) <==> s.contains(n) && !dropped.contains(n) by {
            lemma_contains_push(rest, x, n);
            lemma_contains_push(without(rest, dropped), x, n);
        }
        if s.no_duplicates() {
            assert(rest.no_duplicates());
            assert(!rest.contains(x)) by {
                if rest.contains(x) {
                    let i = choose|i: int| 0 <= i < rest.len() && rest[i] == x;
                    assert(s[i] == x && s[s.len() - 1] == x);
                }
            }
            assert(!without(rest, dropped).contains(x));
        }
    }
}

/// Whether a list holds a name.
pub fn contains(v: &Vec<String>, name: &str) -> (r: bool)
    ensures
        r == views(v@).contains(name@),
{
    let n: usize = v.len();
    for i in 0..n
        invariant
            n == v@.len(),
            forall|j: int| 0 <= j < i ==> (#[trigger] v@[j])@ != name@,
    {
        if text::str_eq(v[i].as_str(), name) {
            assert(views(v@)[i as int] == name@);
            return true;
        }
    }
    assert(!views(v@).contains(name@));
    false
}

/// Add a name unless it is there already.
pub fn push_distinct(v: &mut Vec<String>, name: &str)
    ensures
        views(final(v)@) == with_name(views(old(v)@), name@),
{
    if !contains(v, name) {
        v.push(name.to_owned());
        assert(views(v@) =~= views(old(v)@).push(name@));
    }
}

/// The names of `v` that are not in `dropped`, in order.
pub fn drop_names(v: &Vec<String>, dropped: &Vec<String>) -> (r: Vec<String>)
    ensures
        views(r@) == without(views(v@), views(dropped@)),
{
    let mut r: Vec<String> = Vec::new();
    let n: usize = v.len();
    assert(views(r@) =~= without(views(v@).take(0), views(dropped@)));
    for i in 0..n
        invariant
            n == v@.len(),
            views(r@) == without(views(v@).take(i as int), views(dropped@)),
    {
        proof {
            assert(views(v@).take(i + 1).drop_last() =~= views(v@).take(i as int));
        }
        if !contains(dropped, v[i].as_str()) {
            let ghost before = r@;
            r.push(v[i].clone());
            assert(views(r@) =~= views(before).push(v@[i as int]@));
        }
    }
    assert(views(v@).take(n as int) =~= views(v@));
    r
}

// ── Sorted lists ───────────────────────────────────────────────────────────

/// A name put into an ascending list, unless it is there already.
pub open spec fn insert_sorted(list: Seq<Seq<char>>, name: Seq<char>) -> Seq<Seq<char>>
    decreases list.len(),
{
    if list.len() == 0 {
        seq![name]
    } else if list.last() == name {
        list
    } else if text::less(list.last(), name) {
        list.push(name)
    } else {
        insert_sorted(list.drop_last(), name).push(list.last())
    }
}

/// The names of a sequence in ascending order, each once.
pub open spec fn sorted_distinct(s: Seq<Seq<char>>) -> Seq<Seq<char>>
    decreases s.len(),
{
    if s.len() == 0 {
        Seq::empty()
    } else {
        insert_sorted(sorted_distinct(s.drop_last()), s.last())
    }
}

/// Every name comes before the next ones.
pub open spec fn is_ascending(s: Seq<Seq<char>>) -> bool {
    forall|i: int, j: int| 0 <= i < j < s.len() ==> text::less(#[trigger] s[i], #[trigger] s[j])
}

proof fn lemma_insert_sorted(list: Seq<Seq<char>>, name: Seq<char>)
    requires
        is_ascending(list),
    ensures
        is_ascending(insert_sorted(list, name)),
        forall|n: Seq<char>| #[trigger]
            insert_sorted(list, name).contains(n) <==> list.contains(n) || n == name,
    decreases list.len(),
{
    if list.len() == 0 {
        assert forall|n: Seq<char>| #[trigger]
            insert_sorted(list, name).contains(n) <==> list.contains(n) || n == name by {
            if n == name {
                assert(insert_sorted(list, name)[0] == n);
            }
        }
    } else if list.last() == name {
        assert(list.contains(name)) by {
            assert(list[list.len() - 1] == name);
        }
    } else if text::less(list.last(), name) {
        let r = list.push(name);
        assert forall|i: int, j: int| 0 <= i < j < r.len() implies text::less(
            #[trigger] r[i],
            #[trigger] r[j],
        ) by {
            if j == list.len() && i < list.len() - 1 {
                text::lemma_less_trans(list[i], list[list.len() - 1], name);
            }
        }
        assert forall|n: Seq<char>| #[trigger] r.contains(n) <==> list.contains(n) || n == name by {
            lemma_contains_push(list, name, n);
        }
    } else {
        let rest = list.drop_last();
        let last = list.last();
        assert(is_ascending(rest)) by {
            assert forall|i: int, j: int| 0 <= i < j < rest.len() implies text::less(
                #[trigger] rest[i],
                #[trigger] rest[j],
            ) by {
                assert(list[i] == rest[i] && list[j] == rest[j]);
            }
        }
        lemma_insert_sorted(rest, name);
        text::lemma_less_total(last, name);
        let inner = insert_sorted(rest, name);
        let r = inner.push(last);
        assert forall|i: int, j: int| 0 <= i < j < r.len() implies text::less(
            #[trigger] r[i],
            #[trigger] r[j],
        ) by {
            if j == inner.len() {
                assert(inner.contains(inner[i]));
                if inner[i] != name {
                    let k = choose|k: int| 0 <= k < rest.len() && rest[k] == inner[i];
                    assert(text::less(list[k], list[list.len() - 1]));
                }
            }
        }
        assert(rest.push(last) =~= list);
        assert forall|n: Seq<char>| #[trigger] r.contains(n) <==> list.contains(n) || n == name by {
            lemma_contains_push(rest, last, n);
            lemma_contains_push(inner, last, n);
        }
    }
}

/// A sorted list is ascending and holds the names of its sequence.
pub proof fn lemma_sorted_distinct(s: Seq<Seq<char>>)
    ensures
        is_ascending(sorted_distinct(s)),
        forall|n: Seq<char>| #[trigger] sorted_distinct(s).contains(n) <==> s.contains(n),
    decreases s.len(),
{
    if s.len() > 0 {
        let rest = s.drop_last();
        lemma_sorted_distinct(rest);
        lemma_insert_sorted(sorted_distinct(rest), s.last());
        assert(rest.push(s.last()) =~= s);
        assert forall|n: Seq<char>| #[trigger] sorted_distinct(s).contains(n) <==> s.contains(
            n,
        ) by {
            lemma_contains_push(rest, s.last(), n);
        }
    }
}

/// Ascending lists of the same names are equal.
pub proof fn lemma_ascending_unique(a: Seq<Seq<char>>, b: Seq<Seq<char>>)
    requires
        is_ascending(a),
        is_ascending(b),
        forall|n: Seq<char>| #[trigger] a.contains(n) <==> b.contains(n),
    ensures
        a == b,
    decreases a.len(),
{
    if a.len() == 0 {
        if b.len() > 0 {
            assert(b.contains(b[0]));
            assert(a.contains(b[0]));
        }
        assert(a =~= b);
    } else {
        let x = a.last();
        assert(a[a.len() - 1] == x);
        assert(a.contains(x));
        assert(b.contains(x));
        let y = b.last();
        assert(b[b.len() - 1] == y);
        assert(b.contains(y));
        assert(a.contains(y));
        let i = choose|i: int| 0 <= i < a.len() && a[i] == y;
        let j = choose|j: int| 0 <= j < b.len() && b[j] == x;
        text::lemma_less_total(x, y);
        assert(i < a.len() - 1 ==> text::less(a[i], a[a.len() - 1]));
        assert(j < b.len() - 1 ==> text::less(b[j], b[b.len() - 1]));
        assert(x == y);
        let c = a.drop_last();
        let d = b.drop_last();
        assert(is_ascending(c)) by {
            assert forall|i: int, j: int| 0 <= i < j < c.len() implies text::less(
                #[trigger] c[i],
                #[trigger] c[j],
            ) by {
                assert(a[i] == c[i] && a[j] == c[j]);
            }
        }
        assert(is_ascending(d)) by {
            assert forall|i: int, j: int| 0 <= i < j < d.len() implies text::less(
                #[trigger] d[i],
                #[trigger] d[j],
            ) by {
                assert(b[i] == d[i] && b[j] == d[j]);
            }
        }
        assert(c.push(x) =~= a);
        assert(d.push(x) =~= b);
        assert(!c.contains(x)) by {
            if c.contains(x) {
                let k = choose|k: int| 0 <= k < c.len() && c[k] == x;
                assert(text::less(a[k], a[a.len() - 1]));
            }
        }
        assert(!d.contains(x)) by {
            if d.contains(x) {
                let k = choose|k: int| 0 <= k < d.len() && d[k] == x;
                assert(text::less(b[k], b[b.len() - 1]));
            }
        }
        assert forall|n: Seq<char>| #[trigger] c.contains(n) <==> d.contains(n) by {
            lemma_contains_push(c, x, n);
            lemma_contains_push(d, x, n);
            assert(a.contains(n) <==> b.contains(n));
        }
        lemma_ascending_unique(c, d);
    }
}

/// Put a name into an ascending list, unless it is there already.
pub fn push_sorted(v: &mut Vec<String>, name: &str)
    ensures
        views(final(v)@) == insert_sorted(views(old(v)@), name@),
{
    let ghost list = views(v@);
    let n: usize = v.len();
    let mut at: usize = n;
    proof {
        assert(list.take(n as int) =~= list);
        assert(insert_sorted(list, name@) + list.skip(n as int) =~= insert_sorted(list, name@));
    }
    while at > 0
        invariant
            at <= n,
            n == v@.len(),
            list == views(v@),
            v@ == old(v)@,
            insert_sorted(list, name@) == insert_sorted(list.take(at as int), name@) + list.skip(
                at as int,
            ),
        decreases at,
    {
        let ghost here = list.take(at as int);
        proof {
            assert(here.last() == v@[at - 1]@);
            assert(here.drop_last() =~= list.take(at - 1));
            assert(insert_sorted(list.take(at - 1), name@).push(here.last()) + list.skip(at as int)
                =~= insert_sorted(list.take(at - 1), name@) + list.skip(at - 1));
        }
        if text::str_eq(v[at - 1].as_str(), name) {
            assert(here + list.skip(at as int) =~= list);
            return;
        }
        if text::is_less(v[at - 1].as_str(), name) {
            v.insert(at, name.to_owned());
            assert(views(v@) =~= here.push(name@) + list.skip(at as int));
            return;
        }
        at = at - 1;
    }
    v.insert(0, name.to_owned());
    assert(list.take(0) =~= Seq::empty());
    assert(views(v@) =~= seq![name@] + list.skip(0));
}

/// Names keep the order in which they were first seen: what follows a sequence
/// adds names behind those it had, and changes nothing before them.
pub proof fn law_first_seen_order(a: Seq<Seq<char>>, b: Seq<Seq<char>>)
    ensures
        distinct(a).is_prefix_of(distinct(a + b)),
        distinct_present(a).is_prefix_of(distinct_present(a + b)),
    decreases b.len(),
{
    if b.len() == 0 {
        assert(a + b =~= a);
    } else {
        law_first_seen_order(a, b.drop_last());
        assert((a + b).drop_last() =~= a + b.drop_last());
        assert(distinct(a + b.drop_last()).is_prefix_of(distinct(a + b)));
    }
}

/// Names that are left out leave a gap and nothing more: the rest of two
/// sequences one behind the other is the rest of each, and a single name is
/// left out exactly if it is to be dropped.
pub proof fn law_without(
    a: Seq<Seq<char>>,
    b: Seq<Seq<char>>,
    name: Seq<char>,
    dropped: Seq<Seq<char>>,
)
    ensures
        without(a + b, dropped) == without(a, dropped) + without(b, dropped),
        dropped.contains(name) ==> without(seq![name], dropped) == Seq::<Seq<char>>::empty(),
        !dropped.contains(name) ==> without(seq![name], dropped) == seq![name],
    decreases b.len(),
{
    assert(seq![name].drop_last() =~= Seq::empty());
    assert(without(seq![name].drop_last(), dropped) =~= Seq::empty());
    assert(dropped.contains(name) ==> without(seq![name], dropped) =~= Seq::empty());
    assert(!dropped.contains(name) ==> without(seq![name], dropped) =~= seq![name]);
    if b.len() == 0 {
        assert(a + b =~= a);
        assert(without(a + b, dropped) =~= without(a, dropped) + without(b, dropped));
    } else {
        law_without(a, b.drop_last(), name, dropped);
        assert((a + b).drop_last() =~= a + b.drop_last());
        assert((a + b).last() == b.last());
        assert(without(a + b, dropped) =~= without(a, dropped) + without(b, dropped));
    }
}

} // verus!
