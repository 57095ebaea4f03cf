//! The first or last item of a sequence that yields something.

use vstd::prelude::*;

verus! {

/// What the last item that yields something yields.
pub open spec fn last_found<A, T>(items: Seq<A>, decode: spec_fn(A) -> Option<T>) -> Option<T>
    decreases items.len(),
{
    if items.len() == 0 {
        None
    } else {
        match decode(items.last()) {
            Some(t) => Some(t),
            None => last_found(items.drop_last(), decode),
        }
    }
}

/// What the first item that yields something yields.
pub open spec fn first_found<A, T>(items: Seq<A>, decode: spec_fn(A) -> Option<T>) -> Option<T>
    decreases items.len(),
{
    if items.len() == 0 {
        None
    } else {
        match first_found(items.drop_last(), decode) {
            Some(t) => Some(t),
            None => decode(items.last()),
        }
    }
}

/// The last item that yields something, in two sequences one behind the other:
/// that of the second one, if it has any.
pub proof fn lemma_last_found_add<A, T>(
    a: Seq<A>,
    b: Seq<A>,
    decode: spec_fn(A) -> Option<T>,
)
    ensures
        last_found(a + b, decode) == (match last_found(b, decode) {
            Some(t) => Some(t),
            None => last_found(a, decode),
        }),
    decreases b.len(),
{
    if b.len() == 0 {
        assert(a + b =~= a);
    } else {
        lemma_last_found_add(a, b.drop_last(), decode);
        assert((a + b).drop_last() =~= a + b.drop_last());
        assert((a + b).last() == b.last());
    }
}

/// Something is found exactly where some item yields something.
pub proof fn lemma_last_found_some<A, T>(items: Seq<A>, decode: spec_fn(A) -> Option<T>)
    ensures
        last_found(items, decode) is Some <==> exists|i: int|
            0 <= i < items.len() && decode(#[trigger] items[i]) is Some,
    decreases items.len(),
{
    if items.len() > 0 {
        let rest = items.drop_last();
        lemma_last_found_some(rest, decode);
        assert(items[items.len() - 1] == items.last());
        if last_found(rest, decode) is Some {
            let i = choose|i: int| 0 <= i < rest.len() && decode(#[trigger] rest[i]) is Some;
            assert(items[i] == rest[i]);
        }
        if exists|i: int| 0 <= i < items.len() && decode(#[trigger] items[i]) is Some {
            let i = choose|i: int| 0 <= i < items.len() && decode(#[trigger] items[i]) is Some;
            if i < rest.len() {
                assert(rest[i] == items[i]);
            }
        }
    }
}

/// The last item that yields something is found: one behind which none does.
pub proof fn law_last_found<A, T>(items: Seq<A>, decode: spec_fn(A) -> Option<T>, k: int)
    requires
        0 <= k < items.len(),
        decode(items[k]) is Some,
        forall|j: int| k < j < items.len() ==> decode(#[trigger] items[j]) is None,
    ensures
        last_found(items, decode) == decode(items[k]),
    decreases items.len(),
{
    assert(items.last() == items[items.len() - 1]);
    if k < items.len() - 1 {
        let rest = items.drop_last();
        assert(rest[k] == items[k]);
        assert forall|j: int| k < j < rest.len() implies decode(#[trigger] rest[j]) is None by {
            assert(rest[j] == items[j]);
        }
        law_last_found(rest, decode, k);
    }
}

/// The first item that yields something is found: one before which none does.
pub proof fn law_first_found<A, T>(items: Seq<A>, decode: spec_fn(A) -> Option<T>, k: int)
    requires
        0 <= k < items.len(),
        decode(items[k]) is Some,
        forall|j: int| 0 <= j < k ==> decode(#[trigger] items[j]) is None,
    ensures
        first_found(items, decode) == decode(items[k]),
    decreases items.len(),
{
    let rest = items.drop_last();
    assert(items.last() == items[items.len() - 1]);
    assert forall|j: int| 0 <= j < rest.len() implies #[trigger] rest[j] == items[j] by {}
    if k < items.len() - 1 {
        assert(rest[k] == items[k]);
        law_first_found(rest, decode, k);
    } else {
        law_nothing_found(rest, decode);
    }
}

/// Nothing is found where no item yields anything.
pub proof fn law_nothing_found<A, T>(items: Seq<A>, decode: spec_fn(A) -> Option<T>)
    requires
        forall|j: int| 0 <= j < items.len() ==> decode(#[trigger] items[j]) is None,
    ensures
        first_found(items, decode) is None,
        last_found(items, decode) is None,
    decreases items.len(),
{
    if items.len() > 0 {
        let rest = items.drop_last();
        assert(items.last() == items[items.len() - 1]);
        assert forall|j: int| 0 <= j < rest.len() implies decode(#[trigger] rest[j]) is None by {
            assert(rest[j] == items[j]);
        }
        law_nothing_found(rest, decode);
    }
}

} // verus!
