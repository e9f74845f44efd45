//! What a lazy scan yields, and what collecting it under a cap gives.
//!
//! A scan yields items one by one: an element, or a decode failure. Collecting
//! takes the items in order until the cap is reached or a failure is met. So
//! the result holds the first matches in index order, not all of them, and a
//! failure behind the cap is never seen.

use vstd::prelude::*;
use crate::element::{ElementView, GraphError};

verus! {

/// The number of elements after which every step stops scanning.
pub const RESULT_CAP: usize = 100;

/// One item of a scan: `Some` element, or `None` for a record that could not
/// be decoded.
pub type Item = Option<ElementView>;

/// What collecting has come to: the elements so far, or the failure.
pub type Collected = Result<Seq<ElementView>, GraphError>;

/// Whether collecting takes no further item: it failed or reached the cap.
pub open spec fn saturated(acc: Collected, cap: nat) -> bool {
    match acc {
        Err(_) => true,
        Ok(s) => s.len() >= cap,
    }
}

/// Takes one more item, unless collecting is saturated.
pub open spec fn absorb_one(acc: Collected, item: Item, cap: nat) -> Collected {
    match acc {
        Err(_) => acc,
        Ok(s) => if s.len() >= cap {
            acc
        } else {
            match item {
                Some(e) => Ok(s.push(e)),
                None => Err(GraphError::StorageDecodeError),
            }
        },
    }
}

/// Takes the items in order.
pub open spec fn absorb(acc: Collected, items: Seq<Item>, cap: nat) -> Collected
    decreases items.len(),
{
    if items.len() == 0 {
        acc
    } else {
        absorb_one(absorb(acc, items.drop_last(), cap), items.last(), cap)
    }
}

/// Collects a scan from nothing.
pub open spec fn collect(items: Seq<Item>, cap: nat) -> Collected {
    absorb(Ok(Seq::empty()), items, cap)
}

/// The items of a scan that yields, for each entry in order, the items `f`
/// gives for it.
pub open spec fn flat<A>(s: Seq<A>, f: spec_fn(A) -> Seq<Item>) -> Seq<Item>
    decreases s.len(),
{
    if s.len() == 0 {
        Seq::empty()
    } else {
        flat(s.drop_last(), f) + f(s.last())
    }
}

/// Taking `a` then `b` is taking `a + b`.
pub proof fn lemma_absorb_concat(acc: Collected, a: Seq<Item>, b: Seq<Item>, cap: nat)
    ensures
        absorb(acc, a + b, cap) == absorb(absorb(acc, a, cap), b, cap),
    decreases b.len(),
{
    if b.len() == 0 {
        assert(a + b =~= a);
    } else {
        assert((a + b).drop_last() =~= a + b.drop_last());
        assert((a + b).last() == b.last());
        lemma_absorb_concat(acc, a, b.drop_last(), cap);
    }
}

/// Once saturated, collecting stays as it is.
pub proof fn lemma_absorb_saturated(acc: Collected, items: Seq<Item>, cap: nat)
    requires
        saturated(acc, cap),
    ensures
        absorb(acc, items, cap) == acc,
    decreases items.len(),
{
    if items.len() > 0 {
        lemma_absorb_saturated(acc, items.drop_last(), cap);
    }
}

/// Taking a single item.
pub proof fn lemma_absorb_single(acc: Collected, item: Item, cap: nat)
    ensures
        absorb(acc, seq![item], cap) == absorb_one(acc, item, cap),
{
    let one = seq![item];
    assert(one.len() == 1);
    assert(one.drop_last() =~= Seq::<Item>::empty());
    assert(one.last() == item);
    assert(absorb(acc, one.drop_last(), cap) == acc);
    assert(absorb(acc, one, cap) == absorb_one(absorb(acc, one.drop_last(), cap), one.last(), cap));
}

/// Collecting never goes past the cap.
pub proof fn lemma_absorb_bounded(acc: Collected, items: Seq<Item>, cap: nat)
    requires
        acc is Ok ==> acc->Ok_0.len() <= cap,
    ensures
        absorb(acc, items, cap) is Ok ==> absorb(acc, items, cap)->Ok_0.len() <= cap,
    decreases items.len(),
{
    if items.len() > 0 {
        lemma_absorb_bounded(acc, items.drop_last(), cap);
    }
}

/// How many items of a scan collecting looks at: all of them, or the first
/// `cap`.
pub open spec fn window_len(items: Seq<Item>, cap: nat) -> int {
    if items.len() <= cap {
        items.len() as int
    } else {
        cap as int
    }
}

/// Whether none of the items that collecting looks at is a failure.
pub open spec fn window_clean(items: Seq<Item>, cap: nat) -> bool {
    forall|i: int| 0 <= i < window_len(items, cap) ==> (#[trigger] items[i]) is Some
}

/// The elements among the items that collecting looks at, in scan order.
pub open spec fn window_elements(items: Seq<Item>, cap: nat) -> Seq<ElementView> {
    Seq::new(window_len(items, cap) as nat, |i: int| items[i]->Some_0)
}

/// Collecting gives the first `cap` items of the scan in scan order, or all
/// of them where there are fewer; it fails exactly where one of those items
/// is a failure.
pub proof fn lemma_collect_window(items: Seq<Item>, cap: nat)
    ensures
        collect(items, cap) == if window_clean(items, cap) {
            Ok::<Seq<ElementView>, GraphError>(window_elements(items, cap))
        } else {
            Err::<Seq<ElementView>, GraphError>(GraphError::StorageDecodeError)
        },
    decreases items.len(),
{
    if items.len() == 0 {
        assert(window_elements(items, cap) =~= Seq::<ElementView>::empty());
    } else {
        let rest = items.drop_last();
        lemma_collect_window(rest, cap);
        assert(forall|i: int| 0 <= i < rest.len() ==> rest[i] == items[i]);
        if window_clean(rest, cap) {
            if rest.len() >= cap {
                assert(window_elements(items, cap) =~= window_elements(rest, cap));
                assert(window_clean(items, cap));
            } else {
                match items.last() {
                    Some(e) => {
                        assert(window_clean(items, cap));
                        assert(window_elements(items, cap) =~= window_elements(rest, cap).push(e));
                    },
                    None => {
                        assert(!(items[rest.len() as int] is Some));
                        assert(!window_clean(items, cap));
                    },
                }
            }
        } else {
            let bad = choose|i: int| 0 <= i < window_len(rest, cap) && !(rest[i] is Some);
            assert(!(items[bad] is Some));
            assert(!window_clean(items, cap));
        }
    }
}

/// A scan over `a + b` yields the items of `a`, then those of `b`.
pub proof fn lemma_flat_concat<A>(a: Seq<A>, b: Seq<A>, f: spec_fn(A) -> Seq<Item>)
    ensures
        flat(a + b, f) == flat(a, f) + flat(b, f),
    decreases b.len(),
{
    if b.len() == 0 {
        assert(a + b =~= a);
        assert(flat(a, f) + flat(b, f) =~= flat(a, f));
    } else {
        assert((a + b).drop_last() =~= a + b.drop_last());
        assert((a + b).last() == b.last());
        lemma_flat_concat(a, b.drop_last(), f);
        assert(flat(a, f) + (flat(b.drop_last(), f) + f(b.last())) =~= (flat(a, f) + flat(
            b.drop_last(),
            f,
        )) + f(b.last()));
    }
}

/// Scanning one entry further takes that entry's items.
pub proof fn lemma_scan_step<A>(
    s: Seq<A>,
    f: spec_fn(A) -> Seq<Item>,
    k: int,
    acc: Collected,
    cap: nat,
)
    requires
        0 <= k < s.len(),
    ensures
        absorb(acc, flat(s.take(k + 1), f), cap) == absorb(
            absorb(acc, flat(s.take(k), f), cap),
            f(s[k]),
            cap,
        ),
{
    assert(s.take(k + 1).drop_last() =~= s.take(k));
    assert(s.take(k + 1).last() == s[k]);
    lemma_absorb_concat(acc, flat(s.take(k), f), f(s[k]), cap);
}

/// A scan that is saturated after `k` entries may stop there.
pub proof fn lemma_scan_stops<A>(
    s: Seq<A>,
    f: spec_fn(A) -> Seq<Item>,
    k: int,
    acc: Collected,
    cap: nat,
)
    requires
        0 <= k <= s.len(),
        saturated(absorb(acc, flat(s.take(k), f), cap), cap),
    ensures
        absorb(acc, flat(s, f), cap) == absorb(acc, flat(s.take(k), f), cap),
{
    assert(s =~= s.take(k) + s.skip(k));
    lemma_flat_concat(s.take(k), s.skip(k), f);
    lemma_absorb_concat(acc, flat(s.take(k), f), flat(s.skip(k), f), cap);
    lemma_absorb_saturated(absorb(acc, flat(s.take(k), f), cap), flat(s.skip(k), f), cap);
}

/// Before the first entry nothing has been taken.
pub proof fn lemma_scan_start<A>(s: Seq<A>, f: spec_fn(A) -> Seq<Item>, acc: Collected, cap: nat)
    ensures
        absorb(acc, flat(s.take(0), f), cap) == acc,
{
    assert(s.take(0) =~= Seq::<A>::empty());
}

/// After the last entry the whole scan has been taken.
pub proof fn lemma_scan_end<A>(s: Seq<A>, f: spec_fn(A) -> Seq<Item>)
    ensures
        s.take(s.len() as int) == s,
{
    assert(s.take(s.len() as int) =~= s);
}

} // verus!
