//! Laws of the lot, stated over the transition predicates that the executable
//! operations ensure.

use vstd::prelude::*;
use crate::casefold::lower_of;
use crate::interp::{step, ActionV};
use crate::lot::{
    alloc_step, empty_lot, first_empty, leave_step, lemma_first_empty, lines_view, park_step,
    query_lines, query_step, status_lines, status_step, CarV, LotV, MyResult, QueryV,
};
use crate::messages::{allocated_msg, header_msg};

verus! {

/// Allocating twice always fails with `AlreadyAllocated`, whatever the two
/// capacities were: a first successful allocation leaves the lot allocated,
/// and a second request neither changes it nor succeeds.
pub proof fn lemma_allocate_twice_fails(
    st: LotV,
    n1: nat,
    st1: LotV,
    r1: MyResult,
    n2: nat,
    st2: LotV,
    r2: MyResult,
)
    requires
        alloc_step(st, n1, st1, r1),
        r1 is Ok,
        alloc_step(st1, n2, st2, r2),
    ensures
        r2 is Err,
        r2->Err_0 is AlreadyAllocated,
        st2 == st1,
{
}

/// Parking on a lot with at least one empty slot succeeds, occupies exactly
/// the lowest-indexed empty slot, and reports its 1-based index, which lies
/// in `[1, capacity]`.
pub proof fn lemma_park_first_fit(
    s: Seq<Option<CarV>>,
    reg: Seq<char>,
    color: Seq<char>,
    st2: LotV,
    r: MyResult,
)
    requires
        park_step(Some(s), reg, color, st2, r),
        exists|j: int| 0 <= j < s.len() && s[j] is None,
    ensures
        r is Ok,
        0 <= first_empty(s) < s.len(),
        s[first_empty(s)] is None,
        forall|j: int| 0 <= j < first_empty(s) ==> s[j] is Some,
        st2 == Some(s.update(first_empty(s), Some(CarV { reg, color }))),
        lines_view(r->Ok_0@) == seq![allocated_msg((first_empty(s) + 1) as nat)],
        1 <= first_empty(s) + 1 <= s.len(),
{
    lemma_first_empty(s);
    let j = choose|j: int| 0 <= j < s.len() && s[j] is None;
    if first_empty(s) == s.len() {
        assert(s[j] is Some);
    }
}

/// Parking when every slot is occupied fails with `LotFull` and changes
/// nothing.
pub proof fn lemma_park_full(
    s: Seq<Option<CarV>>,
    reg: Seq<char>,
    color: Seq<char>,
    st2: LotV,
    r: MyResult,
)
    requires
        park_step(Some(s), reg, color, st2, r),
        forall|j: int| 0 <= j < s.len() ==> s[j] is Some,
    ensures
        r is Err,
        r->Err_0 is LotFull,
        st2 == Some(s),
{
    lemma_first_empty(s);
    if first_empty(s) < s.len() {
        assert(s[first_empty(s)] is Some);
    }
}

/// A freed slot is immediately available with first-fit priority: after a
/// successful leave of slot `k`, the next park succeeds and occupies a slot
/// no higher than `k`.
pub proof fn lemma_leave_then_park(
    s: Seq<Option<CarV>>,
    k: nat,
    st1: LotV,
    r1: MyResult,
    reg: Seq<char>,
    color: Seq<char>,
    st2: LotV,
    r2: MyResult,
)
    requires
        leave_step(Some(s), k, st1, r1),
        1 <= k <= s.len(),
        park_step(st1, reg, color, st2, r2),
    ensures
        r1 is Ok,
        st1 == Some(s.update(k - 1, None::<CarV>)),
        r2 is Ok,
        first_empty(st1->Some_0) <= k - 1,
        lines_view(r2->Ok_0@) == seq![allocated_msg((first_empty(st1->Some_0) + 1) as nat)],
        first_empty(st1->Some_0) + 1 <= k,
{
    let s1 = s.update(k - 1, None::<CarV>);
    assert(s1[k - 1] is None);
    lemma_first_empty(s1);
    if first_empty(s1) > k - 1 {
        assert(s1[k - 1] is Some);
    }
}

/// How many slots of `s` are occupied.
pub open spec fn num_occupied(s: Seq<Option<CarV>>) -> nat
    decreases s.len(),
{
    if s.len() == 0 {
        0
    } else {
        num_occupied(s.drop_last()) + if s.last() is Some {
            1nat
        } else {
            0nat
        }
    }
}

/// A freshly allocated lot has no occupied slot.
pub proof fn lemma_empty_lot_unoccupied(n: nat)
    ensures
        num_occupied(empty_lot(n)) == 0,
    decreases n,
{
    if n > 0 {
        lemma_empty_lot_unoccupied((n - 1) as nat);
        assert(empty_lot(n).drop_last() =~= empty_lot((n - 1) as nat));
    }
}

proof fn lemma_not_full_has_empty(s: Seq<Option<CarV>>)
    requires
        num_occupied(s) < s.len(),
    ensures
        exists|j: int| 0 <= j < s.len() && s[j] is None,
    decreases s.len(),
{
    if s.last() is None {
        assert(s[s.len() - 1] is None);
    } else {
        lemma_not_full_has_empty(s.drop_last());
        let j = choose|j: int| 0 <= j < s.drop_last().len() && s.drop_last()[j] is None;
        assert(s[j] is None);
    }
}

proof fn lemma_num_occupied_fill(s: Seq<Option<CarV>>, i: int, c: CarV)
    requires
        0 <= i < s.len(),
        s[i] is None,
    ensures
        num_occupied(s.update(i, Some(c))) == num_occupied(s) + 1,
    decreases s.len(),
{
    let s2 = s.update(i, Some(c));
    if i == s.len() - 1 {
        assert(s2.drop_last() =~= s.drop_last());
    } else {
        assert(s2.drop_last() =~= s.drop_last().update(i, Some(c)));
        lemma_num_occupied_fill(s.drop_last(), i, c);
    }
}

/// Any sequence of park calls not exceeding capacity succeeds: as long as
/// fewer slots are occupied than the capacity, a park occupies the
/// lowest-indexed empty slot, raises the occupancy by exactly one, and
/// reports an index in `[1, capacity]`, so the argument applies to the
/// next call in turn.
pub proof fn lemma_park_below_capacity(
    s: Seq<Option<CarV>>,
    reg: Seq<char>,
    color: Seq<char>,
    st2: LotV,
    r: MyResult,
)
    requires
        park_step(Some(s), reg, color, st2, r),
        num_occupied(s) < s.len(),
    ensures
        r is Ok,
        st2 == Some(s.update(first_empty(s), Some(CarV { reg, color }))),
        num_occupied(st2->Some_0) == num_occupied(s) + 1,
        st2->Some_0.len() == s.len(),
        lines_view(r->Ok_0@) == seq![allocated_msg((first_empty(s) + 1) as nat)],
        1 <= first_empty(s) + 1 <= s.len(),
{
    lemma_not_full_has_empty(s);
    lemma_park_first_fit(s, reg, color, st2, r);
    lemma_num_occupied_fill(s, first_empty(s), CarV { reg, color });
}

/// Whether two lookups are of the same kind and their arguments have the same
/// lowercase form.
pub open spec fn query_equiv(q1: QueryV, q2: QueryV) -> bool {
    match (q1, q2) {
        (QueryV::RegNumbersForColor(c1), QueryV::RegNumbersForColor(c2)) => lower_of(c1)
            == lower_of(c2),
        (QueryV::SlotNumbersForColor(c1), QueryV::SlotNumbersForColor(c2)) => lower_of(c1)
            == lower_of(c2),
        (QueryV::SlotNumbersForRegNo(g1), QueryV::SlotNumbersForRegNo(g2)) => lower_of(g1)
            == lower_of(g2),
        _ => false,
    }
}

/// Lookups are case-insensitive: two lookups of the same kind whose arguments
/// have the same lowercase form yield exactly the same lines on every lot.
pub proof fn lemma_query_case_insensitive(q1: QueryV, q2: QueryV, s: Seq<Option<CarV>>, i: int)
    requires
        query_equiv(q1, q2),
    ensures
        query_lines(q1, s, i) == query_lines(q2, s, i),
    decreases i,
{
    if i > 0 {
        lemma_query_case_insensitive(q1, q2, s, i - 1);
    }
}

/// The two answers of equivalent lookups agree wholesale: both fail with
/// `NotFound`, or both answer the same lines.
pub proof fn lemma_query_step_case_insensitive(
    st: LotV,
    q1: QueryV,
    q2: QueryV,
    r1: MyResult,
    r2: MyResult,
)
    requires
        st is Some,
        query_equiv(q1, q2),
        query_step(st, q1, r1),
        query_step(st, q2, r2),
    ensures
        r1 is Ok <==> r2 is Ok,
        r1 is Ok ==> lines_view(r1->Ok_0@) == lines_view(r2->Ok_0@),
        r1 is Err ==> r1->Err_0 is NotFound && r2->Err_0 is NotFound,
{
    let s = st->Some_0;
    lemma_query_case_insensitive(q1, q2, s, s.len() as int);
}

/// On a lot with no occupied slot, status answers the header line alone.
pub proof fn lemma_status_no_cars(s: Seq<Option<CarV>>, r: MyResult)
    requires
        status_step(Some(s), r),
        forall|j: int| 0 <= j < s.len() ==> s[j] is None,
    ensures
        r is Ok,
        lines_view(r->Ok_0@) == seq![header_msg()],
{
    lemma_status_lines_empty(s, s.len() as int);
    assert(seq![header_msg()] + status_lines(s, s.len() as int) =~= seq![header_msg()]);
}

/// Every action but a create fails with `NotAllocated` on an unallocated lot,
/// and leaves it unallocated.
pub proof fn lemma_unallocated_rejected(a: ActionV, st2: LotV, r: MyResult)
    requires
        step(None, a, st2, r),
        !(a is Create),
    ensures
        r is Err,
        r->Err_0 is NotAllocated,
        st2 is None,
{
}

proof fn lemma_status_lines_empty(s: Seq<Option<CarV>>, i: int)
    requires
        forall|j: int| 0 <= j < s.len() ==> s[j] is None,
        i <= s.len(),
    ensures
        status_lines(s, i) == Seq::<Seq<char>>::empty(),
    decreases i,
{
    if i > 0 {
        lemma_status_lines_empty(s, i - 1);
        assert(status_lines(s, i) =~= Seq::<Seq<char>>::empty());
    }
}

} // verus!
