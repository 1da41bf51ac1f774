//! The state store: the slot sequence, the allocation and occupancy rules,
//! and the queries over occupancy.

use vstd::prelude::*;
use crate::casefold::{eq_ignore_case, lower_of};
use crate::error::ParkError;
use crate::messages::{
    allocated_line, allocated_msg, created_line, created_msg, dec_rep, free_line, free_msg,
    header_line, header_msg, status_line, status_line_msg, usize_to_string,
};

verus! {

/// What every operation answers: one or more result lines, or one error.
pub type MyResult = Result<Vec<String>, ParkError>;

/// The visible content of one vehicle: its registration and color.
pub struct CarV {
    pub reg: Seq<char>,
    pub color: Seq<char>,
}

/// A parked vehicle, immutable once created.
pub struct Car {
    reg_num: String,
    color: String,
}

impl View for Car {
    type V = CarV;

    closed spec fn view(&self) -> CarV {
        CarV { reg: self.reg_num@, color: self.color@ }
    }
}

impl Car {
    /// Creates a vehicle from its registration and color.
    pub fn new(reg_num: String, color: String) -> (r: Car)
        ensures
            r@ == (CarV { reg: reg_num@, color: color@ }),
    {
        Car { reg_num, color }
    }

    /// Whether this vehicle's registration matches `reg_num`, ignoring case.
    pub fn reg_num_match(&self, reg_num: &str) -> (r: bool)
        ensures
            r == (lower_of(self@.reg) == lower_of(reg_num@)),
    {
        eq_ignore_case(self.reg_num.as_str(), reg_num)
    }

    /// Whether this vehicle's color matches `color`, ignoring case.
    pub fn color_match(&self, color: &str) -> (r: bool)
        ensures
            r == (lower_of(self@.color) == lower_of(color@)),
    {
        eq_ignore_case(self.color.as_str(), color)
    }

    /// A copy of this vehicle's registration.
    pub fn reg_num(&self) -> (r: String)
        ensures
            r@ == self@.reg,
    {
        self.reg_num.clone()
    }
}

/// One position of the lot: occupied by a vehicle, or empty.
pub enum Slot {
    Occupied(Car),
    Empty,
}

impl View for Slot {
    type V = Option<CarV>;

    open spec fn view(&self) -> Option<CarV> {
        match self {
            Slot::Occupied(c) => Some(c@),
            Slot::Empty => None,
        }
    }
}

fn slot_is_empty(s: &Slot) -> (b: bool)
    ensures
        b == (s@ is None),
{
    match s {
        Slot::Empty => true,
        Slot::Occupied(_) => false,
    }
}

/// The slots of a lot, as the occupancy each holds.
pub open spec fn slots_view(v: Seq<Slot>) -> Seq<Option<CarV>> {
    v.map_values(|s: Slot| s@)
}

/// The state of the store: unallocated, or the occupancy of each slot.
pub type LotV = Option<Seq<Option<CarV>>>;

/// The views of a sequence of answer lines.
pub open spec fn lines_view(lines: Seq<String>) -> Seq<Seq<char>> {
    lines.map_values(|l: String| l@)
}

proof fn lemma_slots_view_push(v: Seq<Slot>, s: Slot)
    ensures
        slots_view(v.push(s)) == slots_view(v).push(s@),
{
    assert(slots_view(v.push(s)) =~= slots_view(v).push(s@));
}

proof fn lemma_slots_view_update(v: Seq<Slot>, i: int, s: Slot)
    requires
        0 <= i < v.len(),
    ensures
        slots_view(v.update(i, s)) == slots_view(v).update(i, s@),
{
    assert(slots_view(v.update(i, s)) =~= slots_view(v).update(i, s@));
}

pub(crate) proof fn lemma_lines_view_push(lines: Seq<String>, l: String)
    ensures
        lines_view(lines.push(l)) == lines_view(lines).push(l@),
{
    assert(lines_view(lines.push(l)) =~= lines_view(lines).push(l@));
}

/// A freshly allocated lot: `n` empty slots.
pub open spec fn empty_lot(n: nat) -> Seq<Option<CarV>> {
    Seq::new(n, |i: int| None::<CarV>)
}

/// The index of the lowest empty slot, or the length when none is empty.
pub open spec fn first_empty(s: Seq<Option<CarV>>) -> int
    decreases s.len(),
{
    if s.len() == 0 {
        0
    } else if s[0] is None {
        0
    } else {
        1 + first_empty(s.drop_first())
    }
}

/// `first_empty` names the lowest-indexed empty slot: it is in bounds, it is
/// empty when in bounds, and every slot below it is occupied.
pub proof fn lemma_first_empty(s: Seq<Option<CarV>>)
    ensures
        0 <= first_empty(s) <= s.len(),
        first_empty(s) < s.len() ==> s[first_empty(s)] is None,
        forall|j: int| 0 <= j < first_empty(s) ==> s[j] is Some,
    decreases s.len(),
{
    if s.len() == 0 {
    } else if s[0] is None {
    } else {
        lemma_first_empty(s.drop_first());
        assert forall|j: int| 0 <= j < first_empty(s) implies s[j] is Some by {
            if j > 0 {
                assert(s.drop_first()[j - 1] == s[j]);
            }
        }
        if first_empty(s) < s.len() {
            assert(s.drop_first()[first_empty(s) - 1] == s[first_empty(s)]);
        }
    }
}

/// What an allocation request does: it fails on an allocated lot or on
/// capacity 0, and otherwise creates `n` empty slots and reports so.
pub open spec fn alloc_step(st: LotV, n: nat, st2: LotV, r: MyResult) -> bool {
    if st is Some {
        st2 == st && r is Err && r->Err_0 is AlreadyAllocated
    } else if n == 0 {
        st2 == st && r is Err && r->Err_0 is InvalidCapacity
    } else {
        st2 == Some(empty_lot(n)) && r is Ok && lines_view(r->Ok_0@) == seq![created_msg(n)]
    }
}

/// What a park request does: it fails on an unallocated or full lot, and
/// otherwise occupies exactly the lowest-indexed empty slot and reports its
/// 1-based index.
pub open spec fn park_step(
    st: LotV,
    reg: Seq<char>,
    color: Seq<char>,
    st2: LotV,
    r: MyResult,
) -> bool {
    if st is None {
        st2 == st && r is Err && r->Err_0 is NotAllocated
    } else {
        let s = st->Some_0;
        let i = first_empty(s);
        if i < s.len() {
            st2 == Some(s.update(i, Some(CarV { reg, color }))) && r is Ok && lines_view(
                r->Ok_0@,
            ) == seq![allocated_msg((i + 1) as nat)]
        } else {
            st2 == st && r is Err && r->Err_0 is LotFull
        }
    }
}

/// What a leave request does: it fails on an unallocated lot or a slot number
/// outside `[1, capacity]`, and otherwise empties the named slot (even when it
/// already was empty) and reports it free.
pub open spec fn leave_step(st: LotV, k: nat, st2: LotV, r: MyResult) -> bool {
    if st is None {
        st2 == st && r is Err && r->Err_0 is NotAllocated
    } else {
        let s = st->Some_0;
        if k < 1 || k > s.len() {
            st2 == st && r is Err && r->Err_0 is InvalidSlotNumber
                && r->Err_0->InvalidSlotNumber_0 as nat == s.len()
        } else {
            st2 == Some(s.update(k - 1, None::<CarV>)) && r is Ok && lines_view(r->Ok_0@)
                == seq![free_msg(k)]
        }
    }
}

/// The status lines for the slots below index `i`, in ascending order:
/// one line per occupied slot.
pub open spec fn status_lines(s: Seq<Option<CarV>>, i: int) -> Seq<Seq<char>>
    decreases i,
{
    if i <= 0 {
        seq![]
    } else {
        status_lines(s, i - 1) + if s[i - 1] is Some {
            seq![status_line_msg(i as nat, s[i - 1]->Some_0.reg, s[i - 1]->Some_0.color)]
        } else {
            seq![]
        }
    }
}

/// What a status request answers: the header line, then one line per occupied
/// slot in ascending index order; it fails only on an unallocated lot.
pub open spec fn status_step(st: LotV, r: MyResult) -> bool {
    if st is None {
        r is Err && r->Err_0 is NotAllocated
    } else {
        let s = st->Some_0;
        r is Ok && lines_view(r->Ok_0@) == seq![header_msg()] + status_lines(s, s.len() as int)
    }
}

/// A read-only lookup over the occupancy state.
pub enum Query {
    /// Registrations of vehicles of the given color.
    RegNumbersForColor(String),
    /// 1-based slot indices of vehicles of the given color.
    SlotNumbersForColor(String),
    /// 1-based slot indices of vehicles of the given registration.
    SlotNumbersForRegNo(String),
}

/// The view of a lookup: the same choice over character sequences.
pub enum QueryV {
    RegNumbersForColor(Seq<char>),
    SlotNumbersForColor(Seq<char>),
    SlotNumbersForRegNo(Seq<char>),
}

impl View for Query {
    type V = QueryV;

    open spec fn view(&self) -> QueryV {
        match self {
            Query::RegNumbersForColor(color) => QueryV::RegNumbersForColor(color@),
            Query::SlotNumbersForColor(color) => QueryV::SlotNumbersForColor(color@),
            Query::SlotNumbersForRegNo(reg) => QueryV::SlotNumbersForRegNo(reg@),
        }
    }
}

/// The line a lookup yields at 1-based slot `i` occupied by `c`, if any;
/// matching ignores case.
pub open spec fn query_line(q: QueryV, i: nat, c: CarV) -> Option<Seq<char>> {
    match q {
        QueryV::RegNumbersForColor(color) => if lower_of(c.color) == lower_of(color) {
            Some(c.reg)
        } else {
            None
        },
        QueryV::SlotNumbersForColor(color) => if lower_of(c.color) == lower_of(color) {
            Some(dec_rep(i))
        } else {
            None
        },
        QueryV::SlotNumbersForRegNo(reg) => if lower_of(c.reg) == lower_of(reg) {
            Some(dec_rep(i))
        } else {
            None
        },
    }
}

/// All lines a lookup yields over the slots below index `i`, in ascending
/// slot order.
pub open spec fn query_lines(q: QueryV, s: Seq<Option<CarV>>, i: int) -> Seq<Seq<char>>
    decreases i,
{
    if i <= 0 {
        seq![]
    } else {
        query_lines(q, s, i - 1) + if s[i - 1] is Some {
            match query_line(q, i as nat, s[i - 1]->Some_0) {
                Some(l) => seq![l],
                None => seq![],
            }
        } else {
            seq![]
        }
    }
}

/// What a lookup answers: every line it yields, in ascending slot order; it
/// fails on an unallocated lot, and with `NotFound` when no slot matches.
pub open spec fn query_step(st: LotV, q: QueryV, r: MyResult) -> bool {
    if st is None {
        r is Err && r->Err_0 is NotAllocated
    } else {
        let s = st->Some_0;
        let lines = query_lines(q, s, s.len() as int);
        if lines.len() == 0 {
            r is Err && r->Err_0 is NotFound
        } else {
            r is Ok && lines_view(r->Ok_0@) == lines
        }
    }
}

fn apply_query(q: &Query, idx1: usize, car: &Car) -> (r: Option<String>)
    ensures
        r is Some <==> query_line(q@, idx1 as nat, car@) is Some,
        r is Some ==> r->Some_0@ == query_line(q@, idx1 as nat, car@)->Some_0,
{
    match q {
        Query::RegNumbersForColor(color) => if car.color_match(color.as_str()) {
            Some(car.reg_num())
        } else {
            None
        },
        Query::SlotNumbersForColor(color) => if car.color_match(color.as_str()) {
            Some(usize_to_string(idx1))
        } else {
            None
        },
        Query::SlotNumbersForRegNo(reg) => if car.reg_num_match(reg.as_str()) {
            Some(usize_to_string(idx1))
        } else {
            None
        },
    }
}

/// The state store: unallocated at first, then exactly `capacity` slots.
pub struct ParkLotIntern {
    slots: Option<Vec<Slot>>,
}

impl View for ParkLotIntern {
    type V = LotV;

    closed spec fn view(&self) -> LotV {
        match self.slots {
            Some(v) => Some(slots_view(v@)),
            None => None,
        }
    }
}

impl ParkLotIntern {
    /// A store with no lot allocated yet.
    pub fn new() -> (r: Self)
        ensures
            r@ is None,
    {
        ParkLotIntern { slots: None }
    }

    /// Succeeds exactly when a lot has been allocated.
    pub fn check_allocated(&self) -> (r: Result<(), ParkError>)
        ensures
            r is Ok <==> self@ is Some,
            r is Err ==> r->Err_0 is NotAllocated,
    {
        if self.slots.is_none() {
            Err(ParkError::NotAllocated)
        } else {
            Ok(())
        }
    }

    /// Allocates the lot: `n` empty slots, at most once, with `n >= 1`.
    pub fn allocate(&mut self, n: usize) -> (r: MyResult)
        ensures
            alloc_step(old(self)@, n as nat, final(self)@, r),
    {
        if self.slots.is_some() {
            Err(ParkError::AlreadyAllocated)
        } else if n == 0 {
            Err(ParkError::InvalidCapacity)
        } else {
            let mut v: Vec<Slot> = Vec::new();
            let mut i: usize = 0;
            while i < n
                invariant
                    0 <= i <= n,
                    slots_view(v@) == empty_lot(i as nat),
                decreases n - i,
            {
                let ghost w = v@;
                v.push(Slot::Empty);
                i = i + 1;
                proof {
                    lemma_slots_view_push(w, Slot::Empty);
                    assert(slots_view(v@) =~= empty_lot(i as nat));
                }
            }
            self.slots = Some(v);
            let mut lines: Vec<String> = Vec::new();
            lines.push(created_line(n));
            proof {
                assert(lines_view(lines@) =~= seq![created_msg(n as nat)]);
            }
            Ok(lines)
        }
    }

    /// Parks a vehicle in the lowest-indexed empty slot.
    pub fn park(&mut self, reg_num: &str, color: &str) -> (r: MyResult)
        ensures
            park_step(old(self)@, reg_num@, color@, final(self)@, r),
    {
        if self.slots.is_none() {
            return Err(ParkError::NotAllocated);
        }
        let mut v = self.slots.take().unwrap();
        let ghost s = slots_view(v@);
        let n = v.len();
        let mut i: usize = 0;
        while i < n && !slot_is_empty(&v[i])
            invariant
                0 <= i <= n,
                n == s.len(),
                s == slots_view(v@),
                forall|j: int| 0 <= j < i ==> s[j] is Some,
            decreases n - i,
        {
            i = i + 1;
        }
        proof {
            lemma_first_empty(s);
        }
        if i < n {
            proof {
                assert(s[i as int] == v@[i as int]@);
                assert(first_empty(s) == i);
            }
            let car = Car::new(reg_num.to_owned(), color.to_owned());
            proof {
                lemma_slots_view_update(v@, i as int, Slot::Occupied(car));
            }
            v[i] = Slot::Occupied(car);
            self.slots = Some(v);
            let mut lines: Vec<String> = Vec::new();
            lines.push(allocated_line(i + 1));
            proof {
                assert(slots_view(v@) =~= s.update(
                    i as int,
                    Some(CarV { reg: reg_num@, color: color@ }),
                ));
                assert(lines_view(lines@) =~= seq![allocated_msg((i + 1) as nat)]);
            }
            Ok(lines)
        } else {
            proof {
                assert(first_empty(s) == n);
            }
            self.slots = Some(v);
            Err(ParkError::LotFull)
        }
    }

    /// Empties slot `slot_no` (1-based); leaving an empty slot succeeds too.
    pub fn leave(&mut self, slot_no: usize) -> (r: MyResult)
        ensures
            leave_step(old(self)@, slot_no as nat, final(self)@, r),
    {
        if self.slots.is_none() {
            return Err(ParkError::NotAllocated);
        }
        let mut v = self.slots.take().unwrap();
        let n = v.len();
        if slot_no < 1 || slot_no > n {
            self.slots = Some(v);
            return Err(ParkError::InvalidSlotNumber(n));
        }
        let ghost s = slots_view(v@);
        proof {
            lemma_slots_view_update(v@, slot_no - 1, Slot::Empty);
        }
        v[slot_no - 1] = Slot::Empty;
        self.slots = Some(v);
        let mut lines: Vec<String> = Vec::new();
        lines.push(free_line(slot_no));
        proof {
            assert(slots_view(v@) =~= s.update(slot_no - 1, None::<CarV>));
            assert(lines_view(lines@) =~= seq![free_msg(slot_no as nat)]);
        }
        Ok(lines)
    }

    /// Reports the header line and one line per occupied slot, in ascending
    /// slot order.
    pub fn status(&self) -> (r: MyResult)
        ensures
            status_step(self@, r),
    {
        match &self.slots {
            None => Err(ParkError::NotAllocated),
            Some(v) => {
                let ghost s = slots_view(v@);
                let mut lines: Vec<String> = Vec::new();
                lines.push(header_line());
                proof {
                    assert(lines_view(lines@) =~= seq![header_msg()] + status_lines(s, 0));
                }
                let n = v.len();
                let mut i: usize = 0;
                while i < n
                    invariant
                        0 <= i <= n,
                        n == s.len(),
                        s == slots_view(v@),
                        lines_view(lines@) == seq![header_msg()] + status_lines(s, i as int),
                    decreases n - i,
                {
                    proof {
                        assert(s[i as int] == v@[i as int]@);
                    }
                    let ghost prev = lines@;
                    match &v[i] {
                        Slot::Occupied(car) => {
                            let line = status_line(i + 1, car.reg_num.as_str(), car.color.as_str());
                            proof {
                                lemma_lines_view_push(prev, line);
                            }
                            lines.push(line);
                        },
                        Slot::Empty => {},
                    }
                    i = i + 1;
                    proof {
                        assert(lines_view(lines@) =~= seq![header_msg()] + status_lines(
                            s,
                            i as int,
                        ));
                    }
                }
                Ok(lines)
            },
        }
    }

    /// Answers a lookup: all its lines in ascending slot order, or `NotFound`
    /// when no slot matches.
    pub fn query(&self, q: &Query) -> (r: MyResult)
        ensures
            query_step(self@, q@, r),
    {
        match &self.slots {
            None => Err(ParkError::NotAllocated),
            Some(v) => {
                let ghost s = slots_view(v@);
                let mut lines: Vec<String> = Vec::new();
                let n = v.len();
                let mut i: usize = 0;
                while i < n
                    invariant
                        0 <= i <= n,
                        n == s.len(),
                        s == slots_view(v@),
                        lines_view(lines@) == query_lines(q@, s, i as int),
                    decreases n - i,
                {
                    proof {
                        assert(s[i as int] == v@[i as int]@);
                    }
                    let ghost prev = lines@;
                    match &v[i] {
                        Slot::Occupied(car) => {
                            match apply_query(q, i + 1, car) {
                                Some(line) => {
                                    proof {
                                        lemma_lines_view_push(prev, line);
                                    }
                                    lines.push(line);
                                },
                                None => {},
                            }
                        },
                        Slot::Empty => {},
                    }
                    i = i + 1;
                    proof {
                        assert(lines_view(lines@) =~= query_lines(q@, s, i as int));
                    }
                }
                if lines.len() == 0 {
                    proof {
                        assert(lines_view(lines@).len() == 0);
                    }
                    Err(ParkError::NotFound)
                } else {
                    proof {
                        assert(lines_view(lines@).len() > 0);
                    }
                    Ok(lines)
                }
            },
        }
    }
}

} // verus!
