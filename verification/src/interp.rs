//! The command interpreter: splits a line into whitespace-separated tokens,
//! maps it to one typed action, dispatches it to the state store, and renders
//! the answer.

use vstd::prelude::*;
use vstd::string::{StrSliceExecFns, StringExecFns};
use crate::error::ParkError;
use crate::lot::{
    alloc_step, leave_step, lemma_lines_view_push, lines_view, park_step, query_step, status_step,
    LotV, MyResult, ParkLotIntern, Query, QueryV,
};
use crate::messages::{dec_val, is_usize_number, parse_usize};

verus! {

/// Whether `c` is one of the ASCII whitespace characters that separate tokens.
pub open spec fn is_ascii_space(c: char) -> bool {
    c == ' ' || c == '\t' || c == '\n' || c == '\r' || c == '\u{c}'
}

fn ascii_space(c: char) -> (r: bool)
    ensures
        r == is_ascii_space(c),
{
    c == ' ' || c == '\t' || c == '\n' || c == '\r' || c == '\u{c}'
}

/// The length of the leading run of non-whitespace characters.
pub open spec fn token_len(s: Seq<char>) -> int
    decreases s.len(),
{
    if s.len() == 0 {
        0
    } else if is_ascii_space(s[0]) {
        0
    } else {
        1 + token_len(s.drop_first())
    }
}

proof fn lemma_token_len(s: Seq<char>)
    ensures
        0 <= token_len(s) <= s.len(),
        token_len(s) < s.len() ==> is_ascii_space(s[token_len(s)]),
        forall|j: int| 0 <= j < token_len(s) ==> !is_ascii_space(s[j]),
    decreases s.len(),
{
    if s.len() == 0 {
    } else if is_ascii_space(s[0]) {
    } else {
        lemma_token_len(s.drop_first());
        assert forall|j: int| 0 <= j < token_len(s) implies !is_ascii_space(s[j]) by {
            if j > 0 {
                assert(s.drop_first()[j - 1] == s[j]);
            }
        }
        if token_len(s) < s.len() {
            assert(s.drop_first()[token_len(s) - 1] == s[token_len(s)]);
        }
    }
}

proof fn lemma_token_len_is(u: Seq<char>, m: int)
    requires
        0 <= m <= u.len(),
        forall|k: int| 0 <= k < m ==> !is_ascii_space(u[k]),
        m == u.len() || is_ascii_space(u[m]),
    ensures
        token_len(u) == m,
    decreases m,
{
    if m == 0 {
    } else {
        assert(!is_ascii_space(u[0]));
        lemma_token_len_is(u.drop_first(), m - 1);
    }
}

/// The whitespace-separated tokens of a line, in order.
pub open spec fn tokens_of(s: Seq<char>) -> Seq<Seq<char>>
    decreases s.len(),
    via tokens_of_decreases
{
    if s.len() == 0 {
        seq![]
    } else if is_ascii_space(s[0]) {
        tokens_of(s.drop_first())
    } else {
        seq![s.take(token_len(s))] + tokens_of(s.skip(token_len(s)))
    }
}

#[via_fn]
proof fn tokens_of_decreases(s: Seq<char>) {
    lemma_token_len(s);
}

/// Splits a line into its whitespace-separated tokens.
pub fn tokenize(s: &str) -> (r: Vec<String>)
    ensures
        lines_view(r@) == tokens_of(s@),
{
    let n = s.unicode_len();
    let mut toks: Vec<String> = Vec::new();
    let mut i: usize = 0;
    proof {
        assert(s@.skip(0) =~= s@);
        assert(lines_view(toks@) + tokens_of(s@) =~= tokens_of(s@));
    }
    while i < n
        invariant
            0 <= i <= n,
            n == s@.len(),
            lines_view(toks@) + tokens_of(s@.skip(i as int)) == tokens_of(s@),
        decreases n - i,
    {
        let c = s.get_char(i);
        if ascii_space(c) {
            proof {
                assert(s@.skip(i as int)[0] == s@[i as int]);
                assert(s@.skip(i as int).drop_first() =~= s@.skip(i + 1));
            }
            i = i + 1;
        } else {
            let mut j: usize = i + 1;
            while j < n && !ascii_space(s.get_char(j))
                invariant
                    i < j <= n,
                    n == s@.len(),
                    forall|k: int| i <= k < j ==> !is_ascii_space(s@[k]),
                decreases n - j,
            {
                j = j + 1;
            }
            proof {
                let u = s@.skip(i as int);
                assert forall|k: int| 0 <= k < j - i implies !is_ascii_space(u[k]) by {
                    assert(u[k] == s@[i + k]);
                }
                if (j as int) - (i as int) < u.len() {
                    assert(u[j - i] == s@[j as int]);
                }
                lemma_token_len_is(u, j - i);
                assert(u.take(j - i) =~= s@.subrange(i as int, j as int));
                assert(u.skip(j - i) =~= s@.skip(j as int));
                assert(u[0] == s@[i as int]);
                assert(tokens_of(u) == seq![s@.subrange(i as int, j as int)] + tokens_of(
                    s@.skip(j as int),
                ));
            }
            let tok = s.substring_char(i, j).to_owned();
            let ghost prev = toks@;
            proof {
                lemma_lines_view_push(prev, tok);
            }
            toks.push(tok);
            proof {
                assert(lines_view(toks@) + tokens_of(s@.skip(j as int)) =~= tokens_of(s@));
            }
            i = j;
        }
    }
    proof {
        assert(s@.skip(n as int) =~= Seq::<char>::empty());
        assert(lines_view(toks@) =~= lines_view(toks@) + tokens_of(s@.skip(n as int)));
    }
    toks
}

/// A parsed command: one typed request on the lot.
pub enum Action {
    Create(usize),
    Park(String, String),
    Leave(usize),
    Status,
    SlotNumbersForColor(String),
    SlotNumbersForRegNo(String),
    RegNumbersForColor(String),
}

/// The view of a parsed command.
pub enum ActionV {
    Create(nat),
    Park(Seq<char>, Seq<char>),
    Leave(nat),
    Status,
    SlotNumbersForColor(Seq<char>),
    SlotNumbersForRegNo(Seq<char>),
    RegNumbersForColor(Seq<char>),
}

impl View for Action {
    type V = ActionV;

    open spec fn view(&self) -> ActionV {
        match self {
            Action::Create(n) => ActionV::Create(*n as nat),
            Action::Park(reg, color) => ActionV::Park(reg@, color@),
            Action::Leave(k) => ActionV::Leave(*k as nat),
            Action::Status => ActionV::Status,
            Action::SlotNumbersForColor(c) => ActionV::SlotNumbersForColor(c@),
            Action::SlotNumbersForRegNo(c) => ActionV::SlotNumbersForRegNo(c@),
            Action::RegNumbersForColor(c) => ActionV::RegNumbersForColor(c@),
        }
    }
}

/// The action a command line denotes, if it matches the grammar: a keyword
/// token followed by the right number of arguments, numbers in decimal.
pub open spec fn parse_action(line: Seq<char>) -> Option<ActionV> {
    let toks = tokens_of(line);
    if toks.len() == 2 && toks[0] == "create_parking_lot"@ {
        if is_usize_number(toks[1]) {
            Some(ActionV::Create(dec_val(toks[1])))
        } else {
            None
        }
    } else if toks.len() == 3 && toks[0] == "park"@ {
        Some(ActionV::Park(toks[1], toks[2]))
    } else if toks.len() == 2 && toks[0] == "leave"@ {
        if is_usize_number(toks[1]) {
            Some(ActionV::Leave(dec_val(toks[1])))
        } else {
            None
        }
    } else if toks.len() == 1 && toks[0] == "status"@ {
        Some(ActionV::Status)
    } else if toks.len() == 2 && toks[0] == "registration_numbers_for_cars_with_colour"@ {
        Some(ActionV::RegNumbersForColor(toks[1]))
    } else if toks.len() == 2 && toks[0] == "slot_numbers_for_cars_with_colour"@ {
        Some(ActionV::SlotNumbersForColor(toks[1]))
    } else if toks.len() == 2 && toks[0] == "slot_number_for_registration_number"@ {
        Some(ActionV::SlotNumbersForRegNo(toks[1]))
    } else {
        None
    }
}

/// What one action does to the lot and answers.
pub open spec fn step(st: LotV, a: ActionV, st2: LotV, r: MyResult) -> bool {
    match a {
        ActionV::Create(n) => alloc_step(st, n, st2, r),
        ActionV::Park(reg, color) => park_step(st, reg, color, st2, r),
        ActionV::Leave(k) => leave_step(st, k, st2, r),
        ActionV::Status => st2 == st && status_step(st, r),
        ActionV::RegNumbersForColor(c) => st2 == st && query_step(
            st,
            QueryV::RegNumbersForColor(c),
            r,
        ),
        ActionV::SlotNumbersForColor(c) => st2 == st && query_step(
            st,
            QueryV::SlotNumbersForColor(c),
            r,
        ),
        ActionV::SlotNumbersForRegNo(c) => st2 == st && query_step(
            st,
            QueryV::SlotNumbersForRegNo(c),
            r,
        ),
    }
}

fn str_eq(a: &str, b: &str) -> (r: bool)
    ensures
        r == (a@ == b@),
{
    let sa = a.to_owned();
    let sb = b.to_owned();
    sa == sb
}

/// The lines of an answer joined by newlines.
pub open spec fn join_msg(lines: Seq<Seq<char>>) -> Seq<char>
    decreases lines.len(),
{
    if lines.len() == 0 {
        Seq::empty()
    } else if lines.len() == 1 {
        lines[0]
    } else {
        join_msg(lines.drop_last()) + seq!['\n'] + lines.last()
    }
}

/// Renders an answer: its lines joined by newlines on success, the error's
/// report text on failure.
pub fn stringify(to_print: MyResult) -> (r: String)
    ensures
        to_print is Ok ==> r@ == join_msg(lines_view(to_print->Ok_0@)),
        to_print is Err ==> r@ == to_print->Err_0.message_spec(),
{
    match to_print {
        Ok(items) => {
            let mut s = String::new();
            let n = items.len();
            let mut i: usize = 0;
            while i < n
                invariant
                    0 <= i <= n,
                    n == items@.len(),
                    s@ == join_msg(lines_view(items@).take(i as int)),
                decreases n - i,
            {
                if i > 0 {
                    s.append("\n");
                }
                s.append(items[i].as_str());
                i = i + 1;
                proof {
                    reveal_strlit("\n");
                    assert("\n"@ =~= seq!['\n']);
                    let lv = lines_view(items@);
                    assert(lv.take(i as int).drop_last() =~= lv.take(i as int - 1));
                    assert(lv.take(i as int).last() == items@[i as int - 1]@);
                    assert(s@ =~= join_msg(lv.take(i as int)));
                }
            }
            proof {
                assert(lines_view(items@).take(n as int) =~= lines_view(items@));
            }
            s
        },
        Err(err) => err.message(),
    }
}

/// A parking lot driven by text commands.
pub struct ParkingLot {
    internal: ParkLotIntern,
}

impl View for ParkingLot {
    type V = LotV;

    closed spec fn view(&self) -> LotV {
        self.internal@
    }
}

impl ParkingLot {
    /// A lot with nothing allocated yet.
    pub fn new() -> (r: Self)
        ensures
            r@ is None,
    {
        ParkingLot { internal: ParkLotIntern::new() }
    }

    /// Performs one typed action on the lot.
    pub fn process(&mut self, action: Action) -> (r: MyResult)
        ensures
            step(old(self)@, action@, final(self)@, r),
    {
        match action {
            Action::Create(capacity) => self.internal.allocate(capacity),
            Action::Park(reg_num, color) => self.internal.park(reg_num.as_str(), color.as_str()),
            Action::Leave(slot_no) => self.internal.leave(slot_no),
            Action::Status => self.internal.status(),
            Action::RegNumbersForColor(color) => self.internal.query(
                &Query::RegNumbersForColor(color),
            ),
            Action::SlotNumbersForColor(color) => self.internal.query(
                &Query::SlotNumbersForColor(color),
            ),
            Action::SlotNumbersForRegNo(reg) => self.internal.query(
                &Query::SlotNumbersForRegNo(reg),
            ),
        }
    }

    /// Receives a command as a string, parses it, and executes it: the line's
    /// action is performed, and a line matching no grammar rule answers a
    /// parse error echoing the line.
    pub fn repl(&mut self, command: &str) -> (r: MyResult)
        ensures
            parse_action(command@) is None ==> final(self)@ == old(self)@ && r is Err
                && r->Err_0 is ParseError && r->Err_0->ParseError_0@ == command@,
            parse_action(command@) is Some ==> step(
                old(self)@,
                parse_action(command@)->Some_0,
                final(self)@,
                r,
            ),
    {
        let toks = tokenize(command);
        let nt = toks.len();
        proof {
            assert(lines_view(toks@).len() == toks@.len());
        }
        if nt == 2 && str_eq(toks[0].as_str(), "create_parking_lot") {
            proof {
                assert(lines_view(toks@)[0] == toks@[0]@);
                assert(lines_view(toks@)[1] == toks@[1]@);
            }
            match parse_usize(toks[1].as_str()) {
                Some(nv) => self.process(Action::Create(nv)),
                None => Err(ParkError::ParseError(command.to_owned())),
            }
        } else if nt == 3 && str_eq(toks[0].as_str(), "park") {
            proof {
                assert(lines_view(toks@)[0] == toks@[0]@);
                assert(lines_view(toks@)[1] == toks@[1]@);
                assert(lines_view(toks@)[2] == toks@[2]@);
            }
            let reg = toks[1].clone();
            let color = toks[2].clone();
            self.process(Action::Park(reg, color))
        } else if nt == 2 && str_eq(toks[0].as_str(), "leave") {
            proof {
                assert(lines_view(toks@)[0] == toks@[0]@);
                assert(lines_view(toks@)[1] == toks@[1]@);
            }
            match parse_usize(toks[1].as_str()) {
                Some(kv) => self.process(Action::Leave(kv)),
                None => Err(ParkError::ParseError(command.to_owned())),
            }
        } else if nt == 1 && str_eq(toks[0].as_str(), "status") {
            proof {
                assert(lines_view(toks@)[0] == toks@[0]@);
            }
            self.process(Action::Status)
        } else if nt == 2 && str_eq(toks[0].as_str(), "registration_numbers_for_cars_with_colour") {
            proof {
                assert(lines_view(toks@)[0] == toks@[0]@);
                assert(lines_view(toks@)[1] == toks@[1]@);
            }
            let color = toks[1].clone();
            self.process(Action::RegNumbersForColor(color))
        } else if nt == 2 && str_eq(toks[0].as_str(), "slot_numbers_for_cars_with_colour") {
            proof {
                assert(lines_view(toks@)[0] == toks@[0]@);
                assert(lines_view(toks@)[1] == toks@[1]@);
            }
            let color = toks[1].clone();
            self.process(Action::SlotNumbersForColor(color))
        } else if nt == 2 && str_eq(toks[0].as_str(), "slot_number_for_registration_number") {
            proof {
                assert(lines_view(toks@)[0] == toks@[0]@);
                assert(lines_view(toks@)[1] == toks@[1]@);
            }
            let reg = toks[1].clone();
            self.process(Action::SlotNumbersForRegNo(reg))
        } else {
            proof {
                if lines_view(toks@).len() > 0 {
                    assert(lines_view(toks@)[0] == toks@[0]@);
                }
                if lines_view(toks@).len() > 1 {
                    assert(lines_view(toks@)[1] == toks@[1]@);
                }
                if lines_view(toks@).len() > 2 {
                    assert(lines_view(toks@)[2] == toks@[2]@);
                }
            }
            Err(ParkError::ParseError(command.to_owned()))
        }
    }
}

} // verus!
