//! Decimal rendering and parsing of slot counts, and the exact text of every
//! line the lot can answer with.

use vstd::prelude::*;
use vstd::string::StringExecFns;

verus! {

/// The character for one decimal digit.
pub open spec fn digit_char(d: nat) -> char {
    if d == 0 {
        '0'
    } else if d == 1 {
        '1'
    } else if d == 2 {
        '2'
    } else if d == 3 {
        '3'
    } else if d == 4 {
        '4'
    } else if d == 5 {
        '5'
    } else if d == 6 {
        '6'
    } else if d == 7 {
        '7'
    } else if d == 8 {
        '8'
    } else {
        '9'
    }
}

/// The decimal representation of `n`, without leading zeroes (except for 0 itself).
pub open spec fn dec_rep(n: nat) -> Seq<char>
    decreases n,
{
    if n < 10 {
        seq![digit_char(n)]
    } else {
        dec_rep(n / 10) + seq![digit_char(n % 10)]
    }
}

fn digit_str(d: usize) -> (r: &'static str)
    requires
        d < 10,
    ensures
        r@ == seq![digit_char(d as nat)],
{
    proof {
        reveal_strlit("0");
        reveal_strlit("1");
        reveal_strlit("2");
        reveal_strlit("3");
        reveal_strlit("4");
        reveal_strlit("5");
        reveal_strlit("6");
        reveal_strlit("7");
        reveal_strlit("8");
        reveal_strlit("9");
    }
    let r: &'static str = if d == 0 {
        "0"
    } else if d == 1 {
        "1"
    } else if d == 2 {
        "2"
    } else if d == 3 {
        "3"
    } else if d == 4 {
        "4"
    } else if d == 5 {
        "5"
    } else if d == 6 {
        "6"
    } else if d == 7 {
        "7"
    } else if d == 8 {
        "8"
    } else {
        "9"
    };
    proof {
        assert(r@ =~= seq![digit_char(d as nat)]);
    }
    r
}

/// Renders `n` in decimal.
pub fn usize_to_string(n: usize) -> (r: String)
    ensures
        r@ == dec_rep(n as nat),
    decreases n,
{
    if n < 10 {
        let r = digit_str(n).to_owned();
        proof {
            assert(r@ =~= dec_rep(n as nat));
        }
        r
    } else {
        let mut s = usize_to_string(n / 10);
        s.append(digit_str(n % 10));
        proof {
            assert(s@ =~= dec_rep(n as nat));
        }
        s
    }
}

/// Whether `c` is a decimal digit.
pub open spec fn is_digit(c: char) -> bool {
    c == '0' || c == '1' || c == '2' || c == '3' || c == '4' || c == '5' || c == '6' || c == '7'
        || c == '8' || c == '9'
}

/// The value of one decimal digit character.
pub open spec fn digit_val(c: char) -> nat {
    if c == '0' {
        0
    } else if c == '1' {
        1
    } else if c == '2' {
        2
    } else if c == '3' {
        3
    } else if c == '4' {
        4
    } else if c == '5' {
        5
    } else if c == '6' {
        6
    } else if c == '7' {
        7
    } else if c == '8' {
        8
    } else {
        9
    }
}

/// Whether every character of `s` is a decimal digit.
pub open spec fn all_digits(s: Seq<char>) -> bool {
    forall|i: int| 0 <= i < s.len() ==> is_digit(#[trigger] s[i])
}

/// The numeric value of a sequence of decimal digits.
pub open spec fn dec_val(s: Seq<char>) -> nat
    decreases s.len(),
{
    if s.len() == 0 {
        0
    } else {
        dec_val(s.drop_last()) * 10 + digit_val(s.last())
    }
}

/// A digit prefix never exceeds the value of the whole digit string.
proof fn lemma_dec_val_take_le(s: Seq<char>, j: int)
    requires
        0 <= j <= s.len(),
    ensures
        dec_val(s.take(j)) <= dec_val(s),
    decreases s.len() - j,
{
    if j == s.len() {
        assert(s.take(j) =~= s);
    } else {
        assert(s.take(j + 1).drop_last() =~= s.take(j));
        assert(dec_val(s.take(j + 1)) == dec_val(s.take(j)) * 10 + digit_val(s.take(j + 1).last()));
        lemma_dec_val_take_le(s, j + 1);
    }
}

fn digit_of(c: char) -> (r: Option<usize>)
    ensures
        r is Some <==> is_digit(c),
        r is Some ==> r->Some_0 as nat == digit_val(c) && r->Some_0 < 10,
{
    if c == '0' {
        Some(0)
    } else if c == '1' {
        Some(1)
    } else if c == '2' {
        Some(2)
    } else if c == '3' {
        Some(3)
    } else if c == '4' {
        Some(4)
    } else if c == '5' {
        Some(5)
    } else if c == '6' {
        Some(6)
    } else if c == '7' {
        Some(7)
    } else if c == '8' {
        Some(8)
    } else if c == '9' {
        Some(9)
    } else {
        None
    }
}

/// Whether `s` is a well-formed decimal number that fits in `usize`.
pub open spec fn is_usize_number(s: Seq<char>) -> bool {
    s.len() > 0 && all_digits(s) && dec_val(s) <= usize::MAX
}

/// Parses a non-negative decimal integer, rejecting empty input, non-digit
/// characters, and values that do not fit in `usize`.
pub fn parse_usize(s: &str) -> (r: Option<usize>)
    ensures
        r is Some <==> is_usize_number(s@),
        r is Some ==> r->Some_0 as nat == dec_val(s@),
{
    let n = s.unicode_len();
    if n == 0 {
        return None;
    }
    let mut i: usize = 0;
    let mut acc: usize = 0;
    while i < n
        invariant
            0 <= i <= n,
            n == s@.len(),
            all_digits(s@.take(i as int)),
            acc as nat == dec_val(s@.take(i as int)),
        decreases n - i,
    {
        let c = s.get_char(i);
        let d = match digit_of(c) {
            Some(d) => d,
            None => {
                proof {
                    assert(!is_digit(s@[i as int]));
                }
                return None;
            },
        };
        if acc > (usize::MAX - d) / 10 {
            proof {
                assert(s@.take(i + 1).drop_last() =~= s@.take(i as int));
                assert(s@.take(i + 1).last() == s@[i as int]);
                assert(dec_val(s@.take(i + 1)) == acc as nat * 10 + d as nat);
                assert(acc as nat * 10 + d as nat > usize::MAX) by (nonlinear_arith)
                    requires
                        acc > (usize::MAX - d) / 10,
                        d < 10,
                ;
                lemma_dec_val_take_le(s@, i + 1);
            }
            return None;
        }
        proof {
            assert(acc * 10 + d <= usize::MAX) by (nonlinear_arith)
                requires
                    acc <= (usize::MAX - d) / 10,
                    d < 10,
            ;
            assert(s@.take(i + 1).drop_last() =~= s@.take(i as int));
        }
        acc = acc * 10 + d;
        i = i + 1;
    }
    proof {
        assert(s@.take(n as int) =~= s@);
    }
    Some(acc)
}

/// Text answered by a successful allocation of `n` slots.
pub open spec fn created_msg(n: nat) -> Seq<char> {
    "Created a parking lot with "@ + dec_rep(n) + " slots"@
}

/// Text answered by a successful park into 1-based slot `i`.
pub open spec fn allocated_msg(i: nat) -> Seq<char> {
    "Allocated slot number: "@ + dec_rep(i)
}

/// Text answered by a successful leave of 1-based slot `k`.
pub open spec fn free_msg(k: nat) -> Seq<char> {
    "Slot number "@ + dec_rep(k) + " is free"@
}

/// The header line of a status report.
pub open spec fn header_msg() -> Seq<char> {
    "Slot No.   Registration No  Colour"@
}

/// One status line: 1-based slot index, registration, color.
pub open spec fn status_line_msg(i: nat, reg: Seq<char>, color: Seq<char>) -> Seq<char> {
    dec_rep(i) + "     "@ + reg + "  "@ + color
}

/// Builds the allocation answer for capacity `n`.
pub fn created_line(n: usize) -> (r: String)
    ensures
        r@ == created_msg(n as nat),
{
    let mut s = String::new();
    s.append("Created a parking lot with ");
    let num = usize_to_string(n);
    s.append(num.as_str());
    s.append(" slots");
    proof {
        assert(s@ =~= created_msg(n as nat));
    }
    s
}

/// Builds the park answer for 1-based slot `i`.
pub fn allocated_line(i: usize) -> (r: String)
    ensures
        r@ == allocated_msg(i as nat),
{
    let mut s = String::new();
    s.append("Allocated slot number: ");
    let num = usize_to_string(i);
    s.append(num.as_str());
    proof {
        assert(s@ =~= allocated_msg(i as nat));
    }
    s
}

/// Builds the leave answer for 1-based slot `k`.
pub fn free_line(k: usize) -> (r: String)
    ensures
        r@ == free_msg(k as nat),
{
    let mut s = String::new();
    s.append("Slot number ");
    let num = usize_to_string(k);
    s.append(num.as_str());
    s.append(" is free");
    proof {
        assert(s@ =~= free_msg(k as nat));
    }
    s
}

/// Builds the status header line.
pub fn header_line() -> (r: String)
    ensures
        r@ == header_msg(),
{
    let s = String::new();
    let r = s.concat("Slot No.   Registration No  Colour");
    proof {
        assert(r@ =~= header_msg());
    }
    r
}

/// Builds one status line from a 1-based slot index and a vehicle's fields.
pub fn status_line(i: usize, reg: &str, color: &str) -> (r: String)
    ensures
        r@ == status_line_msg(i as nat, reg@, color@),
{
    let mut s = usize_to_string(i);
    s.append("     ");
    s.append(reg);
    s.append("  ");
    s.append(color);
    proof {
        assert(s@ =~= status_line_msg(i as nat, reg@, color@));
    }
    s
}

} // verus!
