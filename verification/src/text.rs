//! Text of log lines: concatenation, decimal numbers and the time stamp prefix.

use crate::outside::clock_time;
use vstd::prelude::*;
use vstd::string::*;

verus! {

/// The decimal digit for `d`, for `0 <= d <= 9`.
pub open spec fn digit(d: int) -> char {
    if d == 0 {
        '0'
    } else if d == 1 {
        '1'
    } else if d == 2 {
        '2'
    } else if d == 3 {
        '3'
    } else if d == 4 {
        '4'
    } else if d == 5 {
        '5'
    } else if d == 6 {
        '6'
    } else if d == 7 {
        '7'
    } else if d == 8 {
        '8'
    } else {
        '9'
    }
}

/// The decimal numeral of `n`, without sign or leading zeros.
pub open spec fn decimal(n: nat) -> Seq<char>
    decreases n,
{
    if n < 10 {
        seq![digit(n as int)]
    } else {
        decimal(n / 10).push(digit((n % 10) as int))
    }
}

/// A number in at least two decimal digits.
pub open spec fn two_digits(n: nat) -> Seq<char> {
    if n < 10 {
        seq!['0'] + decimal(n)
    } else {
        decimal(n)
    }
}

/// The time of day as the log shows it: hour, minute and second, each in
/// two digits, with colons between.
pub open spec fn time_of_day(hour: nat, minute: nat, second: nat) -> Seq<char> {
    two_digits(hour) + seq![':'] + two_digits(minute) + seq![':'] + two_digits(second)
}

/// Whether `stamp` shows a time of day: an hour up to 23, a minute up to 59
/// and a second up to 60, which a leap second reaches.
pub open spec fn is_time_of_day(stamp: Seq<char>) -> bool {
    exists|hour: nat, minute: nat, second: nat|
        hour <= 23 && minute <= 59 && second <= 60 && stamp == #[trigger] time_of_day(
            hour,
            minute,
            second,
        )
}

/// A line as the log holds it: the time stamp in square brackets, a space,
/// and the message.
pub open spec fn stamped(stamp: Seq<char>, msg: Seq<char>) -> Seq<char> {
    seq!['['] + stamp + seq![']', ' '] + msg
}

/// A message as a worker writes it: the account identifier in square
/// brackets, a space, and the message.
pub open spec fn tagged(uuid: Seq<char>, msg: Seq<char>) -> Seq<char> {
    seq!['['] + uuid + seq![']', ' '] + msg
}

fn digit_str(d: u64) -> (r: &'static str)
    requires
        d < 10,
    ensures
        r@ == seq![digit(d as int)],
{
    proof {
        reveal_strlit("0");
        reveal_strlit("1");
        reveal_strlit("2");
        reveal_strlit("3");
        reveal_strlit("4");
        reveal_strlit("5");
        reveal_strlit("6");
        reveal_strlit("7");
        reveal_strlit("8");
        reveal_strlit("9");
    }
    let r = if d == 0 {
        "0"
    } else if d == 1 {
        "1"
    } else if d == 2 {
        "2"
    } else if d == 3 {
        "3"
    } else if d == 4 {
        "4"
    } else if d == 5 {
        "5"
    } else if d == 6 {
        "6"
    } else if d == 7 {
        "7"
    } else if d == 8 {
        "8"
    } else {
        "9"
    };
    assert(r@ =~= seq![digit(d as int)]);
    r
}

/// Appends the decimal numeral of `n` to `out`.
pub fn push_decimal(out: &mut String, n: u64)
    ensures
        final(out)@ == old(out)@ + decimal(n as nat),
    decreases n,
{
    if n >= 10 {
        push_decimal(out, n / 10);
    }
    out.append(digit_str(n % 10));
    assert(out@ =~= old(out)@ + decimal(n as nat));
}

/// The current time of day, as hours, minutes and seconds.
pub(crate) fn time_stamp() -> (stamp: String)
    ensures
        is_time_of_day(stamp@),
{
    clock_time("%H:%M:%S")
}

/// The text `a` followed by `b`.
pub fn join_texts(a: &str, b: &str) -> (r: String)
    ensures
        r@ == a@ + b@,
{
    let mut r = String::from_str(a);
    r.append(b);
    r
}

/// Puts `label` in square brackets before `msg`, with a space between.
pub fn bracketed(label: &str, msg: &str) -> (r: String)
    ensures
        r@ == stamped(label@, msg@),
        r@ == tagged(label@, msg@),
{
    let mut line = String::from_str("[");
    line.append(label);
    line.append("] ");
    line.append(msg);
    proof {
        reveal_strlit("[");
        reveal_strlit("] ");
        assert("["@ =~= seq!['[']);
        assert("] "@ =~= seq![']', ' ']);
        assert(line@ =~= stamped(label@, msg@));
    }
    line
}

/// Whether two texts hold the same characters.
pub fn same_text(a: &str, b: &str) -> (same: bool)
    ensures
        same == (a@ == b@),
{
    let x = a.as_bytes();
    let y = b.as_bytes();
    proof {
        vstd::utf8::encode_utf8_decode_utf8(a@);
        vstd::utf8::encode_utf8_decode_utf8(b@);
    }
    if x.len() != y.len() {
        return false;
    }
    let mut i: usize = 0;
    while i < x.len()
        invariant
            i <= x.len(),
            x.len() == y.len(),
            x@ == vstd::utf8::encode_utf8(a@),
            y@ == vstd::utf8::encode_utf8(b@),
            forall|j: int| 0 <= j < i ==> x@[j] == y@[j],
        decreases x.len() - i,
    {
        if x[i] != y[i] {
            assert(x@ != y@);
            return false;
        }
        i += 1;
    }
    assert(x@ =~= y@);
    true
}

} // verus!
