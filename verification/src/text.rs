//! How spans of time are written out for people.

use vstd::prelude::*;
use vstd::string::StringExecFns;
use crate::time::{Duration, NANOS_PER_SEC};

verus! {

/// The character of the decimal digit `d`.
pub open spec fn digit_char(d: nat) -> char {
    if d == 0 {
        '0'
    } else if d == 1 {
        '1'
    } else if d == 2 {
        '2'
    } else if d == 3 {
        '3'
    } else if d == 4 {
        '4'
    } else if d == 5 {
        '5'
    } else if d == 6 {
        '6'
    } else if d == 7 {
        '7'
    } else if d == 8 {
        '8'
    } else {
        '9'
    }
}

/// The decimal digits of `n`, most significant first, without leading zeros.
pub open spec fn decimal(n: nat) -> Seq<char>
    decreases n,
{
    if n < 10 {
        seq![digit_char(n)]
    } else {
        decimal(n / 10).push(digit_char(n % 10))
    }
}

/// A span of `secs` whole seconds as hours, minutes and seconds, such as
/// `1h 2m 3s`. The hours are left out where there are none, and the
/// minutes where the span is under a minute; a span of no seconds is `0s`.
pub open spec fn duration_text(secs: nat) -> Seq<char> {
    let minutes = secs / 60;
    let hours = minutes / 60;
    let h_text = if hours == 0 {
        Seq::<char>::empty()
    } else {
        decimal(hours) + seq!['h', ' ']
    };
    let m_text = if minutes == 0 {
        Seq::<char>::empty()
    } else {
        decimal((minutes - 60 * hours) as nat) + seq!['m', ' ']
    };
    let s_text = decimal((secs - 60 * minutes) as nat) + seq!['s'];
    h_text + m_text + s_text
}

/// The decimal digit `d` as text.
fn digit_str(d: u64) -> (s: &'static str)
    requires
        d < 10,
    ensures
        s@ == seq![digit_char(d as nat)],
{
    proof {
        reveal_strlit("0");
        reveal_strlit("1");
        reveal_strlit("2");
        reveal_strlit("3");
        reveal_strlit("4");
        reveal_strlit("5");
        reveal_strlit("6");
        reveal_strlit("7");
        reveal_strlit("8");
        reveal_strlit("9");
    }
    let s = match d {
        0 => "0",
        1 => "1",
        2 => "2",
        3 => "3",
        4 => "4",
        5 => "5",
        6 => "6",
        7 => "7",
        8 => "8",
        _ => "9",
    };
    assert(s@ =~= seq![digit_char(d as nat)]);
    s
}

/// Writes the decimal digits of `n` to the end of `out`.
fn push_decimal(out: &mut String, n: u64)
    ensures
        final(out)@ == old(out)@ + decimal(n as nat),
    decreases n,
{
    if n >= 10 {
        push_decimal(out, n / 10);
    }
    out.append(digit_str(n % 10));
    assert(out@ =~= old(out)@ + decimal(n as nat));
}

/// Writes out the whole seconds of `dur` as hours, minutes and seconds.
pub fn format_duration(dur: Duration) -> (text: String)
    ensures
        text@ == duration_text(dur@ / (NANOS_PER_SEC as nat)),
{
    proof {
        reveal_strlit("h ");
        reveal_strlit("m ");
        reveal_strlit("s");
    }
    let s = dur.as_secs();
    let m = s / 60;
    let h = m / 60;
    let mut text = String::new();
    if h != 0 {
        push_decimal(&mut text, h);
        text.append("h ");
    }
    if m != 0 {
        push_decimal(&mut text, m - 60 * h);
        text.append("m ");
    }
    push_decimal(&mut text, s - 60 * m);
    text.append("s");
    assert(text@ =~= duration_text(dur@ / (NANOS_PER_SEC as nat)));
    text
}

} // verus!
