//! Reading tasks from what a person types, such as `shower 15m`.
//!
//! A duration is written with the units `h`, `m` and `s`, each after its
//! number, as in `1h30m` or `5m30s`. Blanks inside it are skipped. A number
//! is a run of decimal digits, which one `+` may precede.

use vstd::prelude::*;
use vstd::string::StrSliceExecFns;
use crate::task::{CompletionStatus, Task, TaskView};
use crate::time::{MAX_SECS, NANOS_PER_SEC};

verus! {

/// The planned duration, in seconds, of a task that is typed without one.
pub const DEFAULT_DURATION_SECS: u64 = 5 * 60;

/// Why a text is no duration.
#[derive(Debug, Copy, Clone, PartialEq, Eq, Structural)]
pub enum ParseDurationError {
    /// A number is missing: before a unit, or because there is no unit.
    Empty,
    /// A number holds a character that is no digit.
    InvalidDigit,
    /// A number, or the duration as a whole, is too large.
    PosOverflow,
}

/// Whether `c` is a decimal digit.
pub open spec fn is_digit(c: char) -> bool {
    '0' <= c && c <= '9'
}

/// The value of the decimal digit `c`.
pub open spec fn digit_value(c: char) -> nat {
    (c as u32 - '0' as u32) as nat
}

/// The value of a run of digits, read from the left. The first character
/// that is no digit, or that takes the value past what 64 bits hold, ends
/// the reading with an error.
pub open spec fn read_digits(text: Seq<char>) -> Result<u64, ParseDurationError>
    decreases text.len(),
{
    if text.len() == 0 {
        Ok(0)
    } else {
        match read_digits(text.drop_last()) {
            Err(e) => Err(e),
            Ok(front) => if !is_digit(text.last()) {
                Err(ParseDurationError::InvalidDigit)
            } else if front * 10 + digit_value(text.last()) > u64::MAX {
                Err(ParseDurationError::PosOverflow)
            } else {
                Ok((front * 10 + digit_value(text.last())) as u64)
            },
        }
    }
}

/// The value of a number: digits, which one `+` may precede. No text at
/// all is `Empty`; a `+` alone is an invalid digit.
pub open spec fn read_number(text: Seq<char>) -> Result<u64, ParseDurationError> {
    if text.len() == 0 {
        Err(ParseDurationError::Empty)
    } else if text[0] == '+' {
        if text.len() == 1 {
            Err(ParseDurationError::InvalidDigit)
        } else {
            read_digits(text.skip(1))
        }
    } else {
        read_digits(text)
    }
}

/// What has been read of a duration so far.
pub struct Scan {
    pub hours: u64,
    pub minutes: u64,
    pub seconds: u64,
    /// Whether a unit has been read.
    pub seen_unit: bool,
    /// The characters read since the last unit, blanks left out.
    pub number: Seq<char>,
}

/// The scan after one more character. A unit takes the number before it,
/// and a later number for the same unit replaces an earlier one; a blank
/// is skipped; every other character joins the number being read.
pub open spec fn scan_step(scan: Scan, c: char) -> Result<Scan, ParseDurationError> {
    if c == 'h' || c == 'm' || c == 's' {
        match read_number(scan.number) {
            Err(e) => Err(e),
            Ok(n) => Ok(
                Scan {
                    hours: if c == 'h' {
                        n
                    } else {
                        scan.hours
                    },
                    minutes: if c == 'm' {
                        n
                    } else {
                        scan.minutes
                    },
                    seconds: if c == 's' {
                        n
                    } else {
                        scan.seconds
                    },
                    seen_unit: true,
                    number: Seq::empty(),
                },
            ),
        }
    } else if c == ' ' {
        Ok(scan)
    } else {
        Ok(Scan { number: scan.number.push(c), ..scan })
    }
}

/// The scan of a whole text, character by character from the left. The
/// first number that cannot be read ends it with that number's error.
pub open spec fn scan(text: Seq<char>) -> Result<Scan, ParseDurationError>
    decreases text.len(),
{
    if text.len() == 0 {
        Ok(Scan { hours: 0, minutes: 0, seconds: 0, seen_unit: false, number: Seq::empty() })
    } else {
        match scan(text.drop_last()) {
            Err(e) => Err(e),
            Ok(front) => scan_step(front, text.last()),
        }
    }
}

/// The number of seconds that `text` stands for as a duration.
///
/// Characters after the last unit are ignored. A text without any unit is
/// `Empty`; a sum beyond what 64 bits hold is `PosOverflow`.
pub open spec fn duration_secs(text: Seq<char>) -> Result<u64, ParseDurationError> {
    match scan(text) {
        Err(e) => Err(e),
        Ok(end) => if !end.seen_unit {
            Err(ParseDurationError::Empty)
        } else if end.hours * 3600 + end.minutes * 60 + end.seconds > u64::MAX {
            Err(ParseDurationError::PosOverflow)
        } else {
            Ok((end.hours * 3600 + end.minutes * 60 + end.seconds) as u64)
        },
    }
}

/// The position of the last blank in `text`, if it holds one.
pub open spec fn last_blank(text: Seq<char>) -> Option<int>
    decreases text.len(),
{
    if text.len() == 0 {
        None
    } else if text.last() == ' ' {
        Some(text.len() - 1)
    } else {
        last_blank(text.drop_last())
    }
}

/// The duration, in seconds, that ends `text` after its last blank, where
/// there is one that a task can hold.
pub open spec fn trailing_duration(text: Seq<char>) -> Option<u64> {
    match last_blank(text) {
        None => None,
        Some(k) => match duration_secs(text.subrange(k + 1, text.len() as int)) {
            Ok(secs) => if secs <= MAX_SECS {
                Some(secs)
            } else {
                None
            },
            Err(_) => None,
        },
    }
}

/// The name of the task that `text` describes: what stands before the
/// last blank where a duration follows it, and the whole text otherwise.
pub open spec fn new_task_name(text: Seq<char>) -> Seq<char> {
    if trailing_duration(text) is Some {
        text.subrange(0, last_blank(text).unwrap())
    } else {
        text
    }
}

/// The planned duration, in seconds, of the task that `text` describes:
/// the duration that ends the text, and the default where there is none.
pub open spec fn new_task_secs(text: Seq<char>) -> u64 {
    match trailing_duration(text) {
        Some(secs) => secs,
        None => DEFAULT_DURATION_SECS,
    }
}

/// The task that `text` describes: open, with nothing spent on it.
pub open spec fn new_task_view(text: Seq<char>) -> TaskView {
    TaskView {
        name: new_task_name(text),
        elapsed: 0,
        original_duration: new_task_secs(text) as nat * NANOS_PER_SEC as nat,
        duration: new_task_secs(text) as nat * NANOS_PER_SEC as nat,
        status: CompletionStatus::NotYet,
    }
}

/// Reads a number from the characters in `text`.
fn parse_number(text: &Vec<char>) -> (r: Result<u64, ParseDurationError>)
    ensures
        r == read_number(text@),
{
    if text.len() == 0 {
        return Err(ParseDurationError::Empty);
    }
    let start: usize = if text[0] == '+' {
        1
    } else {
        0
    };
    if start == text.len() {
        return Err(ParseDurationError::InvalidDigit);
    }
    let ghost digits = text@.skip(start as int);
    assert(read_number(text@) == read_digits(digits)) by {
        assert(text@.skip(0) =~= text@);
    }
    let mut value: u64 = 0;
    let mut k: usize = start;
    while k < text.len()
        invariant
            start <= k <= text.len(),
            digits == text@.skip(start as int),
            read_number(text@) == read_digits(digits),
            read_digits(digits.take(k - start)) == Ok::<u64, ParseDurationError>(value),
        decreases text.len() - k,
    {
        let c = text[k];
        proof {
            assert(digits.take(k - start + 1).drop_last() =~= digits.take(k - start));
            assert(digits.take(k - start + 1).last() == c);
            lemma_read_digits_error_stays(digits, k - start + 1);
        }
        if !(c >= '0' && c <= '9') {
            return Err(ParseDurationError::InvalidDigit);
        }
        let d = (c as u32 - '0' as u32) as u64;
        if value > (u64::MAX - d) / 10 {
            return Err(ParseDurationError::PosOverflow);
        }
        value = value * 10 + d;
        k += 1;
    }
    proof {
        assert(digits.take(k - start) =~= digits);
    }
    Ok(value)
}

/// Once reading a run of digits has failed on a prefix, the whole run fails
/// with the same error.
proof fn lemma_read_digits_error_stays(text: Seq<char>, k: int)
    requires
        0 <= k <= text.len(),
    ensures
        read_digits(text.take(k)) matches Err(e) ==> read_digits(text) == Err::<
            u64,
            ParseDurationError,
        >(e),
    decreases text.len() - k,
{
    if k == text.len() {
        assert(text.take(k) =~= text);
    } else {
        assert(text.take(k + 1).drop_last() =~= text.take(k));
        lemma_read_digits_error_stays(text, k + 1);
    }
}

/// Once the scan of a prefix has failed, the scan of the whole text fails
/// with the same error.
proof fn lemma_scan_error_stays(text: Seq<char>, k: int)
    requires
        0 <= k <= text.len(),
    ensures
        scan(text.take(k)) matches Err(e) ==> scan(text) == Err::<Scan, ParseDurationError>(e),
    decreases text.len() - k,
{
    if k == text.len() {
        assert(text.take(k) =~= text);
    } else {
        assert(text.take(k + 1).drop_last() =~= text.take(k));
        lemma_scan_error_stays(text, k + 1);
    }
}

/// Reads a duration such as `1h30m` or `5m30s` and gives it in seconds.
///
/// Each unit takes the number that stands before it. Blanks are skipped,
/// and what follows the last unit is ignored. The first number that cannot
/// be read decides the error; a text without any unit is `Empty`.
pub fn parse_duration(raw: &str) -> (r: Result<u64, ParseDurationError>)
    ensures
        r == duration_secs(raw@),
{
    let mut number: Vec<char> = Vec::new();
    let mut hours: u64 = 0;
    let mut minutes: u64 = 0;
    let mut seconds: u64 = 0;
    let mut seen_hms = false;
    for g in it: raw.chars()
        invariant
            it.seq() == raw@,
            scan(raw@.take(it.index() as int)) == Ok::<Scan, ParseDurationError>(
                Scan { hours, minutes, seconds, seen_unit: seen_hms, number: number@ },
            ),
    {
        proof {
            assert(raw@.take(it.index() + 1).drop_last() =~= raw@.take(it.index() as int));
            lemma_scan_error_stays(raw@, it.index() + 1);
        }
        if g == 'h' || g == 'm' || g == 's' {
            let n = match parse_number(&number) {
                Ok(n) => n,
                Err(e) => {
                    return Err(e);
                },
            };
            if g == 'h' {
                hours = n;
            } else if g == 'm' {
                minutes = n;
            } else {
                seconds = n;
            }
            number = Vec::new();
            seen_hms = true;
        } else if g == ' ' {
        } else {
            number.push(g);
        }
    }
    proof {
        assert(raw@.take(raw@.len() as int) =~= raw@);
    }
    if !seen_hms {
        return Err(ParseDurationError::Empty);
    }
    let total: u128 = hours as u128 * 3600 + minutes as u128 * 60 + seconds as u128;
    if total > u64::MAX as u128 {
        Err(ParseDurationError::PosOverflow)
    } else {
        Ok(total as u64)
    }
}

/// Reads a task from one typed line, such as `wash clothes 5m30s`.
///
/// Where the text after the last blank is a duration that a task can hold,
/// the task is named by what stands before that blank and planned for that
/// duration. In every other case the whole line is the name, and the task
/// is planned for the default of five minutes.
pub fn parse_new_task(raw: &str) -> (task: Task)
    ensures
        task@ == new_task_view(raw@),
{
    let len = raw.unicode_len();
    let mut blank: Option<usize> = None;
    let mut k: usize = 0;
    for g in it: raw.chars()
        invariant
            it.seq() == raw@,
            k == it.index(),
            len == raw@.len(),
            match blank {
                Some(b) => last_blank(raw@.take(k as int)) == Some(b as int) && b < k,
                None => last_blank(raw@.take(k as int)) is None,
            },
    {
        proof {
            assert(raw@.take(k + 1).drop_last() =~= raw@.take(k as int));
        }
        if g == ' ' {
            blank = Some(k);
        }
        k += 1;
    }
    proof {
        assert(raw@.take(raw@.len() as int) =~= raw@);
    }
    match blank {
        None => Task::new(raw, DEFAULT_DURATION_SECS),
        Some(b) => {
            let possible_duration = raw.substring_char(b + 1, len);
            match parse_duration(possible_duration) {
                Ok(secs) => if secs <= MAX_SECS {
                    Task::new(raw.substring_char(0, b), secs)
                } else {
                    Task::new(raw, DEFAULT_DURATION_SECS)
                },
                Err(_) => Task::new(raw, DEFAULT_DURATION_SECS),
            }
        },
    }
}

/// Reads a task from its two fields in a routine file: the name, and the
/// planned duration as [`parse_duration`] reads it.
///
/// Fails where the duration cannot be read, with the error of
/// `parse_duration`, and with `PosOverflow` where it is longer than a task
/// can hold.
pub fn parse_task(name: &str, duration: &str) -> (r: Result<Task, ParseDurationError>)
    ensures
        match duration_secs(duration@) {
            Err(e) => r == Err::<Task, ParseDurationError>(e),
            Ok(secs) => if secs > MAX_SECS {
                r == Err::<Task, ParseDurationError>(ParseDurationError::PosOverflow)
            } else {
                r matches Ok(task) && task@ == (TaskView {
                    name: name@,
                    elapsed: 0,
                    original_duration: secs as nat * NANOS_PER_SEC as nat,
                    duration: secs as nat * NANOS_PER_SEC as nat,
                    status: CompletionStatus::NotYet,
                })
            },
        },
{
    match parse_duration(duration) {
        Err(e) => Err(e),
        Ok(secs) => if secs > MAX_SECS {
            Err(ParseDurationError::PosOverflow)
        } else {
            Ok(Task::new(name, secs))
        },
    }
}

} // verus!
