//! The progress sampler and the seek: positions and durations in
//! nanoseconds, and the text that shows them.

use vstd::prelude::*;
use vstd::string::StringExecFns;

verus! {

/// Nanoseconds in a second.
pub const NANOS_PER_SECOND: u64 = 1_000_000_000;

/// The period of the sampler, in milliseconds.
pub const SAMPLE_PERIOD_MILLIS: u64 = 50;

/// One reading of the running pipeline, in nanoseconds.
#[derive(Clone, Copy, Debug, PartialEq, Eq, Structural)]
pub struct ProgressSample {
    pub position: u64,
    pub duration: u64,
}

/// A seek that is put to the engine: flushing, and to the nearest key unit at
/// or before the position.
#[derive(Clone, Copy, Debug, PartialEq, Eq, Structural)]
pub struct SeekRequest {
    /// The position to seek to, in nanoseconds.
    pub position: u64,
    /// Whether the pipeline is flushed.
    pub flush: bool,
    /// Whether the seek snaps to a key unit.
    pub key_unit: bool,
    /// Whether the key unit is sought at or before the position.
    pub snap_before: bool,
}

/// The sample that two queries give: none unless both are answered.
pub open spec fn sample_of(position: Option<u64>, duration: Option<u64>) -> Option<
    ProgressSample,
> {
    match (position, duration) {
        (Some(position), Some(duration)) => Some(ProgressSample { position, duration }),
        _ => None,
    }
}

/// A position clamped to the range from 0 to the duration.
pub open spec fn clamped(position: i64, duration: u64) -> u64 {
    if position < 0 {
        0
    } else if position > duration {
        duration
    } else {
        position as u64
    }
}

/// The seek that is asked for a position: none while the duration is
/// unknown, else a flushing key-unit seek to the clamped position.
pub open spec fn seek_of(position: i64, duration: Option<u64>) -> Option<SeekRequest> {
    match duration {
        None => None,
        Some(duration) => Some(
            SeekRequest {
                position: clamped(position, duration),
                flush: true,
                key_unit: true,
                snap_before: true,
            },
        ),
    }
}

/// The character of a decimal digit.
pub open spec fn digit_char(digit: nat) -> char {
    if digit == 0 {
        '0'
    } else if digit == 1 {
        '1'
    } else if digit == 2 {
        '2'
    } else if digit == 3 {
        '3'
    } else if digit == 4 {
        '4'
    } else if digit == 5 {
        '5'
    } else if digit == 6 {
        '6'
    } else if digit == 7 {
        '7'
    } else if digit == 8 {
        '8'
    } else {
        '9'
    }
}

/// A number in decimal, without leading zeros.
pub open spec fn decimal(n: nat) -> Seq<char>
    decreases n,
{
    if n < 10 {
        seq![digit_char(n)]
    } else {
        decimal(n / 10).push(digit_char(n % 10))
    }
}

/// A number in decimal, with a leading zero where it has one digit.
pub open spec fn two_digits(n: nat) -> Seq<char> {
    if n < 10 {
        seq!['0', digit_char(n)]
    } else {
        decimal(n)
    }
}

/// A count of seconds as minutes and seconds, `MM:SS`.
pub open spec fn clock_text(seconds: nat) -> Seq<char> {
    two_digits(seconds / 60) + seq![':'] + two_digits(seconds % 60)
}

/// Position and duration, each as `MM:SS`, with ` / ` between them.
pub open spec fn playtime_text(position: nat, duration: nat) -> Seq<char> {
    clock_text(position) + seq![' ', '/', ' '] + clock_text(duration)
}

/// Puts two queries together into a sample. A query that the pipeline cannot
/// answer yet makes the tick pass without one.
pub fn take_sample(position: Option<u64>, duration: Option<u64>) -> (r: Option<ProgressSample>)
    ensures
        r == sample_of(position, duration),
{
    match (position, duration) {
        (Some(position), Some(duration)) => Some(ProgressSample { position, duration }),
        _ => None,
    }
}

/// Clamps a position to the range from 0 to the duration.
pub fn clamp_position(position: i64, duration: u64) -> (r: u64)
    ensures
        r == clamped(position, duration),
        r <= duration,
{
    if position < 0 {
        0
    } else if position as u64 > duration {
        duration
    } else {
        position as u64
    }
}

/// The seek for a position, which may lie before the start or after the end.
pub fn seek_request(position: i64, duration: Option<u64>) -> (r: Option<SeekRequest>)
    ensures
        r == seek_of(position, duration),
{
    match duration {
        None => None,
        Some(duration) => Some(
            SeekRequest {
                position: clamp_position(position, duration),
                flush: true,
                key_unit: true,
                snap_before: true,
            },
        ),
    }
}

fn digit_text(digit: u64) -> (r: &'static str)
    requires
        digit < 10,
    ensures
        r@ == seq![digit_char(digit as nat)],
{
    proof {
        reveal_strlit("0");
        reveal_strlit("1");
        reveal_strlit("2");
        reveal_strlit("3");
        reveal_strlit("4");
        reveal_strlit("5");
        reveal_strlit("6");
        reveal_strlit("7");
        reveal_strlit("8");
        reveal_strlit("9");
    }
    let r = if digit == 0 {
        "0"
    } else if digit == 1 {
        "1"
    } else if digit == 2 {
        "2"
    } else if digit == 3 {
        "3"
    } else if digit == 4 {
        "4"
    } else if digit == 5 {
        "5"
    } else if digit == 6 {
        "6"
    } else if digit == 7 {
        "7"
    } else if digit == 8 {
        "8"
    } else {
        "9"
    };
    assert(r@ =~= seq![digit_char(digit as nat)]);
    r
}

fn push_decimal(out: &mut String, n: u64)
    ensures
        final(out)@ == old(out)@ + decimal(n as nat),
    decreases n,
{
    if n >= 10 {
        push_decimal(out, n / 10);
    }
    out.append(digit_text(n % 10));
    proof {
        if n >= 10 {
            assert(old(out)@ + decimal((n / 10) as nat) + seq![digit_char((n % 10) as nat)]
                =~= old(out)@ + decimal((n / 10) as nat).push(digit_char((n % 10) as nat)));
        }
    }
}

fn push_two_digits(out: &mut String, n: u64)
    ensures
        final(out)@ == old(out)@ + two_digits(n as nat),
{
    if n < 10 {
        proof {
            reveal_strlit("0");
        }
        out.append("0");
        out.append(digit_text(n));
        assert(out@ =~= old(out)@ + two_digits(n as nat));
    } else {
        push_decimal(out, n);
    }
}

fn push_clock(out: &mut String, seconds: u64)
    ensures
        final(out)@ == old(out)@ + clock_text(seconds as nat),
{
    push_two_digits(out, seconds / 60);
    proof {
        reveal_strlit(":");
    }
    out.append(":");
    push_two_digits(out, seconds % 60);
    assert(out@ =~= old(out)@ + clock_text(seconds as nat));
}

/// A count of seconds as minutes and seconds, `MM:SS`. The minutes take more
/// digits where two do not hold them.
pub fn format_time(seconds: u64) -> (r: String)
    ensures
        r@ == clock_text(seconds as nat),
{
    let mut out = String::new();
    push_clock(&mut out, seconds);
    assert(out@ =~= clock_text(seconds as nat));
    out
}

impl ProgressSample {
    /// The position in whole seconds.
    pub fn position_seconds(&self) -> (r: u64)
        ensures
            r == self.position / NANOS_PER_SECOND,
    {
        self.position / NANOS_PER_SECOND
    }

    /// The duration in whole seconds.
    pub fn duration_seconds(&self) -> (r: u64)
        ensures
            r == self.duration / NANOS_PER_SECOND,
    {
        self.duration / NANOS_PER_SECOND
    }

    /// The text of the play-time indicator: position and duration in whole
    /// seconds, each as `MM:SS`.
    pub fn label(&self) -> (r: String)
        ensures
            r@ == playtime_text(
                (self.position / NANOS_PER_SECOND) as nat,
                (self.duration / NANOS_PER_SECOND) as nat,
            ),
    {
        let mut out = String::new();
        push_clock(&mut out, self.position_seconds());
        proof {
            reveal_strlit(" / ");
        }
        out.append(" / ");
        push_clock(&mut out, self.duration_seconds());
        assert(out@ =~= playtime_text(
            (self.position / NANOS_PER_SECOND) as nat,
            (self.duration / NANOS_PER_SECOND) as nat,
        ));
        out
    }
}

} // verus!
