//! What the process decides before any worker runs: how many workers, and
//! for each of them how its ring and its listening socket are set up.

use vstd::prelude::*;
use vstd::string::*;
use crate::worker::Strategy;

verus! {

/// Number of workers where the command line names none.
pub const DEFAULT_THREADS: i32 = 4;

/// The TCP port that the sink listens on.
pub const PORT: u16 = 1234;

/// Backlog of a listening socket.
pub const BACKLOG: i32 = 128;

/// Entries of a worker's submission queue.
pub const RING_ENTRIES: u32 = 1024;

/// Slots of a worker's buffer pool.
pub const BUFFER_COUNT: u16 = 256;

/// Size of one slot in bytes.
pub const BUFFER_SIZE: usize = 1048576;

/// The buffer group that a worker registers its pool as.
pub const BUFFER_GROUP: u16 = 42;

/// Why the thread-count argument was refused.
#[derive(Clone, Copy, Debug, PartialEq, Eq, Structural)]
pub enum ArgError {
    /// The argument is empty.
    Empty,
    /// The argument is a lone sign, or holds something that is no decimal digit.
    InvalidDigit,
    /// The number does not fit thirty-two bits with sign.
    OutOfRange,
}

/// Whether `c` is one of the ten decimal digits.
pub open spec fn is_digit(c: char) -> bool {
    '0' <= c <= '9'
}

/// The number that a sequence of decimal digits writes.
pub open spec fn decimal(digits: Seq<char>) -> nat
    decreases digits.len(),
{
    if digits.len() == 0 {
        0
    } else {
        (decimal(digits.drop_last()) * 10 + (digits.last() as int - '0' as int)) as nat
    }
}

/// The digits of a number text: what follows its sign, if it has one.
pub open spec fn digits_of(text: Seq<char>) -> Seq<char> {
    if text.len() > 0 && (text[0] == '-' || text[0] == '+') {
        text.skip(1)
    } else {
        text
    }
}

/// The number that a text writes: an optional `+` or `-`, then one or more
/// decimal digits and nothing else, within thirty-two bits with sign.
pub open spec fn parsed(text: Seq<char>) -> Result<i32, ArgError> {
    let digits = digits_of(text);
    let value = if text.len() > 0 && text[0] == '-' {
        -(decimal(digits) as int)
    } else {
        decimal(digits) as int
    };
    if text.len() == 0 {
        Err(ArgError::Empty)
    } else if digits.len() == 0 || exists|i: int| 0 <= i < digits.len() && !is_digit(digits[i]) {
        Err(ArgError::InvalidDigit)
    } else if value < i32::MIN || value > i32::MAX {
        Err(ArgError::OutOfRange)
    } else {
        Ok(value as i32)
    }
}

/// The thread count that the first command-line argument selects: the
/// default where there is none, else the number it writes. An argument that
/// writes no number is an error, never the default.
pub open spec fn threads_of(arg: Option<Seq<char>>) -> Result<i32, ArgError> {
    match arg {
        None => Ok(DEFAULT_THREADS),
        Some(text) => parsed(text),
    }
}

/// A longer digit sequence writes no smaller number than its beginning.
proof fn decimal_grows(digits: Seq<char>, upto: int)
    requires
        0 <= upto <= digits.len(),
        forall|i: int| 0 <= i < digits.len() ==> is_digit(digits[i]),
    ensures
        decimal(digits.take(upto)) <= decimal(digits),
    decreases digits.len() - upto,
{
    if upto == digits.len() {
        assert(digits.take(upto) =~= digits);
    } else {
        decimal_grows(digits, upto + 1);
        assert(digits.take(upto + 1).drop_last() =~= digits.take(upto));
        assert(is_digit(digits[upto]));
        assert(digits.take(upto + 1).last() == digits[upto]);
    }
}

/// Reads a number as the thread-count argument writes it.
pub fn parse_threads(text: &str) -> (threads: Result<i32, ArgError>)
    ensures
        threads == parsed(text@),
{
    let len = text.unicode_len();
    if len == 0 {
        return Err(ArgError::Empty);
    }
    let first = text.get_char(0);
    let negative = first == '-';
    let start: usize = if first == '-' || first == '+' {
        1
    } else {
        0
    };
    let ghost digits = digits_of(text@);
    proof {
        assert(digits =~= text@.subrange(start as int, len as int));
    }
    if start == len {
        return Err(ArgError::InvalidDigit);
    }
    let mut at: usize = start;
    while at < len
        invariant
            start <= at <= len,
            len == text@.len(),
            digits == digits_of(text@),
            digits == text@.subrange(start as int, len as int),
            forall|i: int| 0 <= i < at - start ==> is_digit(digits[i]),
        decreases len - at,
    {
        let c = text.get_char(at);
        if !('0' <= c && c <= '9') {
            proof {
                assert(digits[at - start] == c);
                assert(0 <= at - start < digits.len() && !is_digit(digits[at - start]));
            }
            return Err(ArgError::InvalidDigit);
        }
        at += 1;
    }
    let mut value: i64 = 0;
    at = start;
    proof {
        assert(digits.take(0) =~= Seq::<char>::empty());
    }
    while at < len
        invariant
            start <= at <= len,
            len == text@.len(),
            digits == digits_of(text@),
            digits == text@.subrange(start as int, len as int),
            forall|i: int| 0 <= i < digits.len() ==> is_digit(digits[i]),
            value == decimal(digits.take(at - start)),
            0 <= value <= 0x8000_0000,
        decreases len - at,
    {
        let c = text.get_char(at);
        proof {
            assert(is_digit(digits[at - start]));
            assert(digits.take(at - start + 1).drop_last() =~= digits.take(at - start));
            assert(digits.take(at - start + 1).last() == c);
        }
        let digit: i64 = (c as u32 - '0' as u32) as i64;
        value = value * 10 + digit;
        at += 1;
        proof {
            assert(value == decimal(digits.take(at - start)));
        }
        if value > 0x8000_0000 {
            proof {
                decimal_grows(digits, at - start);
            }
            return Err(ArgError::OutOfRange);
        }
    }
    proof {
        assert(digits.take(len - start) =~= digits);
    }
    if negative {
        Ok((-value) as i32)
    } else if value > 0x7fff_ffff {
        Err(ArgError::OutOfRange)
    } else {
        Ok(value as i32)
    }
}

/// Decides the thread count from the first command-line argument, if there
/// is one.
pub fn thread_count(arg: Option<&str>) -> (threads: Result<i32, ArgError>)
    ensures
        threads == threads_of(
            match arg {
                Some(text) => Some(text@),
                None => None,
            },
        ),
{
    match arg {
        None => Ok(DEFAULT_THREADS),
        Some(text) => parse_threads(text),
    }
}

/// Which listening socket a worker serves.
#[derive(Clone, Copy, Debug, PartialEq, Eq, Structural)]
pub enum Listener {
    /// A socket of the worker's own, bound to the common port with port
    /// reuse, so that the kernel spreads new connections over the workers.
    Own,
    /// The one socket that all workers share.
    Shared,
}

/// How one worker is set up.
#[derive(Clone, Copy, Debug, PartialEq, Eq, Structural)]
pub struct WorkerPlan {
    /// The worker's position, counted from zero.
    pub index: usize,
    /// Whether the worker's ring attaches to the kernel worker pool of the
    /// first worker's ring instead of getting one of its own.
    pub attach_to_first: bool,
    /// The listening socket that the worker serves.
    pub listener: Listener,
}

/// The listening socket of a worker of this strategy.
pub open spec fn listener_of(strategy: Strategy) -> Listener {
    match strategy {
        Strategy::MultishotAccept => Listener::Own,
        Strategy::PollThenAccept => Listener::Shared,
    }
}

/// The plan of worker `index`: every worker but the first attaches to the
/// first worker's kernel worker pool.
pub open spec fn plan_of(index: int, strategy: Strategy) -> WorkerPlan {
    WorkerPlan { index: index as usize, attach_to_first: index > 0, listener: listener_of(strategy) }
}

/// Plans `threads` workers, in order; none where `threads` is not positive.
pub fn plan(threads: i32, strategy: Strategy) -> (plans: Vec<WorkerPlan>)
    ensures
        plans@.len() == if threads > 0 {
            threads as int
        } else {
            0
        },
        forall|i: int| 0 <= i < plans@.len() ==> plans@[i] == plan_of(i, strategy),
{
    let listener = match strategy {
        Strategy::MultishotAccept => Listener::Own,
        Strategy::PollThenAccept => Listener::Shared,
    };
    let mut plans: Vec<WorkerPlan> = Vec::new();
    let mut index: i32 = 0;
    while index < threads
        invariant
            0 <= index,
            index <= threads || index == 0,
            plans@.len() == index,
            listener == listener_of(strategy),
            forall|i: int| 0 <= i < plans@.len() ==> plans@[i] == plan_of(i, strategy),
        decreases threads - index,
    {
        plans.push(WorkerPlan { index: index as usize, attach_to_first: index > 0, listener });
        index += 1;
    }
    plans
}

} // verus!
