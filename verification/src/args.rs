use vstd::prelude::*;

use crate::errors::StartupError;

verus! {

/// How many workers the master spawns when no count is given.
pub const DEFAULT_WORKER_COUNT: usize = 4;

pub open spec fn is_ascii_digit(b: u8) -> bool {
    48 <= b && b <= 57
}

pub open spec fn all_digits(s: Seq<u8>) -> bool {
    forall|i: int| 0 <= i < s.len() ==> is_ascii_digit(#[trigger] s[i])
}

/// The number that a run of decimal digits denotes.
pub open spec fn digits_value(s: Seq<u8>) -> int
    decreases s.len(),
{
    if s.len() == 0 {
        0
    } else {
        digits_value(s.drop_last()) * 10 + (s.last() - 48)
    }
}

/// A well-formed worker count: decimal digits only, denoting a positive
/// integer that a 32-bit count can hold.
pub open spec fn is_valid_count(s: Seq<u8>) -> bool {
    &&& s.len() > 0
    &&& all_digits(s)
    &&& 1 <= digits_value(s)
    &&& digits_value(s) <= i32::MAX as int
}

proof fn lemma_all_digits_drop_last(s: Seq<u8>)
    requires
        all_digits(s),
        s.len() > 0,
    ensures
        all_digits(s.drop_last()),
{
    assert forall|i: int| 0 <= i < s.drop_last().len() implies is_ascii_digit(
        #[trigger] s.drop_last()[i],
    ) by {
        assert(s.drop_last()[i] == s[i]);
    }
}

proof fn lemma_digits_value_nonneg(s: Seq<u8>)
    requires
        all_digits(s),
    ensures
        digits_value(s) >= 0,
    decreases s.len(),
{
    if s.len() > 0 {
        lemma_all_digits_drop_last(s);
        lemma_digits_value_nonneg(s.drop_last());
        assert(is_ascii_digit(s[s.len() - 1]));
    }
}

/// Reading more digits never makes the denoted number smaller.
proof fn lemma_digits_value_prefix_le(s: Seq<u8>, i: int)
    requires
        all_digits(s),
        0 <= i <= s.len(),
    ensures
        digits_value(s.take(i)) <= digits_value(s),
    decreases s.len() - i,
{
    if i == s.len() {
        assert(s.take(i) =~= s);
    } else {
        lemma_all_digits_drop_last(s);
        lemma_digits_value_nonneg(s.drop_last());
        assert(is_ascii_digit(s[s.len() - 1]));
        assert(s.drop_last().take(i) =~= s.take(i));
        lemma_digits_value_prefix_le(s.drop_last(), i);
    }
}

/// The worker count the master is to spawn, from the optional first
/// command-line argument.  An absent argument means the default count; a
/// present one must be a positive decimal integer, else startup is refused
/// with `InvalidArgument` before any fork is attempted.
pub fn parse_worker_count(arg: Option<&Vec<u8>>) -> (r: Result<usize, StartupError>)
    ensures
        match arg {
            None => r == Ok::<usize, StartupError>(DEFAULT_WORKER_COUNT),
            Some(s) => (if is_valid_count(s@) {
                r matches Ok(n) && n as int == digits_value(s@)
            } else {
                r == Err::<usize, StartupError>(StartupError::InvalidArgument)
            }),
        },
{
    match arg {
        None => Ok(DEFAULT_WORKER_COUNT),
        Some(s) => {
            let n = s.len();
            if n == 0 {
                return Err(StartupError::InvalidArgument);
            }
            let mut acc: u64 = 0;
            let mut i: usize = 0;
            while i < n
                invariant
                    arg == Some(s),
                    n == s@.len(),
                    0 < n,
                    i <= n,
                    all_digits(s@.take(i as int)),
                    acc as int == digits_value(s@.take(i as int)),
                    acc <= i32::MAX as u64,
                decreases n - i,
            {
                let b = s[i];
                if b < 48 || b > 57 {
                    proof {
                        assert(s@[i as int] == b);
                        assert(!is_ascii_digit(s@[i as int]));
                    }
                    return Err(StartupError::InvalidArgument);
                }
                proof {
                    assert(s@.take(i as int + 1).drop_last() =~= s@.take(i as int));
                    assert(s@.take(i as int + 1).last() == s@[i as int]);
                    assert forall|j: int| 0 <= j < i as int + 1 implies is_ascii_digit(
                        #[trigger] s@.take(i as int + 1)[j],
                    ) by {
                        if j < i as int {
                            assert(s@.take(i as int + 1)[j] == s@.take(i as int)[j]);
                        } else {
                            assert(s@.take(i as int + 1)[j] == s@[i as int]);
                        }
                    }
                }
                acc = acc * 10 + ((b - 48) as u64);
                if acc > i32::MAX as u64 {
                    proof {
                        if all_digits(s@) {
                            lemma_digits_value_prefix_le(s@, i as int + 1);
                        }
                    }
                    return Err(StartupError::InvalidArgument);
                }
                i = i + 1;
            }
            proof {
                assert(s@.take(n as int) =~= s@);
            }
            if acc == 0 {
                return Err(StartupError::InvalidArgument);
            }
            Ok(acc as usize)
        },
    }
}

} // verus!
