//! Identifiers: texts of 26 base-32 digits, the first ten of which tell when they were
//! made.
use crate::table::{self, KeyedRow};
use ulid::Ulid;
use vstd::prelude::*;

verus! {

/// `ulid::Ulid::new`, as text: an identifier, made of the current time and of random
/// bits. Nothing is promised of which one it is.
#[verifier::external_body]
pub(crate) fn new_id() -> (r: String)
    ensures
        is_id(r@),
{
    Ulid::new().to_string()
}

/// The value of a base-32 digit: the decimal digits, then the letters without `I`, `L`,
/// `O` and `U`, in either case.
pub open spec fn digit_value(c: char) -> Option<int> {
    let u = c as int;
    let letter = if 'a' as int <= u <= 'z' as int {
        u - 32
    } else {
        u
    };
    if '0' as int <= u <= '9' as int {
        Some(u - '0' as int)
    } else if 'A' as int <= letter <= 'H' as int {
        Some(letter - 'A' as int + 10)
    } else if 'J' as int <= letter <= 'K' as int {
        Some(letter - 'J' as int + 18)
    } else if 'M' as int <= letter <= 'N' as int {
        Some(letter - 'M' as int + 20)
    } else if 'P' as int <= letter <= 'T' as int {
        Some(letter - 'P' as int + 22)
    } else if 'V' as int <= letter <= 'Z' as int {
        Some(letter - 'V' as int + 27)
    } else {
        None
    }
}

/// The number that base-32 digits stand for.
pub open spec fn number_of(digits: Seq<char>) -> int
    decreases digits.len(),
{
    if digits.len() == 0 {
        0
    } else {
        32 * number_of(digits.drop_last()) + digit_value(digits.last())->Some_0
    }
}

/// Whether a text is an identifier.
pub open spec fn is_id(s: Seq<char>) -> bool {
    s.len() == 26 && forall|i: int| 0 <= i < s.len() ==> digit_value(#[trigger] s[i]) is Some
}

/// Whether some row is named by an identifier, so that a fresh one may be in use.
pub open spec fn may_clash<R: KeyedRow>(rows: Seq<R::V>) -> bool {
    exists|id: Seq<char>| is_id(id) && #[trigger] table::has_id::<R>(rows, id)
}

/// When an identifier was made, in milliseconds of the epoch: its first ten digits tell,
/// modulo 2^48.
pub open spec fn made_at(s: Seq<char>) -> int {
    number_of(s.take(10)) % 0x1_0000_0000_0000
}

/// `ulid::Ulid::from_string` and, where it takes the text, `timestamp_ms` of what it
/// gives: the text must be an identifier.
#[verifier::external_body]
pub(crate) fn time_of_id(s: &str) -> (r: Option<u64>)
    ensures
        match r {
            Some(ms) => is_id(s@) && ms == made_at(s@),
            None => !is_id(s@),
        },
{
    match Ulid::from_string(s) {
        Ok(id) => Some(id.timestamp_ms()),
        Err(_) => None,
    }
}

} // verus!
