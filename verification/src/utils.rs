//! The reminder-time format check applied to wizard input before a task's
//! time field is accepted.

use vstd::prelude::*;
use crate::text::{
    contains_char, contains_char_str, find_char, find_char_str, is_digit, is_num_lt,
    lemma_find_char, lemma_trim_idempotent, parse_num_lt, spec_trim, trim_str,
};

verus! {

/// Whether `s` is an accepted reminder time: empty (after trimming), or
/// exactly one ':' splitting two unsigned decimal numbers, hours below 24
/// and minutes below 60, each digits only, without sign or other
/// characters.
pub open spec fn spec_valid_time(s: Seq<char>) -> bool {
    let t = spec_trim(s);
    if t.len() == 0 {
        true
    } else {
        match find_char(t, ':') {
            None => false,
            Some(i) => {
                let hours = t.subrange(0, i);
                let minutes = t.subrange(i + 1, t.len() as int);
                !contains_char(minutes, ':') && is_num_lt(hours, 24) && is_num_lt(minutes, 60)
            },
        }
    }
}

/// Decides `spec_valid_time`: the validator applied to wizard input before
/// a task's time field is accepted.
pub fn is_valid_time(input: &str) -> (r: bool)
    ensures
        r == spec_valid_time(input@),
{
    let s = trim_str(input);
    let len: usize = s.unicode_len();
    if len == 0 {
        return true;
    }
    proof {
        lemma_find_char(s@, ':');
    }
    match find_char_str(s, ':') {
        None => false,
        Some(i) => {
            let minutes_start = i + 1;
            let rest = s.substring_char(minutes_start, len);
            if contains_char_str(rest, ':') {
                proof {
                    assert(s@.subrange(minutes_start as int, len as int) == rest@);
                }
                return false;
            }
            proof {
                assert(s@.subrange(0, i as int) =~= s@.subrange(0, i as int));
                assert(s@.subrange(minutes_start as int, len as int) == rest@);
            }
            parse_num_lt(s, 0, i, 24) && parse_num_lt(s, minutes_start, len, 60)
        },
    }
}

/// A valid time, trimmed, is made of digits and one colon only, so it can
/// stand verbatim inside a rendered task marker: it holds no line break,
/// no closing bracket, no completion letter, and trims to itself.
pub proof fn lemma_valid_time_plain(s: Seq<char>)
    requires
        spec_valid_time(s),
    ensures
        spec_trim(spec_trim(s)) == spec_trim(s),
        !contains_char(spec_trim(s), '\n'),
        !contains_char(spec_trim(s), ']'),
        !contains_char(spec_trim(s), 'x'),
        !contains_char(spec_trim(s), 'X'),
{
    let t = spec_trim(s);
    lemma_trim_idempotent(s);
    if t.len() > 0 {
        lemma_find_char(t, ':');
        let i = find_char(t, ':')->Some_0;
        let hours = t.subrange(0, i);
        let minutes = t.subrange(i + 1, t.len() as int);
        assert(forall|k: int| 0 <= k < t.len() ==> is_digit(t[k]) || t[k] == ':') by {
            assert(forall|k: int| 0 <= k < i ==> t[k] == hours[k] && is_digit(hours[k]));
            assert(forall|k: int|
                i < k < t.len() ==> t[k] == minutes[k - i - 1] && is_digit(minutes[k - i - 1]));
        }
        assert forall|c: char| c == '\n' || c == ']' || c == 'x' || c == 'X' implies !contains_char(
            t,
            c,
        ) by {
            if contains_char(t, c) {
                let w = choose|w: int| 0 <= w < t.len() && t[w] == c;
                assert(is_digit(t[w]) || t[w] == ':');
            }
        }
    }
}

} // verus!
