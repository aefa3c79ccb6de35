//! Character-sequence utilities shared by the task codec and the time
//! validator: whitespace trimming, substring search, line splitting and
//! decimal-digit parsing, each with a specification-level model.

use vstd::prelude::*;
use vstd::string::*;

verus! {

/// The whitespace characters removed by trimming: the ASCII characters for
/// which `char::is_whitespace` holds.
pub open spec fn is_space(c: char) -> bool {
    c == ' ' || c == '\t' || c == '\n' || c == '\r' || c == '\x0b' || c == '\x0c'
}

pub fn is_space_ch(c: char) -> (r: bool)
    ensures
        r == is_space(c),
{
    c == ' ' || c == '\t' || c == '\n' || c == '\r' || c == '\x0b' || c == '\x0c'
}

pub open spec fn trim_front(s: Seq<char>) -> Seq<char>
    decreases s.len(),
{
    if s.len() > 0 && is_space(s[0]) {
        trim_front(s.subrange(1, s.len() as int))
    } else {
        s
    }
}

pub open spec fn trim_back(s: Seq<char>) -> Seq<char>
    decreases s.len(),
{
    if s.len() > 0 && is_space(s[s.len() - 1]) {
        trim_back(s.subrange(0, s.len() - 1))
    } else {
        s
    }
}

/// The model of `str::trim`: the sequence with leading and trailing
/// whitespace removed.
pub open spec fn spec_trim(s: Seq<char>) -> Seq<char> {
    trim_back(trim_front(s))
}

/// If everything before `i` is whitespace and `i` is not (or the end),
/// trimming the front keeps exactly the suffix from `i`.
pub proof fn lemma_trim_front_at(s: Seq<char>, i: int)
    requires
        0 <= i <= s.len(),
        forall|k: int| 0 <= k < i ==> is_space(s[k]),
        i < s.len() ==> !is_space(s[i]),
    ensures
        trim_front(s) == s.subrange(i, s.len() as int),
    decreases i,
{
    if i == 0 {
        assert(s.subrange(0, s.len() as int) =~= s);
    } else {
        let s1 = s.subrange(1, s.len() as int);
        lemma_trim_front_at(s1, i - 1);
        assert(s1.subrange(i - 1, s1.len() as int) =~= s.subrange(i, s.len() as int));
    }
}

/// If everything from `j` on is whitespace and `j - 1` is not (or the start),
/// trimming the back keeps exactly the prefix up to `j`.
pub proof fn lemma_trim_back_at(s: Seq<char>, j: int)
    requires
        0 <= j <= s.len(),
        forall|k: int| j <= k < s.len() ==> is_space(s[k]),
        j > 0 ==> !is_space(s[j - 1]),
    ensures
        trim_back(s) == s.subrange(0, j),
    decreases s.len() - j,
{
    if j == s.len() {
        if s.len() > 0 && is_space(s[s.len() - 1]) {
            assert(!is_space(s[j - 1]));
        }
        assert(s.subrange(0, s.len() as int) =~= s);
    } else {
        let s1 = s.subrange(0, s.len() - 1);
        lemma_trim_back_at(s1, j);
        assert(s1.subrange(0, j) =~= s.subrange(0, j));
    }
}

/// A trimmed sequence is empty, or starts and ends with non-whitespace.
pub proof fn lemma_trim_no_edge_space(s: Seq<char>)
    ensures
        spec_trim(s).len() > 0 ==> !is_space(spec_trim(s)[0]),
        spec_trim(s).len() > 0 ==> !is_space(spec_trim(s)[spec_trim(s).len() - 1]),
    decreases s.len(),
{
    lemma_trim_front_no_lead(s);
    lemma_trim_back_keeps_front(trim_front(s));
}

proof fn lemma_trim_front_no_lead(s: Seq<char>)
    ensures
        trim_front(s).len() > 0 ==> !is_space(trim_front(s)[0]),
    decreases s.len(),
{
    if s.len() > 0 && is_space(s[0]) {
        lemma_trim_front_no_lead(s.subrange(1, s.len() as int));
    }
}

proof fn lemma_trim_back_keeps_front(s: Seq<char>)
    ensures
        trim_back(s).len() > 0 ==> !is_space(trim_back(s)[trim_back(s).len() - 1]),
        trim_back(s).len() > 0 ==> trim_back(s)[0] == s[0],
    decreases s.len(),
{
    if s.len() > 0 && is_space(s[s.len() - 1]) {
        lemma_trim_back_keeps_front(s.subrange(0, s.len() - 1));
    }
}

/// A sequence without leading or trailing whitespace trims to itself.
pub proof fn lemma_trim_id(s: Seq<char>)
    requires
        s.len() > 0 ==> !is_space(s[0]),
        s.len() > 0 ==> !is_space(s[s.len() - 1]),
    ensures
        spec_trim(s) == s,
{
    lemma_trim_front_at(s, 0);
    assert(trim_front(s) =~= s);
    lemma_trim_back_at(s, s.len() as int);
    assert(s.subrange(0, s.len() as int) =~= s);
}

/// Trimming is idempotent.
pub proof fn lemma_trim_idempotent(s: Seq<char>)
    ensures
        spec_trim(spec_trim(s)) == spec_trim(s),
{
    lemma_trim_no_edge_space(s);
    lemma_trim_id(spec_trim(s));
}

/// The exec counterpart of `spec_trim`, on a string slice.
pub fn trim_str<'a>(s: &'a str) -> (r: &'a str)
    ensures
        r@ == spec_trim(s@),
{
    let len: usize = s.unicode_len();
    let mut i: usize = 0;
    while i < len && is_space_ch(s.get_char(i))
        invariant
            0 <= i <= len,
            len == s@.len(),
            forall|k: int| 0 <= k < i ==> is_space(s@[k]),
        decreases len - i,
    {
        i = i + 1;
    }
    let mut j: usize = len;
    while j > i && is_space_ch(s.get_char(j - 1))
        invariant
            i <= j <= len,
            len == s@.len(),
            forall|k: int| j <= k < len ==> is_space(s@[k]),
        decreases j,
    {
        j = j - 1;
    }
    proof {
        lemma_trim_front_at(s@, i as int);
        let f = s@.subrange(i as int, s@.len() as int);
        lemma_trim_back_at(f, j - i);
        assert(f.subrange(0, j - i) =~= s@.subrange(i as int, j as int));
    }
    s.substring_char(i, j)
}

/// The index of the first occurrence of `c` in `s`, if any.
pub open spec fn find_char(s: Seq<char>, c: char) -> Option<int>
    decreases s.len(),
{
    if s.len() == 0 {
        None
    } else if s[0] == c {
        Some(0)
    } else {
        match find_char(s.subrange(1, s.len() as int), c) {
            Some(i) => Some(i + 1),
            None => None,
        }
    }
}

pub open spec fn contains_char(s: Seq<char>, c: char) -> bool {
    exists|i: int| 0 <= i < s.len() && s[i] == c
}

/// `find_char` returns the first occurrence, and `None` exactly when the
/// character does not occur.
pub proof fn lemma_find_char(s: Seq<char>, c: char)
    ensures
        match find_char(s, c) {
            Some(i) => 0 <= i < s.len() && s[i] == c && forall|k: int| 0 <= k < i ==> s[k] != c,
            None => !contains_char(s, c),
        },
    decreases s.len(),
{
    if s.len() > 0 && s[0] != c {
        let s1 = s.subrange(1, s.len() as int);
        lemma_find_char(s1, c);
        match find_char(s1, c) {
            Some(i) => {
                assert(forall|k: int| 1 <= k < i + 1 ==> s[k] == s1[k - 1]);
            },
            None => {
                assert(!contains_char(s, c)) by {
                    if contains_char(s, c) {
                        let w = choose|w: int| 0 <= w < s.len() && s[w] == c;
                        assert(s1[w - 1] == c);
                    }
                }
            },
        }
    }
}

/// Conversely, if `c` first occurs at `i`, `find_char` returns `Some(i)`.
pub proof fn lemma_find_char_at(s: Seq<char>, c: char, i: int)
    requires
        0 <= i < s.len(),
        s[i] == c,
        forall|k: int| 0 <= k < i ==> s[k] != c,
    ensures
        find_char(s, c) == Some(i),
    decreases i,
{
    if i > 0 {
        lemma_find_char_at(s.subrange(1, s.len() as int), c, i - 1);
    }
}

pub proof fn lemma_find_char_none(s: Seq<char>, c: char)
    requires
        !contains_char(s, c),
    ensures
        find_char(s, c) is None,
{
    lemma_find_char(s, c);
    if find_char(s, c) is Some {
        let i = find_char(s, c)->Some_0;
        assert(contains_char(s, c));
    }
}

/// The exec counterpart of `find_char`.
pub fn find_char_str(s: &str, c: char) -> (r: Option<usize>)
    ensures
        match r {
            Some(i) => find_char(s@, c) == Some(i as int),
            None => find_char(s@, c) is None,
        },
{
    let len: usize = s.unicode_len();
    let mut i: usize = 0;
    while i < len
        invariant
            0 <= i <= len,
            len == s@.len(),
            forall|k: int| 0 <= k < i ==> s@[k] != c,
        decreases len - i,
    {
        if s.get_char(i) == c {
            proof {
                lemma_find_char_at(s@, c, i as int);
            }
            return Some(i);
        }
        i = i + 1;
    }
    proof {
        lemma_find_char_none(s@, c);
    }
    None
}

pub fn contains_char_str(s: &str, c: char) -> (r: bool)
    ensures
        r == contains_char(s@, c),
{
    proof {
        lemma_find_char(s@, c);
    }
    match find_char_str(s, c) {
        Some(_) => true,
        None => false,
    }
}

/// Whether the character sequences of two string slices are equal.
pub fn str_eq(a: &str, b: &str) -> (r: bool)
    ensures
        r == (a@ == b@),
{
    let alen: usize = a.unicode_len();
    let blen: usize = b.unicode_len();
    if alen != blen {
        return false;
    }
    let mut i: usize = 0;
    while i < alen
        invariant
            0 <= i <= alen,
            alen == a@.len(),
            alen == b@.len(),
            forall|k: int| 0 <= k < i ==> a@[k] == b@[k],
        decreases alen - i,
    {
        if a.get_char(i) != b.get_char(i) {
            return false;
        }
        i = i + 1;
    }
    proof {
        assert(a@ =~= b@);
    }
    true
}

/// Relies on String::push: appends exactly one character at the end.
#[verifier::external_body]
pub(crate) fn push_char(s: &mut String, c: char)
    ensures
        final(s)@ == old(s)@.push(c),
{
    s.push(c);
}

/// Relies on String::pop: removes and returns the last character, or
/// returns None and leaves the empty string unchanged.
#[verifier::external_body]
pub(crate) fn pop_char(s: &mut String) -> (r: Option<char>)
    ensures
        old(s)@.len() == 0 ==> final(s)@ == old(s)@ && r is None,
        old(s)@.len() > 0 ==> final(s)@ == old(s)@.drop_last() && r == Some(
            old(s)@[old(s)@.len() - 1],
        ),
{
    s.pop()
}

/// The model of splitting text into lines at `'\n'`. The separator is not
/// part of any line; text with no separator is a single line.
pub open spec fn spec_split_lines(s: Seq<char>) -> Seq<Seq<char>>
    decreases s.len(),
    via spec_split_lines_decreases
{
    match find_char(s, '\n') {
        None => seq![s],
        Some(i) => seq![s.subrange(0, i)] + spec_split_lines(s.subrange(i + 1, s.len() as int)),
    }
}

#[via_fn]
proof fn spec_split_lines_decreases(s: Seq<char>) {
    lemma_find_char(s, '\n');
}

pub proof fn lemma_split_lines_len(s: Seq<char>)
    ensures
        spec_split_lines(s).len() >= 1,
    decreases s.len(),
{
    lemma_find_char(s, '\n');
    match find_char(s, '\n') {
        None => {},
        Some(i) => {
            lemma_split_lines_len(s.subrange(i + 1, s.len() as int));
        },
    }
}

/// Splitting a sequence without line breaks yields that one line.
pub proof fn lemma_split_lines_single(s: Seq<char>)
    requires
        !contains_char(s, '\n'),
    ensures
        spec_split_lines(s) == seq![s],
{
    lemma_find_char_none(s, '\n');
}

/// Splitting after a first line without line breaks peels off that line.
pub proof fn lemma_split_lines_concat(a: Seq<char>, b: Seq<char>)
    requires
        !contains_char(a, '\n'),
    ensures
        spec_split_lines(a + seq!['\n'] + b) == seq![a] + spec_split_lines(b),
{
    let s = a + seq!['\n'] + b;
    assert(s[a.len() as int] == '\n');
    assert(forall|k: int| 0 <= k < a.len() ==> s[k] != '\n');
    lemma_find_char_at(s, '\n', a.len() as int);
    assert(s.subrange(0, a.len() as int) =~= a);
    assert(s.subrange(a.len() as int + 1, s.len() as int) =~= b);
}

/// The model of joining lines back with `'\n'`: the inverse of
/// `spec_split_lines`.
pub open spec fn spec_join_lines(lines: Seq<Seq<char>>) -> Seq<char>
    decreases lines.len(),
{
    if lines.len() == 0 {
        Seq::empty()
    } else if lines.len() == 1 {
        lines[0]
    } else {
        lines[0] + seq!['\n'] + spec_join_lines(lines.subrange(1, lines.len() as int))
    }
}

/// Joining the split lines reproduces the text that was split.
pub proof fn lemma_join_split_lines(s: Seq<char>)
    ensures
        spec_join_lines(spec_split_lines(s)) == s,
    decreases s.len(),
{
    lemma_find_char(s, '\n');
    match find_char(s, '\n') {
        None => {},
        Some(i) => {
            let rest = s.subrange(i + 1, s.len() as int);
            lemma_join_split_lines(rest);
            lemma_split_lines_len(rest);
            let lines = spec_split_lines(s);
            assert(lines.subrange(1, lines.len() as int) =~= spec_split_lines(rest));
            assert(s.subrange(0, i) + seq!['\n'] + rest =~= s);
        },
    }
}

pub open spec fn is_digit(c: char) -> bool {
    '0' <= c && c <= '9'
}

pub fn is_digit_ch(c: char) -> (r: bool)
    ensures
        r == is_digit(c),
{
    '0' <= c && c <= '9'
}

pub open spec fn all_digits(s: Seq<char>) -> bool {
    forall|i: int| 0 <= i < s.len() ==> is_digit(s[i])
}

pub open spec fn digit_of(c: char) -> nat {
    (c as nat - '0' as nat) as nat
}

/// The numeric value of a sequence of decimal digits.
pub open spec fn digits_value(s: Seq<char>) -> nat
    decreases s.len(),
{
    if s.len() == 0 {
        0
    } else {
        digits_value(s.subrange(0, s.len() - 1)) * 10 + digit_of(s[s.len() - 1])
    }
}

/// A digit sequence is worth at least any of its prefixes.
pub proof fn lemma_digits_value_prefix(s: Seq<char>, i: int)
    requires
        0 <= i <= s.len(),
    ensures
        digits_value(s) >= digits_value(s.subrange(0, i)),
    decreases s.len() - i,
{
    if i < s.len() {
        lemma_digits_value_prefix(s, i + 1);
        let p = s.subrange(0, i + 1);
        assert(p.subrange(0, p.len() - 1) =~= s.subrange(0, i));
        assert(digits_value(p) == digits_value(s.subrange(0, i)) * 10 + digit_of(s[i]));
        assert(digits_value(s.subrange(0, i)) * 10 >= digits_value(s.subrange(0, i)))
            by (nonlinear_arith);
    } else {
        assert(s.subrange(0, s.len() as int) =~= s);
    }
}

/// Whether `s` is a non-empty digit string whose value is below `bound`:
/// the unsigned-integer format accepted for the two fields of a time.
pub open spec fn is_num_lt(s: Seq<char>, bound: nat) -> bool {
    s.len() > 0 && all_digits(s) && digits_value(s) < bound
}

/// Decides `is_num_lt` for the characters `from..to` of `s`.
pub fn parse_num_lt(s: &str, from: usize, to: usize, bound: u32) -> (r: bool)
    requires
        from <= to <= s@.len(),
        0 < bound <= 100,
    ensures
        r == is_num_lt(s@.subrange(from as int, to as int), bound as nat),
{
    let ghost sub = s@.subrange(from as int, to as int);
    if from == to {
        return false;
    }
    let mut v: u32 = 0;
    let mut i: usize = from;
    while i < to
        invariant
            from <= i <= to <= s@.len(),
            sub == s@.subrange(from as int, to as int),
            0 < bound <= 100,
            v < bound,
            v == digits_value(sub.subrange(0, i - from)),
            forall|k: int| 0 <= k < i - from ==> is_digit(sub[k]),
        decreases to - i,
    {
        let c = s.get_char(i);
        assert(c == sub[i - from]);
        if !is_digit_ch(c) {
            return false;
        }
        let d: u32 = (c as u32) - ('0' as u32);
        assert(d == digit_of(c) && d <= 9);
        let next: u32 = v * 10 + d;
        proof {
            assert(sub.subrange(0, i + 1 - from).subrange(0, i - from) =~= sub.subrange(
                0,
                i - from,
            ));
            assert(next == digits_value(sub.subrange(0, i + 1 - from)));
        }
        if next >= bound {
            proof {
                lemma_digits_value_prefix(sub, i + 1 - from);
            }
            return false;
        }
        v = next;
        i = i + 1;
    }
    proof {
        assert(sub.subrange(0, to - from) =~= sub);
    }
    true
}

} // verus!
