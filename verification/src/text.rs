//! Character-level helpers on strings.

use vstd::prelude::*;
use vstd::string::StrSliceExecFns;

verus! {

broadcast use vstd::string::group_string_axioms;

/// The characters of `s`, in order.
pub fn chars_of(s: &str) -> (chars: Vec<char>)
    ensures
        chars@ == s@,
{
    let mut chars: Vec<char> = Vec::new();
    for c in it: s.chars()
        invariant
            chars@ == it.seq().take(it.index()),
    {
        chars.push(c);
    }
    chars
}

/// Whether `a` and `b` hold the same characters.
pub fn str_eq(a: &str, b: &str) -> (same: bool)
    ensures
        same == (a@ == b@),
{
    let ac = chars_of(a);
    let bc = chars_of(b);
    if ac.len() != bc.len() {
        return false;
    }
    let n = ac.len();
    for i in 0..n
        invariant
            ac@ == a@,
            bc@ == b@,
            n == ac@.len(),
            n == bc@.len(),
            forall|j: int| 0 <= j < i ==> ac@[j] == bc@[j],
    {
        if ac[i] != bc[i] {
            assert(a@[i as int] != b@[i as int]);
            return false;
        }
    }
    assert(ac@ =~= bc@);
    true
}

/// Whether `s` is exactly the one-character string `c`.
pub fn is_single_char(s: &str, c: char) -> (is: bool)
    ensures
        is == (s@ == seq![c]),
{
    let sc = chars_of(s);
    if sc.len() == 1 && sc[0] == c {
        assert(sc@ =~= seq![c]);
        true
    } else {
        false
    }
}

/// Whether `s` is exactly the two-character string `c` `c`.
pub fn is_doubled_char(s: &str, c: char) -> (is: bool)
    ensures
        is == (s@ == seq![c, c]),
{
    let sc = chars_of(s);
    if sc.len() == 2 && sc[0] == c && sc[1] == c {
        assert(sc@ =~= seq![c, c]);
        true
    } else {
        false
    }
}

} // verus!

verus! {

/// The code point of `c` with ASCII upper-case letters mapped to lower case.
pub open spec fn ascii_lower(c: char) -> int {
    if 65 <= (c as int) <= 90 {
        (c as int) + 32
    } else {
        c as int
    }
}

/// ASCII case-insensitive equality of two character sequences.
pub open spec fn ascii_case_insensitive_eq(a: Seq<char>, b: Seq<char>) -> bool {
    &&& a.len() == b.len()
    &&& forall|i: int| 0 <= i < a.len() ==> ascii_lower(#[trigger] a[i]) == ascii_lower(b[i])
}

fn lower_code(c: char) -> (code: u32)
    ensures
        code == ascii_lower(c),
{
    let x = c as u32;
    if 65 <= x && x <= 90 {
        x + 32
    } else {
        x
    }
}

/// Whether `a` and `b` are equal when ASCII letters are compared without
/// regard to case.
pub fn eq_ignore_ascii_case(a: &str, b: &str) -> (same: bool)
    ensures
        same == ascii_case_insensitive_eq(a@, b@),
{
    let ac = chars_of(a);
    let bc = chars_of(b);
    if ac.len() != bc.len() {
        return false;
    }
    let n = ac.len();
    for i in 0..n
        invariant
            ac@ == a@,
            bc@ == b@,
            n == ac@.len(),
            n == bc@.len(),
            forall|j: int| 0 <= j < i ==> ascii_lower(#[trigger] a@[j]) == ascii_lower(b@[j]),
    {
        if lower_code(ac[i]) != lower_code(bc[i]) {
            assert(ascii_lower(a@[i as int]) != ascii_lower(b@[i as int]));
            return false;
        }
    }
    true
}

/// Index of the first occurrence of `c` in `s`, or the length of `s` when
/// `c` does not occur.
pub open spec fn first_index_of(s: Seq<char>, c: char) -> nat
    decreases s.len(),
{
    if s.len() == 0 {
        0
    } else if s[0] == c {
        0
    } else {
        1 + first_index_of(s.drop_first(), c)
    }
}

/// `first_index_of` is the position at which `c` first occurs.
pub proof fn lemma_first_index_of(s: Seq<char>, c: char, q: int)
    requires
        0 <= q <= s.len(),
        forall|k: int| 0 <= k < q ==> s[k] != c,
        q == s.len() || s[q] == c,
    ensures
        first_index_of(s, c) == q,
    decreases q,
{
    if q > 0 {
        lemma_first_index_of(s.drop_first(), c, q - 1);
    }
}

/// The part of `s` before the first `c`, all of `s` when there is none.
pub fn prefix_before(s: &str, c: char) -> (prefix: &str)
    ensures
        first_index_of(s@, c) <= s@.len(),
        prefix@ == s@.take(first_index_of(s@, c) as int),
{
    let sc = chars_of(s);
    let n = sc.len();
    let mut q: usize = 0;
    while q < n && sc[q] != c
        invariant
            sc@ == s@,
            n == s@.len(),
            q <= n,
            forall|k: int| 0 <= k < q ==> s@[k] != c,
        decreases n - q,
    {
        q += 1;
    }
    proof {
        lemma_first_index_of(s@, c, q as int);
    }
    s.substring_char(0, q)
}

} // verus!

verus! {

/// Two characters fold to the same code exactly when they are equal or are
/// the upper- and lower-case forms of one ASCII letter.
pub proof fn law_ascii_case_fold(c: char, d: char)
    ensures
        ascii_lower(c) == ascii_lower(d) <==> (c == d || (65 <= (c as int) <= 90 && (d as int) == (
        c as int) + 32) || (65 <= (d as int) <= 90 && (c as int) == (d as int) + 32)),
{
}

} // verus!
