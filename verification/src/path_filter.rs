//! L7 path filtering for reverse proxy routes.
//!
//! Matches HTTP method + URL path against glob patterns.
//! `*` matches a single path segment, `**` matches zero or more segments.
//! When no rules are defined, all paths are allowed (open by default).

use vstd::prelude::*;

use crate::config::PathRule;
use crate::segments::{path_segments, seg_views, split_segments};
use crate::text::{
    ascii_case_insensitive_eq, eq_ignore_ascii_case, first_index_of, is_doubled_char,
    is_single_char, prefix_before, str_eq,
};

verus! {

/// The pattern segment that matches exactly one path segment.
pub open spec fn single_star() -> Seq<char> {
    seq!['*']
}

/// The pattern segment that matches zero or more path segments.
pub open spec fn double_star() -> Seq<char> {
    seq!['*', '*']
}

/// Glob semantics of a segment pattern: `**` stands for any number of path
/// segments (none included), `*` for exactly one, and any other pattern
/// segment for a path segment equal to it.
pub open spec fn glob_matches(pattern: Seq<Seq<char>>, path: Seq<Seq<char>>) -> bool
    decreases pattern.len(),
{
    if pattern.len() == 0 {
        path.len() == 0
    } else if pattern[0] == double_star() {
        exists|k: int|
            0 <= k <= path.len() && glob_matches(pattern.drop_first(), #[trigger] path.skip(k))
    } else {
        &&& path.len() > 0
        &&& (pattern[0] == single_star() || pattern[0] == path[0])
        &&& glob_matches(pattern.drop_first(), path.drop_first())
    }
}

/// The two wildcards are different pattern segments.
pub proof fn lemma_single_star_is_not_double_star()
    ensures
        single_star() != double_star(),
{
    assert(single_star().len() != double_star().len());
}

/// A leading `**` either matches no segment, or absorbs the first path
/// segment and stays in place.
pub proof fn lemma_double_star_step(pattern: Seq<Seq<char>>, path: Seq<Seq<char>>)
    requires
        pattern.len() > 0,
        pattern[0] == double_star(),
    ensures
        glob_matches(pattern, path) == (glob_matches(pattern.drop_first(), path) || (path.len()
            > 0 && glob_matches(pattern, path.drop_first()))),
{
    let rest = pattern.drop_first();
    if glob_matches(pattern, path) {
        assert(exists|k: int|
            0 <= k <= path.len() && glob_matches(rest, #[trigger] path.skip(k)));
        let k = choose|k: int| 0 <= k <= path.len() && glob_matches(rest, #[trigger] path.skip(k));
        if k == 0 {
            assert(path.skip(0) =~= path);
        } else {
            assert(path.drop_first().skip(k - 1) =~= path.skip(k));
            assert(glob_matches(rest, path.drop_first().skip(k - 1)));
        }
    }
    if glob_matches(rest, path) {
        assert(path.skip(0) =~= path);
        assert(glob_matches(rest, path.skip(0)));
    }
    if path.len() > 0 && glob_matches(pattern, path.drop_first()) {
        let tail = path.drop_first();
        assert(exists|k: int|
            0 <= k <= tail.len() && glob_matches(rest, #[trigger] tail.skip(k)));
        let k = choose|k: int| 0 <= k <= tail.len() && glob_matches(rest, #[trigger] tail.skip(k));
        assert(tail.skip(k) =~= path.skip(k + 1));
        assert(glob_matches(rest, path.skip(k + 1)));
    }
}

/// Recursive segment matcher supporting `*` (one segment) and `**` (zero or more).
pub fn match_segments(pattern: &[&str], path: &[&str]) -> (matched: bool)
    ensures
        matched == glob_matches(seg_views(pattern@), seg_views(path@)),
    decreases pattern@.len() + path@.len(),
{
    let ghost pv = seg_views(pattern@);
    let ghost sv = seg_views(path@);
    if pattern.len() == 0 {
        return path.len() == 0;
    }
    let first = pattern[0];
    let rest = &pattern[1..pattern.len()];
    assert(seg_views(rest@) =~= pv.drop_first());
    if is_doubled_char(first, '*') {
        proof {
            lemma_double_star_step(pv, sv);
        }
        if match_segments(rest, path) {
            return true;
        }
        if path.len() == 0 {
            return false;
        }
        let tail = &path[1..path.len()];
        assert(seg_views(tail@) =~= sv.drop_first());
        return match_segments(pattern, tail);
    }
    if path.len() == 0 {
        return false;
    }
    let tail = &path[1..path.len()];
    assert(seg_views(tail@) =~= sv.drop_first());
    if is_single_char(first, '*') || str_eq(first, path[0]) {
        match_segments(rest, tail)
    } else {
        false
    }
}

/// Whether every character of `s` is ASCII.
pub open spec fn all_ascii(s: Seq<char>) -> bool {
    forall|i: int| 0 <= i < s.len() ==> (#[trigger] s[i] as int) < 128
}

/// Whether `c` is a hexadecimal digit (either case).
pub open spec fn is_hex_digit(c: char) -> bool {
    let x = c as int;
    (48 <= x <= 57) || (65 <= x <= 70) || (97 <= x <= 102)
}

/// The value of a hexadecimal digit.
pub open spec fn hex_value(c: char) -> int {
    let x = c as int;
    if 48 <= x <= 57 {
        x - 48
    } else if 65 <= x <= 70 {
        x - 55
    } else {
        x - 87
    }
}

/// Whether a `%` followed by two hexadecimal digits starts at position `i`.
pub open spec fn escape_at(s: Seq<char>, i: int) -> bool {
    0 <= i && i + 2 < s.len() && s[i] == '%' && is_hex_digit(s[i + 1]) && is_hex_digit(s[i + 2])
}

/// An ASCII string whose `%XX` escapes all denote ASCII bytes (below 0x80).
pub open spec fn ascii_escapes_only(s: Seq<char>) -> bool {
    &&& all_ascii(s)
    &&& forall|i: int| #[trigger] escape_at(s, i) ==> hex_value(s[i + 1]) < 8
}

/// Percent-decoding read left to right: each `%` followed by two hexadecimal
/// digits becomes the character with that code; every other character,
/// `+` and a `%` that starts no escape included, stays as it is.
pub open spec fn ascii_percent_decode(s: Seq<char>) -> Seq<char>
    decreases s.len(),
{
    if s.len() == 0 {
        seq![]
    } else if escape_at(s, 0) {
        seq![(16 * hex_value(s[1]) + hex_value(s[2])) as char] + ascii_percent_decode(s.skip(3))
    } else {
        seq![s[0]] + ascii_percent_decode(s.drop_first())
    }
}

/// What `urlencoding::decode` gives for a string: the percent-decoded text,
/// or `None` where the decoded bytes are not valid UTF-8.
pub uninterp spec fn percent_decoded(encoded: Seq<char>) -> Option<Seq<char>>;

/// Calls `urlencoding::decode`. Trusted: its result is `percent_decoded` of the
/// input; a string without `%` comes back unchanged (the crate returns the
/// input itself when no `%` occurs); an ASCII string whose escapes all denote
/// ASCII bytes decodes to `ascii_percent_decode` of it (the decoded bytes are
/// then valid UTF-8). What escapes of bytes 0x80 and above, or non-ASCII
/// input, decode to is left to the name and not stated here.
#[verifier::external_body]
fn percent_decode(encoded: &str) -> (decoded: Option<String>)
    ensures
        decoded is Some <==> percent_decoded(encoded@) is Some,
        decoded matches Some(d) ==> percent_decoded(encoded@) == Some(d@),
        decoded is None ==> encoded@.contains('%'),
        decoded matches Some(d) ==> (d@ == encoded@ || encoded@.contains('%')),
        decoded is None ==> !ascii_escapes_only(encoded@),
        decoded matches Some(d) ==> (d@ == ascii_percent_decode(encoded@) || !ascii_escapes_only(
            encoded@,
        )),
{
    match urlencoding::decode(encoded) {
        Ok(d) => Some(d.into_owned()),
        Err(_) => None,
    }
}

/// The request path with its query string (from the first `?` on) removed.
pub open spec fn without_query(path: Seq<char>) -> Seq<char> {
    path.take(first_index_of(path, '?') as int)
}

/// The path that rules are matched against: the request path without its
/// query string, percent-decoded, or left encoded where decoding fails.
pub open spec fn effective_path(path: Seq<char>) -> Seq<char> {
    match percent_decoded(without_query(path)) {
        Some(decoded) => decoded,
        None => without_query(path),
    }
}

/// A rule's method admits a request method: `*` admits any method, any other
/// rule method admits the methods equal to it up to ASCII case.
pub open spec fn method_allowed(rule_method: Seq<char>, method: Seq<char>) -> bool {
    rule_method == single_star() || ascii_case_insensitive_eq(rule_method, method)
}

/// A path glob admits a (decoded) path: their segments match.
pub open spec fn glob_admits(pattern: Seq<char>, path: Seq<char>) -> bool {
    glob_matches(path_segments(pattern), path_segments(path))
}

/// A rule admits a request method together with the path it is matched
/// against (query-free and decoded).
pub open spec fn rule_admits_path(rule: PathRule, method: Seq<char>, seen: Seq<char>) -> bool {
    method_allowed(rule.method@, method) && glob_admits(rule.path@, seen)
}

/// A rule admits a request.
pub open spec fn rule_admits(rule: PathRule, method: Seq<char>, path: Seq<char>) -> bool {
    rule_admits_path(rule, method, effective_path(path))
}

/// A list of rules admits a request method together with the path it is
/// matched against: the list is empty, or one of its rules admits them.
pub open spec fn rules_admit_path(rules: Seq<PathRule>, method: Seq<char>, seen: Seq<char>) -> bool {
    rules.len() == 0 || exists|i: int|
        0 <= i < rules.len() && rule_admits_path(#[trigger] rules[i], method, seen)
}

/// A list of rules admits a request.
pub open spec fn rules_admit(rules: Seq<PathRule>, method: Seq<char>, path: Seq<char>) -> bool {
    rules_admit_path(rules, method, effective_path(path))
}

/// Check if a path glob matches an already decoded, query-free path.
pub fn glob_matches_path(pattern: &str, path: &str) -> (matched: bool)
    ensures
        matched == glob_admits(pattern@, path@),
{
    let pattern_segments = split_segments(pattern);
    let path_segments = split_segments(path);
    match_segments(pattern_segments.as_slice(), path_segments.as_slice())
}

/// Check if a single rule matches the given method and path.
///
/// Percent-decodes the path before matching to prevent bypass via encoding
/// (e.g., `/admin%2Fdanger` is decoded to `/admin/danger` before comparison).
pub fn matches_path_rule(rule: &PathRule, method: &str, path: &str) -> (matched: bool)
    ensures
        matched == rule_admits(*rule, method@, path@),
        !path@.contains('%') ==> matched == rule_admits_path(*rule, method@, without_query(path@)),
        ascii_escapes_only(without_query(path@)) ==> matched == rule_admits_path(
            *rule,
            method@,
            ascii_percent_decode(without_query(path@)),
        ),
{
    // Method check (case-insensitive, "*" = any)
    if !is_single_char(rule.method.as_str(), '*') && !eq_ignore_ascii_case(
        rule.method.as_str(),
        method,
    ) {
        return false;
    }
    // Strip query string before matching
    let clean_path = prefix_before(path, '?');
    proof {
        if !path@.contains('%') && clean_path@.contains('%') {
            let k = choose|k: int| 0 <= k < clean_path@.len() && clean_path@[k] == '%';
            assert(path@[k] == clean_path@[k]);
            assert(path@.contains('%'));
        }
    }
    // Percent-decode to prevent bypass via encoded slashes/dots
    match percent_decode(clean_path) {
        Some(decoded) => glob_matches_path(rule.path.as_str(), decoded.as_str()),
        None => glob_matches_path(rule.path.as_str(), clean_path),
    }
}

/// Check if a request is allowed by the path filter rules.
///
/// Returns `true` if `rules` is empty (no filtering) or if the request
/// matches at least one rule. Returns `false` if rules exist but none match.
pub fn check_path_allowed(rules: &[PathRule], method: &str, path: &str) -> (allowed: bool)
    ensures
        rules@.len() == 0 ==> allowed,
        allowed == rules_admit(rules@, method@, path@),
        !path@.contains('%') ==> allowed == rules_admit_path(rules@, method@, without_query(path@)),
        ascii_escapes_only(without_query(path@)) ==> allowed == rules_admit_path(
            rules@,
            method@,
            ascii_percent_decode(without_query(path@)),
        ),
{
    if rules.len() == 0 {
        return true;
    }
    let n = rules.len();
    for i in 0..n
        invariant
            n == rules@.len(),
            n > 0,
            forall|j: int| 0 <= j < i ==> !rule_admits(#[trigger] rules@[j], method@, path@),
            !path@.contains('%') ==> forall|j: int|
                0 <= j < i ==> !rule_admits_path(#[trigger] rules@[j], method@, without_query(path@)),
            ascii_escapes_only(without_query(path@)) ==> forall|j: int|
                0 <= j < i ==> !rule_admits_path(
                    #[trigger] rules@[j],
                    method@,
                    ascii_percent_decode(without_query(path@)),
                ),
    {
        if matches_path_rule(&rules[i], method, path) {
            return true;
        }
    }
    false
}

} // verus!

verus! {

/// A pattern without wildcard segments.
pub open spec fn is_literal(pattern: Seq<Seq<char>>) -> bool {
    forall|i: int|
        0 <= i < pattern.len() ==> #[trigger] pattern[i] != single_star() && pattern[i]
            != double_star()
}

/// A pattern without wildcards matches exactly the path with the same segments.
pub proof fn law_literal_pattern_matches_itself_only(
    pattern: Seq<Seq<char>>,
    path: Seq<Seq<char>>,
)
    requires
        is_literal(pattern),
    ensures
        glob_matches(pattern, path) <==> pattern == path,
    decreases pattern.len(),
{
    if pattern.len() == 0 {
        if path.len() == 0 {
            assert(path =~= pattern);
        }
    } else {
        assert(pattern[0] != double_star() && pattern[0] != single_star());
        law_literal_pattern_matches_itself_only(pattern.drop_first(), path.drop_first());
        if path.len() > 0 && pattern[0] == path[0] && pattern.drop_first() == path.drop_first() {
            assert forall|i: int| 0 <= i < pattern.len() implies pattern[i] == path[i] by {
                if i > 0 {
                    assert(pattern.drop_first()[i - 1] == path.drop_first()[i - 1]);
                }
            }
            assert(pattern =~= path);
        }
        if pattern == path {
            assert(pattern.drop_first() =~= path.drop_first());
        }
    }
}

/// `*` matches exactly one segment.
pub proof fn law_single_star_matches_one_segment(path: Seq<Seq<char>>)
    ensures
        glob_matches(seq![single_star()], path) <==> path.len() == 1,
{
    let pattern = seq![single_star()];
    lemma_single_star_is_not_double_star();
    assert(pattern[0] != double_star());
    assert(pattern.drop_first() =~= Seq::<Seq<char>>::empty());
    if path.len() > 0 {
        assert(glob_matches(pattern.drop_first(), path.drop_first()) == (path.len() == 1));
    }
}

/// A literal prefix followed by `**` matches exactly the paths that begin
/// with that prefix, whatever follows it (nothing included).
pub proof fn law_prefix_double_star_matches_extensions(
    prefix: Seq<Seq<char>>,
    path: Seq<Seq<char>>,
)
    requires
        is_literal(prefix),
    ensures
        glob_matches(prefix.push(double_star()), path) <==> (prefix.len() <= path.len()
            && path.take(prefix.len() as int) == prefix),
    decreases prefix.len(),
{
    let pattern = prefix.push(double_star());
    if prefix.len() == 0 {
        assert(pattern[0] == double_star());
        assert(pattern.drop_first() =~= Seq::<Seq<char>>::empty());
        assert(path.skip(path.len() as int) =~= Seq::<Seq<char>>::empty());
        assert(glob_matches(pattern.drop_first(), path.skip(path.len() as int)));
        assert(path.take(0) =~= prefix);
    } else {
        assert(pattern[0] == prefix[0]);
        assert(prefix[0] != double_star() && prefix[0] != single_star());
        assert(pattern.drop_first() =~= prefix.drop_first().push(double_star()));
        law_prefix_double_star_matches_extensions(prefix.drop_first(), path.drop_first());
        if path.len() > 0 {
            let n = prefix.len() as int;
            if path.take(n) == prefix && n <= path.len() {
                assert(path.drop_first().take(n - 1) =~= prefix.drop_first());
            }
            if n <= path.len() && path[0] == prefix[0] && path.drop_first().take(n - 1)
                == prefix.drop_first() {
                assert forall|i: int| 0 <= i < n implies path.take(n)[i] == prefix[i] by {
                    if i > 0 {
                        assert(path.drop_first().take(n - 1)[i - 1] == prefix.drop_first()[i
                            - 1]);
                    }
                }
                assert(path.take(n) =~= prefix);
            }
            if n <= path.len() && path.take(n) == prefix {
                assert(path.take(n)[0] == path[0]);
            }
        }
    }
}

} // verus!

verus! {

/// A query string never changes whether a request is allowed: the path is
/// matched as if everything from the first `?` on were absent.
pub proof fn law_query_string_ignored(
    rules: Seq<PathRule>,
    method: Seq<char>,
    path: Seq<char>,
    query: Seq<char>,
)
    requires
        !path.contains('?'),
    ensures
        rules_admit(rules, method, path + seq!['?'] + query) == rules_admit(rules, method, path),
{
    let full = path + seq!['?'] + query;
    assert forall|k: int| 0 <= k < path.len() implies full[k] != '?' by {
        assert(full[k] == path[k]);
    }
    assert(full[path.len() as int] == '?');
    crate::text::lemma_first_index_of(full, '?', path.len() as int);
    crate::text::lemma_first_index_of(path, '?', path.len() as int);
    assert(without_query(full) =~= without_query(path));
    assert(effective_path(full) == effective_path(path));
}

/// A rule whose method is `*` treats every request method alike.
pub proof fn law_star_method_admits_any_method(
    rule: PathRule,
    method1: Seq<char>,
    method2: Seq<char>,
    path: Seq<char>,
)
    requires
        rule.method@ == single_star(),
    ensures
        rule_admits(rule, method1, path) == rule_admits(rule, method2, path),
        rule_admits(rule, method1, path) == glob_admits(rule.path@, effective_path(path)),
{
}

/// Methods that differ only in the case of ASCII letters are treated alike.
pub proof fn law_method_case_insensitive(
    rule: PathRule,
    method1: Seq<char>,
    method2: Seq<char>,
    path: Seq<char>,
)
    requires
        ascii_case_insensitive_eq(method1, method2),
    ensures
        rule_admits(rule, method1, path) == rule_admits(rule, method2, path),
{
    let rm = rule.method@;
    if ascii_case_insensitive_eq(rm, method1) {
        assert forall|i: int| 0 <= i < rm.len() implies crate::text::ascii_lower(#[trigger] rm[i])
            == crate::text::ascii_lower(method2[i]) by {
            assert(crate::text::ascii_lower(rm[i]) == crate::text::ascii_lower(method1[i]));
            assert(crate::text::ascii_lower(method1[i]) == crate::text::ascii_lower(method2[i]));
        }
    }
    if ascii_case_insensitive_eq(rm, method2) {
        assert forall|i: int| 0 <= i < rm.len() implies crate::text::ascii_lower(#[trigger] rm[i])
            == crate::text::ascii_lower(method1[i]) by {
            assert(crate::text::ascii_lower(rm[i]) == crate::text::ascii_lower(method2[i]));
            assert(crate::text::ascii_lower(method1[i]) == crate::text::ascii_lower(method2[i]));
        }
    }
}

/// With a single rule, the request is allowed exactly when that rule admits it.
pub proof fn law_single_rule(rule: PathRule, method: Seq<char>, path: Seq<char>)
    ensures
        rules_admit(seq![rule], method, path) == rule_admits(rule, method, path),
{
    let rules = seq![rule];
    if rule_admits(rule, method, path) {
        assert(rule_admits(rules[0], method, path));
    }
}

} // verus!

verus! {

/// Adding a rule to a non-empty rule list never denies a request that the
/// list allowed. (An empty list allows everything, so adding its first rule
/// can deny.)
pub proof fn law_adding_rule_keeps_allowed(
    rules: Seq<PathRule>,
    extra: PathRule,
    method: Seq<char>,
    path: Seq<char>,
)
    requires
        rules.len() > 0,
        rules_admit(rules, method, path),
    ensures
        rules_admit(rules.push(extra), method, path),
{
    let i = choose|i: int| 0 <= i < rules.len() && rule_admits(#[trigger] rules[i], method, path);
    assert(rules.push(extra)[i] == rules[i]);
}

} // verus!

verus! {

/// The empty pattern matches exactly the empty path.
pub proof fn law_empty_pattern_matches_empty_path_only(path: Seq<Seq<char>>)
    ensures
        glob_matches(Seq::<Seq<char>>::empty(), path) <==> path.len() == 0,
{
}

/// A leading `*` consumes exactly one path segment, whatever follows it.
pub proof fn law_leading_single_star(rest: Seq<Seq<char>>, path: Seq<Seq<char>>)
    ensures
        glob_matches(seq![single_star()] + rest, path) == (path.len() > 0 && glob_matches(
            rest,
            path.drop_first(),
        )),
{
    let pattern = seq![single_star()] + rest;
    lemma_single_star_is_not_double_star();
    assert(pattern[0] == single_star());
    assert(pattern.drop_first() =~= rest);
}

/// A leading segment other than a wildcard consumes exactly one path segment,
/// which must equal it.
pub proof fn law_leading_literal_segment(
    segment: Seq<char>,
    rest: Seq<Seq<char>>,
    path: Seq<Seq<char>>,
)
    requires
        segment != single_star(),
        segment != double_star(),
    ensures
        glob_matches(seq![segment] + rest, path) == (path.len() > 0 && path[0] == segment
            && glob_matches(rest, path.drop_first())),
{
    let pattern = seq![segment] + rest;
    assert(pattern[0] == segment);
    assert(pattern.drop_first() =~= rest);
}

/// A leading `**` matches when the rest of the pattern matches what remains
/// after dropping some number of leading path segments (zero to all of them).
pub proof fn law_leading_double_star(rest: Seq<Seq<char>>, path: Seq<Seq<char>>)
    ensures
        glob_matches(seq![double_star()] + rest, path) <==> exists|k: int|
            0 <= k <= path.len() && glob_matches(rest, #[trigger] path.skip(k)),
{
    let pattern = seq![double_star()] + rest;
    assert(pattern[0] == double_star());
    assert(pattern.drop_first() =~= rest);
}

/// A segment glob admits a path exactly when the pattern's segments match
/// the path's segments.
pub proof fn law_glob_admits_by_segments(pattern: Seq<char>, path: Seq<char>)
    ensures
        glob_admits(pattern, path) == glob_matches(path_segments(pattern), path_segments(path)),
{
}

/// A `*` rule method admits every method; any other rule method admits
/// exactly the methods equal to it up to ASCII case.
pub proof fn law_method_allowed(rule_method: Seq<char>, method: Seq<char>)
    ensures
        rule_method == seq!['*'] ==> method_allowed(rule_method, method),
        rule_method != seq!['*'] ==> (method_allowed(rule_method, method)
            <==> ascii_case_insensitive_eq(rule_method, method)),
{
}

/// Rules are matched against the query-free path, percent-decoded when
/// decoding succeeds and as sent otherwise.
pub proof fn law_effective_path(path: Seq<char>)
    ensures
        percent_decoded(without_query(path)) matches Some(d) ==> effective_path(path) == d,
        percent_decoded(without_query(path)) is None ==> effective_path(path) == without_query(
            path,
        ),
{
}

/// A path without `?` has no query string to remove.
pub proof fn law_without_query_plain(path: Seq<char>)
    requires
        !path.contains('?'),
    ensures
        without_query(path) == path,
{
    crate::text::lemma_first_index_of(path, '?', path.len() as int);
    assert(path.take(path.len() as int) =~= path);
}

/// Everything from the first `?` on is the query string and is removed.
pub proof fn law_without_query_cuts_at_first_question_mark(path: Seq<char>, query: Seq<char>)
    requires
        !path.contains('?'),
    ensures
        without_query(path + seq!['?'] + query) == path,
{
    let full = path + seq!['?'] + query;
    assert forall|k: int| 0 <= k < path.len() implies full[k] != '?' by {
        assert(full[k] == path[k]);
    }
    assert(full[path.len() as int] == '?');
    crate::text::lemma_first_index_of(full, '?', path.len() as int);
    assert(full.take(path.len() as int) =~= path);
}

/// A rule admits a request exactly when its method admits the request method
/// and its path glob admits the path that rules are matched against.
pub proof fn law_rule_admits(rule: PathRule, method: Seq<char>, path: Seq<char>)
    ensures
        rule_admits(rule, method, path) == (method_allowed(rule.method@, method) && glob_admits(
            rule.path@,
            effective_path(path),
        )),
{
}

/// A non-empty rule list allows a request exactly when some rule, at any
/// position, admits it by method and by path.
pub proof fn law_allowed_iff_some_rule_admits(
    rules: Seq<PathRule>,
    method: Seq<char>,
    path: Seq<char>,
)
    requires
        rules.len() > 0,
    ensures
        rules_admit(rules, method, path) <==> exists|k: int|
            0 <= k < rules.len() && method_allowed(#[trigger] rules[k].method@, method)
                && glob_admits(rules[k].path@, effective_path(path)),
{
    let seen = effective_path(path);
    if rules_admit(rules, method, path) {
        let k = choose|k: int|
            0 <= k < rules.len() && rule_admits_path(#[trigger] rules[k], method, seen);
        assert(method_allowed(rules[k].method@, method) && glob_admits(rules[k].path@, seen));
    }
    if exists|k: int|
        0 <= k < rules.len() && method_allowed(#[trigger] rules[k].method@, method)
            && glob_admits(rules[k].path@, seen) {
        let k = choose|k: int|
            0 <= k < rules.len() && method_allowed(#[trigger] rules[k].method@, method)
                && glob_admits(rules[k].path@, seen);
        assert(rule_admits_path(rules[k], method, seen));
    }
}

/// Any rule that admits a request allows it, whatever rules precede it.
pub proof fn law_any_admitting_rule_allows(
    rules: Seq<PathRule>,
    k: int,
    method: Seq<char>,
    path: Seq<char>,
)
    requires
        0 <= k < rules.len(),
        method_allowed(rules[k].method@, method),
        glob_admits(rules[k].path@, effective_path(path)),
    ensures
        rules_admit(rules, method, path),
{
    law_allowed_iff_some_rule_admits(rules, method, path);
}

/// An empty rule list allows every request.
pub proof fn law_no_rules_allow_all(method: Seq<char>, path: Seq<char>)
    ensures
        rules_admit(Seq::<PathRule>::empty(), method, path),
{
}

} // verus!

verus! {

/// Text without `%` decodes to itself.
pub proof fn law_decode_without_percent_is_identity(s: Seq<char>)
    requires
        !s.contains('%'),
    ensures
        ascii_percent_decode(s) == s,
    decreases s.len(),
{
    if s.len() > 0 {
        assert(s[0] != '%') by {
            if s[0] == '%' {
                assert(s.contains('%'));
            }
        }
        let t = s.drop_first();
        assert(!t.contains('%')) by {
            if t.contains('%') {
                let k = choose|k: int| 0 <= k < t.len() && t[k] == '%';
                assert(s[k + 1] == '%');
            }
        }
        law_decode_without_percent_is_identity(t);
        assert(seq![s[0]] + t =~= s);
    }
}

} // verus!
