use nono_proxy::config::PathRule;
use nono_proxy::path_filter::{check_path_allowed, matches_path_rule};

fn rule(method: &str, path: &str) -> PathRule {
    PathRule {
        method: method.to_string(),
        path: path.to_string(),
    }
}

#[test]
fn test_matches_exact_path() {
    let rule = rule("GET", "/api/v4/version");
    assert!(matches_path_rule(&rule, "GET", "/api/v4/version"));
    assert!(!matches_path_rule(&rule, "POST", "/api/v4/version"));
    assert!(!matches_path_rule(&rule, "GET", "/api/v4/other"));
}

#[test]
fn test_single_wildcard_matches_one_segment() {
    let rule = rule("GET", "/api/v4/projects/*/merge_requests");
    assert!(matches_path_rule(
        &rule,
        "GET",
        "/api/v4/projects/123/merge_requests"
    ));
    assert!(matches_path_rule(
        &rule,
        "GET",
        "/api/v4/projects/my-proj/merge_requests"
    ));
    assert!(!matches_path_rule(
        &rule,
        "GET",
        "/api/v4/projects/123/456/merge_requests"
    ));
}

#[test]
fn test_double_wildcard_matches_multiple_segments() {
    let rule = rule("GET", "/api/v4/projects/**");
    assert!(matches_path_rule(&rule, "GET", "/api/v4/projects/123"));
    assert!(matches_path_rule(
        &rule,
        "GET",
        "/api/v4/projects/123/merge_requests/456"
    ));
    assert!(!matches_path_rule(&rule, "GET", "/api/v4/groups/123"));
}

#[test]
fn test_wildcard_method() {
    let rule = rule("*", "/api/v4/version");
    assert!(matches_path_rule(&rule, "GET", "/api/v4/version"));
    assert!(matches_path_rule(&rule, "POST", "/api/v4/version"));
    assert!(matches_path_rule(&rule, "DELETE", "/api/v4/version"));
}

#[test]
fn test_method_case_insensitive() {
    let rule = rule("get", "/api");
    assert!(matches_path_rule(&rule, "GET", "/api"));
}

#[test]
fn test_check_path_allowed_empty_rules_allows_all() {
    assert!(check_path_allowed(&[], "GET", "/anything"));
}

#[test]
fn test_check_path_allowed_denies_unmatched() {
    let rules = vec![rule("GET", "/api/v4/projects/*/merge_requests")];
    assert!(check_path_allowed(
        &rules,
        "GET",
        "/api/v4/projects/123/merge_requests"
    ));
    assert!(!check_path_allowed(&rules, "DELETE", "/api/v4/projects/123"));
}

#[test]
fn test_query_string_stripped_before_matching() {
    let rule = rule("GET", "/api/v4/version");
    assert!(matches_path_rule(
        &rule,
        "GET",
        "/api/v4/version?private_token=xxx"
    ));
}

#[test]
fn test_percent_encoded_path_decoded_before_matching() {
    let rules = vec![rule("GET", "/api/v4/projects/**")];
    // %2F = /, so /api%2Fv4%2Fprojects%2F123 decodes to /api/v4/projects/123
    assert!(check_path_allowed(
        &rules,
        "GET",
        "/api%2Fv4%2Fprojects%2F123"
    ));
}

#[test]
fn test_encoded_traversal_blocked() {
    // Rule only allows /mcp/**
    let rules = vec![rule("GET", "/mcp/**")];
    // %2e%2e = "..", decoded path = /../admin: segments [.., admin]
    assert!(!check_path_allowed(&rules, "GET", "/admin"));
    assert!(!check_path_allowed(&rules, "GET", "/%2e%2e/admin"));
    assert!(check_path_allowed(&rules, "GET", "/mcp/tools"));
}

#[test]
fn test_double_encoded_slash_normalized() {
    let rules = vec![rule("DELETE", "/admin/**")];
    // After decode: /safe/../admin/danger: segments [safe, .., admin, danger]
    // Does NOT match /admin/** (first segment is "safe", not "admin")
    assert!(!check_path_allowed(
        &rules,
        "DELETE",
        "/safe%2F..%2Fadmin/danger"
    ));
    // Direct match still works
    assert!(check_path_allowed(&rules, "DELETE", "/admin/users"));
}

use nono_proxy::path_filter::{glob_matches_path, match_segments};
use nono_proxy::segments::split_segments;

#[test]
fn double_wildcard_matches_zero_segments() {
    let rule = rule("GET", "/api/v4/projects/**");
    assert!(matches_path_rule(&rule, "GET", "/api/v4/projects"));
    assert!(matches_path_rule(&rule, "GET", "/api/v4/projects/"));
    assert!(!matches_path_rule(&rule, "GET", "/api/v4"));
}

#[test]
fn single_wildcard_needs_exactly_one_segment() {
    let rule = rule("GET", "/api/*");
    assert!(matches_path_rule(&rule, "GET", "/api/x"));
    assert!(!matches_path_rule(&rule, "GET", "/api"));
    assert!(!matches_path_rule(&rule, "GET", "/api/x/y"));
}

#[test]
fn double_wildcard_in_the_middle() {
    let rule = rule("GET", "/a/**/z");
    assert!(matches_path_rule(&rule, "GET", "/a/z"));
    assert!(matches_path_rule(&rule, "GET", "/a/b/c/z"));
    assert!(!matches_path_rule(&rule, "GET", "/a/b/c"));
    assert!(!matches_path_rule(&rule, "GET", "/b/z"));
}

#[test]
fn empty_segments_are_ignored() {
    let rule = rule("GET", "/api/v4/version");
    assert!(matches_path_rule(&rule, "GET", "api/v4/version"));
    assert!(matches_path_rule(&rule, "GET", "//api//v4/version/"));
    let root = rule_for_root();
    assert!(matches_path_rule(&root, "GET", "/"));
    assert!(matches_path_rule(&root, "GET", ""));
    assert!(!matches_path_rule(&root, "GET", "/x"));
}

fn rule_for_root() -> PathRule {
    rule("GET", "/")
}

#[test]
fn method_case_insensitive_both_ways() {
    let upper = rule("DELETE", "/x");
    assert!(matches_path_rule(&upper, "delete", "/x"));
    assert!(matches_path_rule(&upper, "DeLeTe", "/x"));
    assert!(!matches_path_rule(&upper, "DELET", "/x"));
    assert!(!matches_path_rule(&upper, "*", "/x"));
}

#[test]
fn literal_star_segment_in_rule_still_a_wildcard() {
    let rule = rule("GET", "/files/*");
    assert!(matches_path_rule(&rule, "GET", "/files/*"));
    assert!(matches_path_rule(&rule, "GET", "/files/readme"));
}

#[test]
fn percent_escape_decoded_to_letter() {
    let rule = rule("GET", "/Api");
    assert!(matches_path_rule(&rule, "GET", "/%41pi"));
    assert!(!matches_path_rule(&rule, "GET", "/%42pi"));
}

#[test]
fn undecodable_path_matched_as_sent() {
    // %FF is not valid UTF-8 once decoded, so the raw path is matched.
    let rule = rule("GET", "/a/%FF");
    assert!(matches_path_rule(&rule, "GET", "/a/%FF"));
    let decoded_rule = PathRule {
        method: "GET".to_string(),
        path: "/a/\u{FF}".to_string(),
    };
    assert!(!matches_path_rule(&decoded_rule, "GET", "/a/%FF"));
}

#[test]
fn query_after_encoded_path() {
    let rules = vec![rule("GET", "/api/v4/projects/**")];
    assert!(check_path_allowed(&rules, "GET", "/api%2Fv4%2Fprojects?x=%2F"));
    assert!(!check_path_allowed(&rules, "GET", "/api?/v4/projects"));
}

#[test]
fn any_rule_suffices() {
    let rules = vec![rule("POST", "/a"), rule("GET", "/b/**"), rule("*", "/c")];
    assert!(check_path_allowed(&rules, "GET", "/b/1/2"));
    assert!(check_path_allowed(&rules, "PUT", "/c"));
    assert!(check_path_allowed(&rules, "post", "/a"));
    assert!(!check_path_allowed(&rules, "GET", "/a"));
    assert!(!check_path_allowed(&rules, "POST", "/d"));
}

#[test]
fn segment_matcher_direct() {
    assert!(match_segments(&[], &[]));
    assert!(!match_segments(&[], &["a"]));
    assert!(match_segments(&["**"], &[]));
    assert!(match_segments(&["**", "b", "**"], &["a", "b", "c"]));
    assert!(!match_segments(&["**", "b", "*"], &["a", "b"]));
    assert!(match_segments(&["a", "*", "c"], &["a", "x", "c"]));
    assert!(!match_segments(&["a", "*", "c"], &["a", "c"]));
}

#[test]
fn split_drops_empty_pieces() {
    assert_eq!(split_segments("//a///b/"), vec!["a", "b"]);
    assert_eq!(split_segments("/"), Vec::<&str>::new());
    assert_eq!(split_segments("x"), vec!["x"]);
    assert_eq!(split_segments("/é/ü?"), vec!["é", "ü?"]);
}

#[test]
fn glob_on_decoded_paths() {
    assert!(glob_matches_path("/api/**", "/api/a%2Fb"));
    assert!(!glob_matches_path("/api/*", "/api/a/b"));
    assert!(glob_matches_path("/api/*/b", "/api/a/b"));
}

#[test]
fn adding_a_rule_keeps_allowed_requests() {
    let one = vec![rule("GET", "/a/**")];
    let two = vec![rule("GET", "/a/**"), rule("POST", "/b")];
    assert!(check_path_allowed(&one, "GET", "/a/x"));
    assert!(check_path_allowed(&two, "GET", "/a/x"));
    // The first rule of an empty list can deny what the empty list allowed.
    assert!(check_path_allowed(&[], "GET", "/c"));
    assert!(!check_path_allowed(&one, "GET", "/c"));
}

#[test]
fn plus_kept_and_escaped_plus_decoded() {
    let rule = rule("GET", "/a+b");
    assert!(matches_path_rule(&rule, "GET", "/a+b"));
    assert!(matches_path_rule(&rule, "GET", "/a%2Bb"));
    assert!(matches_path_rule(&rule, "GET", "/a%2bb"));
    assert!(!matches_path_rule(&rule, "GET", "/a%20b"));
}

#[test]
fn percent_without_escape_kept() {
    let rule = rule("GET", "/100%/x%zz");
    assert!(matches_path_rule(&rule, "GET", "/100%/x%zz"));
}
