//! The policy engine's matching core.  A rule is a `(path pattern, allowed
//! principals)` pair; a rule list is scanned in order and the first matching
//! rule decides.  Rule lists are kept sorted by descending pattern length, so
//! the first match is always the most specific one.
//!
//! Pattern semantics: a pattern grants an exact match; a pattern ending in
//! `/` also matches every path it prefixes; a pattern ending in `*` matches
//! every path that starts with the pattern minus its trailing `*`s.  A rule's
//! principal set grants a username it contains, and grants everyone —
//! anonymous callers included — when it contains `*`.

use vstd::prelude::*;
use vstd::string::StrSliceExecFns;

use crate::strutil::{contains_string, str_ends_with_char, str_eq, str_starts_with};

verus! {

/// `pattern` with every trailing `*` removed.
pub open spec fn trim_trailing_stars(pattern: Seq<char>) -> Seq<char>
    decreases pattern.len(),
{
    if pattern.len() > 0 && pattern.last() == '*' {
        trim_trailing_stars(pattern.drop_last())
    } else {
        pattern
    }
}

/// Whether a rule's pattern matches a request path: exactly, as a
/// `/`-terminated directory prefix, or as a `*`-terminated wildcard prefix.
pub open spec fn pattern_matches(pattern: Seq<char>, path: Seq<char>) -> bool {
    ||| pattern == path
    ||| (pattern.len() > 0 && pattern.last() == '/' && pattern.is_prefix_of(path))
    ||| (pattern.len() > 0 && pattern.last() == '*' && trim_trailing_stars(
        pattern,
    ).is_prefix_of(path))
}

/// Whether a principal set grants access to `username`: it lists the
/// wildcard `*`, or it lists the (present) username itself.
pub open spec fn rule_grants(principals: Seq<Seq<char>>, username: Option<Seq<char>>) -> bool {
    ||| principals.contains("*"@)
    ||| (username matches Some(u) && principals.contains(u))
}

/// The verdict of a rule list on `(path, username)`: the grant decision of
/// the first rule whose pattern matches, and a denial when none matches.
pub open spec fn table_verdict(
    rules: Seq<(Seq<char>, Seq<Seq<char>>)>,
    path: Seq<char>,
    username: Option<Seq<char>>,
) -> bool
    decreases rules.len(),
{
    if rules.len() == 0 {
        false
    } else if pattern_matches(rules.first().0, path) {
        rule_grants(rules.first().1, username)
    } else {
        table_verdict(rules.drop_first(), path, username)
    }
}

/// Index of the first rule whose pattern matches `path`; `rules.len()` when
/// none does.
pub open spec fn first_match_index(rules: Seq<(Seq<char>, Seq<Seq<char>>)>, path: Seq<char>) -> int
    decreases rules.len(),
{
    if rules.len() == 0 {
        0
    } else if pattern_matches(rules.first().0, path) {
        0
    } else {
        1 + first_match_index(rules.drop_first(), path)
    }
}

/// Rules ordered by descending pattern length, most specific first.
pub open spec fn sorted_by_len_desc(rules: Seq<(Seq<char>, Seq<Seq<char>>)>) -> bool {
    forall|i: int, j: int|
        0 <= i < j < rules.len() ==> #[trigger] rules[i].0.len() >= #[trigger] rules[j].0.len()
}

/// The view of one stored rule.
pub open spec fn rule_view(r: (String, Vec<String>)) -> (Seq<char>, Seq<Seq<char>>) {
    (r.0@, r.1.deep_view())
}

/// The view of a stored rule list.
pub open spec fn rules_view(rs: Seq<(String, Vec<String>)>) -> Seq<(Seq<char>, Seq<Seq<char>>)> {
    rs.map_values(|r: (String, Vec<String>)| rule_view(r))
}

/// The view of an optional string slice.
pub open spec fn opt_str_view(u: Option<&str>) -> Option<Seq<char>> {
    match u {
        Some(s) => Some(s@),
        None => None,
    }
}

/// `first_match_index` points at a matching rule preceded only by
/// non-matching ones, and the verdict is that rule's grant decision.
pub proof fn lemma_first_match_index(
    rules: Seq<(Seq<char>, Seq<Seq<char>>)>,
    path: Seq<char>,
    username: Option<Seq<char>>,
)
    ensures
        0 <= first_match_index(rules, path) <= rules.len(),
        first_match_index(rules, path) < rules.len() ==> pattern_matches(
            rules[first_match_index(rules, path)].0,
            path,
        ),
        forall|j: int|
            0 <= j < first_match_index(rules, path) ==> !pattern_matches(
                #[trigger] rules[j].0,
                path,
            ),
        table_verdict(rules, path, username) == if first_match_index(rules, path) < rules.len() {
            rule_grants(rules[first_match_index(rules, path)].1, username)
        } else {
            false
        },
    decreases rules.len(),
{
    if rules.len() == 0 {
    } else if pattern_matches(rules.first().0, path) {
    } else {
        lemma_first_match_index(rules.drop_first(), path, username);
        let sub = rules.drop_first();
        assert forall|j: int| 0 <= j < first_match_index(rules, path) implies !pattern_matches(
            #[trigger] rules[j].0,
            path,
        ) by {
            if j > 0 {
                assert(sub[j - 1] == rules[j]);
            }
        }
        if first_match_index(sub, path) < sub.len() {
            assert(sub[first_match_index(sub, path)] == rules[first_match_index(rules, path)]);
        }
    }
}

/// If some rule matches, the first match comes no later.
pub proof fn lemma_match_bounds_first_index(
    rules: Seq<(Seq<char>, Seq<Seq<char>>)>,
    path: Seq<char>,
    i: int,
)
    requires
        0 <= i < rules.len(),
        pattern_matches(rules[i].0, path),
    ensures
        first_match_index(rules, path) <= i,
    decreases rules.len(),
{
    if rules.len() == 0 {
    } else if pattern_matches(rules.first().0, path) {
    } else {
        assert(i != 0);
        assert(rules.drop_first()[i - 1] == rules[i]);
        lemma_match_bounds_first_index(rules.drop_first(), path, i - 1);
    }
}

/// Specificity is respected: when a sorted rule list holds a rule whose
/// pattern equals the path exactly, the verdict is decided by a rule whose
/// pattern is at least as long as the path.  No shorter — less specific —
/// prefix rule can override an exact-path rule.
pub proof fn lemma_exact_rule_never_overridden(
    rules: Seq<(Seq<char>, Seq<Seq<char>>)>,
    path: Seq<char>,
    username: Option<Seq<char>>,
    i: int,
)
    requires
        sorted_by_len_desc(rules),
        0 <= i < rules.len(),
        rules[i].0 == path,
    ensures
        first_match_index(rules, path) <= i,
        rules[first_match_index(rules, path)].0.len() >= path.len(),
        table_verdict(rules, path, username) == rule_grants(
            rules[first_match_index(rules, path)].1,
            username,
        ),
{
    assert(pattern_matches(rules[i].0, path));
    lemma_match_bounds_first_index(rules, path, i);
    lemma_first_match_index(rules, path, username);
    let k = first_match_index(rules, path);
    if k < i {
        assert(rules[k].0.len() >= rules[i].0.len());
    }
}

/// `trim_trailing_stars(p)` equals `p` truncated to `k` characters, whenever
/// everything from `k` on is a `*` and position `k - 1` (if any) is not.
proof fn lemma_trim_take(p: Seq<char>, k: int)
    requires
        0 <= k <= p.len(),
        forall|j: int| k <= j < p.len() ==> p[j] == '*',
        k > 0 ==> p[k - 1] != '*',
    ensures
        trim_trailing_stars(p) == p.take(k),
    decreases p.len(),
{
    if p.len() > 0 && p.last() == '*' {
        assert(k < p.len());
        lemma_trim_take(p.drop_last(), k);
        assert(p.drop_last().take(k) =~= p.take(k));
    } else {
        assert(k == p.len());
        assert(p.take(k) =~= p);
    }
}

/// Returns `pattern` with its trailing `*`s removed.
fn trim_star_suffix(pattern: &str) -> (r: &str)
    ensures
        r@ == trim_trailing_stars(pattern@),
{
    let n = pattern.unicode_len();
    let mut k: usize = n;
    while k > 0 && pattern.get_char(k - 1) == '*'
        invariant
            k <= n,
            n == pattern@.len(),
            forall|j: int| k <= j < n ==> pattern@[j] == '*',
        decreases k,
    {
        k -= 1;
    }
    proof {
        lemma_trim_take(pattern@, k as int);
    }
    pattern.substring_char(0, k)
}

/// Whether `pattern` matches `path` under the engine's three pattern forms.
pub fn route_pattern_matches(pattern: &str, path: &str) -> (r: bool)
    ensures
        r == pattern_matches(pattern@, path@),
{
    if str_eq(path, pattern) {
        return true;
    }
    if str_ends_with_char(pattern, '/') && str_starts_with(path, pattern) {
        return true;
    }
    if str_ends_with_char(pattern, '*') {
        let trimmed = trim_star_suffix(pattern);
        if str_starts_with(path, trimmed) {
            return true;
        }
    }
    false
}

/// Whether a rule's principal list grants `username`.
fn principals_allow(principals: &Vec<String>, username: Option<&str>) -> (r: bool)
    ensures
        r == rule_grants(principals.deep_view(), opt_str_view(username)),
{
    if contains_string(principals, "*") {
        return true;
    }
    match username {
        Some(u) => contains_string(principals, u),
        None => false,
    }
}

/// First-match evaluation of a rule list: the first rule whose pattern
/// matches `route` decides, and no rule matching means denial.  Lists built
/// by this crate are sorted most-specific-first, which makes the first match
/// the most specific one.
pub fn is_route_allowed_impl(
    route: &str,
    username: Option<&str>,
    allowed_routes: &Vec<(String, Vec<String>)>,
) -> (r: bool)
    ensures
        r == table_verdict(rules_view(allowed_routes@), route@, opt_str_view(username)),
{
    let ghost all = rules_view(allowed_routes@);
    proof {
        assert(all.skip(0) =~= all);
    }
    let mut i: usize = 0;
    while i < allowed_routes.len()
        invariant
            i <= allowed_routes.len(),
            all == rules_view(allowed_routes@),
            all.len() == allowed_routes.len(),
            table_verdict(all, route@, opt_str_view(username)) == table_verdict(
                all.skip(i as int),
                route@,
                opt_str_view(username),
            ),
        decreases allowed_routes.len() - i,
    {
        assert(all[i as int] == rule_view(allowed_routes@[i as int]));
        assert(all.skip(i as int).first() == all[i as int]);
        if route_pattern_matches(allowed_routes[i].0.as_str(), route) {
            return principals_allow(&allowed_routes[i].1, username);
        }
        assert(all.skip(i as int).drop_first() =~= all.skip(i as int + 1));
        i += 1;
    }
    assert(all.skip(i as int) =~= Seq::empty());
    false
}

} // verus!
