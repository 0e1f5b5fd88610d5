//! The access rule table.  Configuration hands the library a flat list of
//! `(key, principals)` pairs, where a key is `subdomain@route` or a bare
//! route addressing the proxy-local (empty) subdomain.  The pairs are grouped
//! by subdomain and each group is sorted by descending pattern length, so
//! that evaluation tests the most specific pattern first.

use vstd::multiset::Multiset;
use vstd::prelude::*;
use vstd::string::StrSliceExecFns;

use crate::policy::{
    is_route_allowed_impl, opt_str_view, rules_view, sorted_by_len_desc, table_verdict,
};
use crate::strutil::{str_eq, str_find_char};

verus! {

/// Whether the key names a subdomain, i.e. holds a `@` separator.
pub open spec fn key_has_subdomain(k: Seq<char>) -> bool {
    exists|i: int| 0 <= i < k.len() && k[i] == '@'
}

/// Index of the first `@` in `k` (meaningful only when one exists).
pub open spec fn at_index(k: Seq<char>) -> int
    decreases k.len(),
{
    if k.len() == 0 {
        0
    } else if k.first() == '@' {
        0
    } else {
        1 + at_index(k.drop_first())
    }
}

/// A rule key split into its `(subdomain, route)` parts: the text before and
/// after the first `@`, or the empty subdomain and the whole key when there
/// is no `@`.
pub open spec fn key_parts(k: Seq<char>) -> (Seq<char>, Seq<char>) {
    if key_has_subdomain(k) {
        (k.take(at_index(k)), k.skip(at_index(k) + 1))
    } else {
        (Seq::empty(), k)
    }
}

proof fn lemma_at_index(k: Seq<char>)
    ensures
        key_has_subdomain(k) ==> {
            &&& 0 <= at_index(k) < k.len()
            &&& k[at_index(k)] == '@'
            &&& forall|j: int| 0 <= j < at_index(k) ==> k[j] != '@'
        },
    decreases k.len(),
{
    if k.len() == 0 {
    } else if k.first() == '@' {
    } else {
        lemma_at_index(k.drop_first());
        if key_has_subdomain(k) {
            let w = choose|i: int| 0 <= i < k.len() && k[i] == '@';
            assert(w != 0);
            assert(k.drop_first()[w - 1] == k[w]);
            assert(key_has_subdomain(k.drop_first()));
            assert forall|j: int| 0 <= j < at_index(k) implies k[j] != '@' by {
                if j > 0 {
                    assert(k.drop_first()[j - 1] == k[j]);
                }
            }
        }
    }
}

/// Splits a rule key at its first `@` into `(subdomain, route)`; a key
/// without `@` is a route of the default (empty) subdomain.
pub fn parse_key(key: &str) -> (r: (String, String))
    ensures
        r.0@ == key_parts(key@).0,
        r.1@ == key_parts(key@).1,
{
    proof {
        lemma_at_index(key@);
    }
    match str_find_char(key, '@') {
        Some(i) => {
            proof {
                assert(key_has_subdomain(key@));
                let a = at_index(key@);
                if a < i as int {
                    assert(key@[a] != '@');
                }
                if (i as int) < a {
                    assert(key@[i as int] != '@');
                }
                assert(a == i as int);
            }
            let n = key.unicode_len();
            let sub = key.substring_char(0, i).to_owned();
            let route = key.substring_char(i + 1, n).to_owned();
            proof {
                assert(sub@ =~= key@.take(i as int));
                assert(route@ =~= key@.skip(i as int + 1));
            }
            (sub, route)
        },
        None => {
            proof {
                assert(!key_has_subdomain(key@));
            }
            (String::new(), key.to_owned())
        },
    }
}

/// The rule list of the first group whose subdomain key equals `sd`.
pub open spec fn lookup_group(
    gs: Seq<(String, Vec<(String, Vec<String>)>)>,
    sd: Seq<char>,
) -> Option<Seq<(String, Vec<String>)>>
    decreases gs.len(),
{
    if gs.len() == 0 {
        None
    } else if gs.first().0@ == sd {
        Some(gs.first().1@)
    } else {
        lookup_group(gs.drop_first(), sd)
    }
}

/// Group subdomain keys are pairwise distinct.
pub open spec fn unique_group_keys(gs: Seq<(String, Vec<(String, Vec<String>)>)>) -> bool {
    forall|i: int, j: int| 0 <= i < j < gs.len() ==> (#[trigger] gs[i].0@) != (#[trigger] gs[j].0@)
}

proof fn lemma_lookup_found(gs: Seq<(String, Vec<(String, Vec<String>)>)>, sd: Seq<char>, g: int)
    requires
        0 <= g < gs.len(),
        gs[g].0@ == sd,
        forall|h: int| 0 <= h < g ==> (#[trigger] gs[h].0@) != sd,
    ensures
        lookup_group(gs, sd) == Some(gs[g].1@),
    decreases gs.len(),
{
    if g == 0 {
    } else {
        assert(gs[0].0@ != sd);
        assert forall|h: int| 0 <= h < g - 1 implies (#[trigger] gs.drop_first()[h].0@) != sd by {
            assert(gs.drop_first()[h] == gs[h + 1]);
        }
        assert(gs.drop_first()[g - 1] == gs[g]);
        lemma_lookup_found(gs.drop_first(), sd, g - 1);
    }
}

proof fn lemma_lookup_none(gs: Seq<(String, Vec<(String, Vec<String>)>)>, sd: Seq<char>)
    requires
        forall|h: int| 0 <= h < gs.len() ==> (#[trigger] gs[h].0@) != sd,
    ensures
        lookup_group(gs, sd) is None,
    decreases gs.len(),
{
    if gs.len() > 0 {
        assert forall|h: int| 0 <= h < gs.len() - 1 implies (#[trigger] gs.drop_first()[h].0@)
            != sd by {
            assert(gs.drop_first()[h] == gs[h + 1]);
        }
        lemma_lookup_none(gs.drop_first(), sd);
    }
}

proof fn lemma_lookup_none_inv(gs: Seq<(String, Vec<(String, Vec<String>)>)>, sd: Seq<char>)
    requires
        lookup_group(gs, sd) is None,
    ensures
        forall|h: int| 0 <= h < gs.len() ==> (#[trigger] gs[h].0@) != sd,
    decreases gs.len(),
{
    if gs.len() > 0 {
        lemma_lookup_none_inv(gs.drop_first(), sd);
        assert forall|h: int| 0 <= h < gs.len() implies (#[trigger] gs[h].0@) != sd by {
            if h > 0 {
                assert(gs.drop_first()[h - 1] == gs[h]);
            }
        }
    }
}

/// `rs` holds a rule with exactly this pattern and principal list.
pub open spec fn rule_holds(
    rs: Seq<(String, Vec<String>)>,
    route: Seq<char>,
    users: Seq<Seq<char>>,
) -> bool {
    exists|k: int|
        0 <= k < rs.len() && (#[trigger] rs[k].0@) == route && rs[k].1.deep_view() == users
}

/// `rule` is one of the parsed triples addressed to subdomain `key`.
pub open spec fn rule_from(
    parsed: Seq<(String, String, Vec<String>)>,
    key: Seq<char>,
    rule: (String, Vec<String>),
) -> bool {
    exists|j: int|
        0 <= j < parsed.len() && (#[trigger] parsed[j].0@) == key && parsed[j].1@ == rule.0@
            && parsed[j].2.deep_view() == rule.1.deep_view()
}

/// Some raw pair's key splits into `key` and the rule's pattern, with the
/// rule's principal list.
pub open spec fn rule_stems_from(
    raw: Seq<(String, Vec<String>)>,
    key: Seq<char>,
    rule: (String, Vec<String>),
) -> bool {
    exists|i: int|
        0 <= i < raw.len() && (#[trigger] key_parts(raw[i].0@)).0 == key && key_parts(raw[i].0@).1
            == rule.0@ && raw[i].1.deep_view() == rule.1.deep_view()
}

/// Every parsed `(subdomain, route, principals)` triple addressed to `key`
/// appears as a rule of `rs`.
#[verifier::opaque]
pub open spec fn group_covers(
    parsed: Seq<(String, String, Vec<String>)>,
    key: Seq<char>,
    rs: Seq<(String, Vec<String>)>,
) -> bool {
    forall|j: int|
        #![trigger parsed[j]]
        0 <= j < parsed.len() && parsed[j].0@ == key ==> rule_holds(
            rs,
            parsed[j].1@,
            parsed[j].2.deep_view(),
        )
}

/// Every rule of `rs` stems from a parsed triple addressed to `key`.
#[verifier::opaque]
pub open spec fn group_sound(
    parsed: Seq<(String, String, Vec<String>)>,
    key: Seq<char>,
    rs: Seq<(String, Vec<String>)>,
) -> bool {
    forall|k: int| 0 <= k < rs.len() ==> rule_from(parsed, key, #[trigger] rs[k])
}

proof fn lemma_complete_permutation(
    parsed: Seq<(String, String, Vec<String>)>,
    key: Seq<char>,
    rs1: Seq<(String, Vec<String>)>,
    rs2: Seq<(String, Vec<String>)>,
)
    requires
        group_covers(parsed, key, rs1),
        group_sound(parsed, key, rs1),
        rs1.to_multiset() == rs2.to_multiset(),
    ensures
        group_covers(parsed, key, rs2),
        group_sound(parsed, key, rs2),
{
    rs1.to_multiset_ensures();
    rs2.to_multiset_ensures();
    assert(group_covers(parsed, key, rs2)) by {
        reveal(group_covers);
        assert forall|j: int|
            #![trigger parsed[j]]
            0 <= j < parsed.len() && parsed[j].0@ == key implies rule_holds(
            rs2,
            parsed[j].1@,
            parsed[j].2.deep_view(),
        ) by {
            assert(rule_holds(rs1, parsed[j].1@, parsed[j].2.deep_view()));
            let k1 = choose|k: int|
                0 <= k < rs1.len() && (#[trigger] rs1[k].0@) == parsed[j].1@
                    && rs1[k].1.deep_view() == parsed[j].2.deep_view();
            let elem = rs1[k1];
            assert(rs1.contains(elem));
            assert(rs1.to_multiset().count(elem) > 0);
            assert(rs2.to_multiset().count(elem) > 0);
            assert(rs2.contains(elem));
            let k2 = choose|k: int| 0 <= k < rs2.len() && rs2[k] == elem;
            assert(rs2[k2].0@ == parsed[j].1@);
        }
    }
    assert(group_sound(parsed, key, rs2)) by {
        reveal(group_sound);
        assert forall|k: int| 0 <= k < rs2.len() implies rule_from(
            parsed,
            key,
            #[trigger] rs2[k],
        ) by {
            let elem = rs2[k];
            assert(rs2.contains(elem));
            assert(rs2.to_multiset().count(elem) > 0);
            assert(rs1.to_multiset().count(elem) > 0);
            assert(rs1.contains(elem));
            let k1 = choose|t: int| 0 <= t < rs1.len() && rs1[t] == elem;
            assert(rs1[k1] == elem);
            assert(rule_from(parsed, key, rs1[k1]));
        }
    }
}

/// Splits every raw key into its `(subdomain, route)` parts, keeping the
/// principal lists; the i-th triple corresponds to the i-th raw pair.
fn parse_all(raw: &Vec<(String, Vec<String>)>) -> (r: Vec<(String, String, Vec<String>)>)
    ensures
        r@.len() == raw@.len(),
        forall|i: int|
            #![trigger r@[i]]
            0 <= i < raw@.len() ==> {
                &&& r@[i].0@ == key_parts(raw@[i].0@).0
                &&& r@[i].1@ == key_parts(raw@[i].0@).1
                &&& r@[i].2.deep_view() == raw@[i].1.deep_view()
            },
{
    let mut r: Vec<(String, String, Vec<String>)> = Vec::new();
    let mut i: usize = 0;
    while i < raw.len()
        invariant
            i <= raw@.len(),
            r@.len() == i,
            forall|p: int|
                #![trigger r@[p]]
                0 <= p < i ==> {
                    &&& r@[p].0@ == key_parts(raw@[p].0@).0
                    &&& r@[p].1@ == key_parts(raw@[p].0@).1
                    &&& r@[p].2.deep_view() == raw@[p].1.deep_view()
                },
        decreases raw.len() - i,
    {
        let parts = parse_key(raw[i].0.as_str());
        let users = clone_string_vec(&raw[i].1);
        proof {
            assert(users.deep_view() =~= raw@[i as int].1.deep_view());
        }
        r.push((parts.0, parts.1, users));
        i += 1;
    }
    r
}

/// A copy of a vector of strings, equal element for element.
fn clone_string_vec(v: &Vec<String>) -> (r: Vec<String>)
    ensures
        r@ == v@,
{
    let mut r: Vec<String> = Vec::new();
    let mut i: usize = 0;
    while i < v.len()
        invariant
            i <= v.len(),
            r@ =~= v@.take(i as int),
        decreases v.len() - i,
    {
        r.push(v[i].clone());
        i += 1;
    }
    proof {
        assert(r@ =~= v@);
    }
    r
}

/// Index of the first longest pattern in a non-empty rule list.
fn max_len_index(v: &Vec<(String, Vec<String>)>) -> (r: usize)
    requires
        v@.len() > 0,
    ensures
        r < v@.len(),
        forall|j: int| 0 <= j < v@.len() ==> v@[r as int].0@.len() >= (#[trigger] v@[j].0@).len(),
{
    let mut m: usize = 0;
    let mut best = v[0].0.as_str().unicode_len();
    let mut j: usize = 1;
    while j < v.len()
        invariant
            m < j <= v@.len(),
            best == v@[m as int].0@.len(),
            forall|t: int| 0 <= t < j ==> best >= (#[trigger] v@[t].0@).len(),
        decreases v.len() - j,
    {
        let cand = v[j].0.as_str().unicode_len();
        if cand > best {
            m = j;
            best = cand;
        }
        j += 1;
    }
    m
}

/// Reorders a rule list by descending pattern length; the most specific
/// pattern comes first.  The result holds exactly the given rules.
pub fn sort_rules_desc(rules: Vec<(String, Vec<String>)>) -> (r: Vec<(String, Vec<String>)>)
    ensures
        sorted_by_len_desc(rules_view(r@)),
        r@.to_multiset() == rules@.to_multiset(),
{
    let ghost orig = rules@;
    let mut src = rules;
    let mut out: Vec<(String, Vec<String>)> = Vec::new();
    proof {
        out@.to_multiset_ensures();
        vstd::multiset::lemma_multiset_empty_len(out@.to_multiset());
        assert(out@.to_multiset() =~= Multiset::empty());
        assert(out@.to_multiset().add(src@.to_multiset()) =~= orig.to_multiset());
    }
    while src.len() > 0
        invariant
            out@.to_multiset().add(src@.to_multiset()) == orig.to_multiset(),
            sorted_by_len_desc(rules_view(out@)),
            forall|k: int, j: int|
                0 <= k < out@.len() && 0 <= j < src@.len() ==> (#[trigger] out@[k].0@).len() >= (
                #[trigger] src@[j].0@).len(),
        decreases src.len(),
    {
        let ghost src0 = src@;
        let ghost out0 = out@;
        let m = max_len_index(&src);
        let item = src.remove(m);
        out.push(item);
        proof {
            src0.to_multiset_ensures();
            out0.to_multiset_ensures();
            assert(src0.contains(src0[m as int]));
            assert(src0.to_multiset().count(src0[m as int]) > 0);
            assert(out@ == out0.push(item));
            assert(out@.to_multiset() =~= out0.to_multiset().insert(item));
            assert(src@ == src0.remove(m as int));
            assert(src@.to_multiset() =~= src0.to_multiset().remove(item));
            assert(out@.to_multiset().add(src@.to_multiset()) =~= out0.to_multiset().add(
                src0.to_multiset(),
            ));
            assert forall|k: int, j: int|
                0 <= k < out@.len() && 0 <= j < src@.len() implies (#[trigger] out@[k].0@).len()
                >= (#[trigger] src@[j].0@).len() by {
                let jj: int = if j < m { j } else { j + 1 };
                assert(src@[j] == src0[jj]);
                assert(src0[m as int].0@.len() >= src0[jj].0@.len());
                if k < out0.len() {
                    assert(out@[k] == out0[k]);
                    assert(out0[k].0@.len() >= src0[jj].0@.len());
                } else {
                    assert(out@[k] == item);
                }
            }
            assert forall|a: int, b: int| 0 <= a < b < out@.len() implies (#[trigger] rules_view(
                out@,
            )[a]).0.len() >= (#[trigger] rules_view(out@)[b]).0.len() by {
                if b < out0.len() {
                    assert(rules_view(out0)[a].0.len() >= rules_view(out0)[b].0.len());
                } else {
                    assert(out@[b] == item);
                    assert(out@[a] == out0[a]);
                }
            }
        }
    }
    proof {
        src@.to_multiset_ensures();
        vstd::multiset::lemma_multiset_empty_len(src@.to_multiset());
        assert(src@.to_multiset() =~= Multiset::empty());
        assert(out@.to_multiset() =~= orig.to_multiset());
    }
    out
}

/// Collects, in input order, the `(route, principals)` pairs that the
/// parsed configuration assigns to subdomain `sub`.
fn collect_rules(parsed: &Vec<(String, String, Vec<String>)>, sub: &str) -> (r: Vec<
    (String, Vec<String>),
>)
    ensures
        group_covers(parsed@, sub@, r@),
        group_sound(parsed@, sub@, r@),
{
    let mut rules: Vec<(String, Vec<String>)> = Vec::new();
    // Ghost bookkeeping: `srcs[k]` is the parsed index that produced rule `k`,
    // `dst[p]` the rule index serving parsed entry `p` (or -1 when `p` is
    // addressed to another subdomain).
    let ghost mut srcs: Seq<int> = Seq::empty();
    let ghost mut dst: Seq<int> = Seq::empty();
    let mut j: usize = 0;
    while j < parsed.len()
        invariant
            j <= parsed@.len(),
            srcs.len() == rules@.len(),
            dst.len() == j,
            forall|k: int|
                #![trigger srcs[k]]
                0 <= k < srcs.len() ==> {
                    &&& 0 <= srcs[k] < j
                    &&& parsed@[srcs[k]].0@ == sub@
                    &&& parsed@[srcs[k]].1@ == rules@[k].0@
                    &&& parsed@[srcs[k]].2.deep_view() == rules@[k].1.deep_view()
                },
            forall|p: int|
                #![trigger dst[p]]
                0 <= p < j && parsed@[p].0@ == sub@ ==> {
                    &&& 0 <= dst[p] < rules@.len()
                    &&& rules@[dst[p]].0@ == parsed@[p].1@
                    &&& rules@[dst[p]].1.deep_view() == parsed@[p].2.deep_view()
                },
        decreases parsed.len() - j,
    {
        if str_eq(parsed[j].0.as_str(), sub) {
            let route = parsed[j].1.clone();
            let users = clone_string_vec(&parsed[j].2);
            proof {
                assert(users.deep_view() =~= parsed@[j as int].2.deep_view());
                dst = dst.push(rules@.len() as int);
                srcs = srcs.push(j as int);
            }
            rules.push((route, users));
        } else {
            proof {
                dst = dst.push(-1);
            }
        }
        j += 1;
    }
    proof {
        assert(group_covers(parsed@, sub@, rules@)) by {
            reveal(group_covers);
            assert forall|p: int|
                #![trigger parsed@[p]]
                0 <= p < parsed@.len() && parsed@[p].0@ == sub@ implies rule_holds(
                rules@,
                parsed@[p].1@,
                parsed@[p].2.deep_view(),
            ) by {
                assert(0 <= dst[p] < rules@.len());
                assert(rules@[dst[p]].0@ == parsed@[p].1@);
                assert(rules@[dst[p]].1.deep_view() == parsed@[p].2.deep_view());
            }
        }
        assert(group_sound(parsed@, sub@, rules@)) by {
            reveal(group_sound);
            assert forall|k: int| 0 <= k < rules@.len() implies rule_from(
                parsed@,
                sub@,
                #[trigger] rules@[k],
            ) by {
                assert(0 <= srcs[k] < parsed@.len());
                assert(parsed@[srcs[k]].0@ == sub@);
                assert(parsed@[srcs[k]].1@ == rules@[k].0@);
                assert(parsed@[srcs[k]].2.deep_view() == rules@[k].1.deep_view());
            }
        }
    }
    rules
}

/// Index of the first group keyed by `sub`, if one exists.
#[verifier::spinoff_prover]
fn find_group(groups: &Vec<(String, Vec<(String, Vec<String>)>)>, sub: &str) -> (r: Option<usize>)
    ensures
        match r {
            Some(g) => {
                &&& g < groups@.len()
                &&& groups@[g as int].0@ == sub@
                &&& lookup_group(groups@, sub@) == Some(groups@[g as int].1@)
            },
            None => lookup_group(groups@, sub@) is None,
        },
{
    let mut g: usize = 0;
    while g < groups.len()
        invariant
            g <= groups@.len(),
            forall|h: int| 0 <= h < g ==> (#[trigger] groups@[h].0@) != sub@,
        decreases groups.len() - g,
    {
        if str_eq(groups[g].0.as_str(), sub) {
            proof {
                lemma_lookup_found(groups@, sub@, g as int);
            }
            return Some(g);
        }
        g += 1;
    }
    proof {
        lemma_lookup_none(groups@, sub@);
    }
    None
}

/// The in-memory access rule table: one sorted rule list per subdomain.
/// Built once from configuration and read-only afterwards; a reload swaps
/// the whole table.
pub struct AccessRules {
    groups: Vec<(String, Vec<(String, Vec<String>)>)>,
}

impl AccessRules {
    /// The stored groups, for specification purposes.
    pub closed spec fn groups_seq(&self) -> Seq<(String, Vec<(String, Vec<String>)>)> {
        self.groups@
    }

    /// Table well-formedness: distinct subdomain keys, each rule list sorted
    /// most specific first.
    pub open spec fn wf(&self) -> bool {
        &&& unique_group_keys(self.groups_seq())
        &&& forall|g: int|
            0 <= g < self.groups_seq().len() ==> sorted_by_len_desc(
                rules_view((#[trigger] self.groups_seq()[g]).1@),
            )
    }

    /// The rule list serving subdomain `sd`, if any.
    pub open spec fn group_rules(&self, sd: Seq<char>) -> Option<Seq<(String, Vec<String>)>> {
        lookup_group(self.groups_seq(), sd)
    }

    /// Whether the table assigns the rule `(route, principals)` to `sd`.
    pub open spec fn has_rule(
        &self,
        sd: Seq<char>,
        route: Seq<char>,
        users: Seq<Seq<char>>,
    ) -> bool {
        match self.group_rules(sd) {
            Some(rs) => rule_holds(rs, route, users),
            None => false,
        }
    }

    /// The table's verdict for `(subdomain, path, username)`: the decision of
    /// the subdomain's rule list, and a denial when the subdomain has none.
    /// An absent subdomain addresses the default (empty-keyed) rule list.
    pub open spec fn verdict(
        &self,
        subdomain: Option<Seq<char>>,
        path: Seq<char>,
        username: Option<Seq<char>>,
    ) -> bool {
        let sd = match subdomain {
            Some(s) => s,
            None => Seq::empty(),
        };
        match self.group_rules(sd) {
            None => false,
            Some(rs) => table_verdict(rules_view(rs), path, username),
        }
    }

    /// An empty table: every request is denied.
    pub fn new_empty() -> (r: Self)
        ensures
            r.wf(),
            r.groups_seq() == Seq::<(String, Vec<(String, Vec<String>)>)>::empty(),
    {
        AccessRules { groups: Vec::new() }
    }

    /// Builds the table from raw `(key, principals)` configuration pairs:
    /// keys are split at their first `@` into subdomain and route, pairs are
    /// grouped by subdomain, and each group is sorted by descending pattern
    /// length.  The table holds exactly the given rules.
    #[verifier::rlimit(50)]
    pub fn from_pairs(raw: &Vec<(String, Vec<String>)>) -> (r: Self)
        ensures
            r.wf(),
            forall|i: int|
                #![trigger key_parts(raw@[i].0@)]
                0 <= i < raw@.len() ==> r.has_rule(
                    key_parts(raw@[i].0@).0,
                    key_parts(raw@[i].0@).1,
                    raw@[i].1.deep_view(),
                ),
            forall|g: int, k: int|
                0 <= g < r.groups_seq().len() && 0 <= k < r.groups_seq()[g].1@.len()
                    ==> rule_stems_from(
                    raw@,
                    r.groups_seq()[g].0@,
                    #[trigger] r.groups_seq()[g].1@[k],
                ),
    {
        let parsed = parse_all(raw);
        let mut groups: Vec<(String, Vec<(String, Vec<String>)>)> = Vec::new();
        let mut i: usize = 0;
        while i < parsed.len()
            invariant
                i <= parsed@.len(),
                unique_group_keys(groups@),
                forall|g: int|
                    0 <= g < groups@.len() ==> sorted_by_len_desc(
                        rules_view((#[trigger] groups@[g]).1@),
                    ),
                forall|g: int|
                    0 <= g < groups@.len() ==> group_covers(
                        parsed@,
                        (#[trigger] groups@[g]).0@,
                        groups@[g].1@,
                    ),
                forall|g: int|
                    0 <= g < groups@.len() ==> group_sound(
                        parsed@,
                        (#[trigger] groups@[g]).0@,
                        groups@[g].1@,
                    ),
                forall|p: int|
                    #![trigger parsed@[p]]
                    0 <= p < i ==> exists|g: int|
                        0 <= g < groups@.len() && (#[trigger] groups@[g].0@) == parsed@[p].0@,
            decreases parsed.len() - i,
        {
            let sub = parsed[i].0.clone();
            match find_group(&groups, sub.as_str()) {
                Some(gidx) => {
                    proof {
                        assert(groups@[gidx as int].0@ == parsed@[i as int].0@);
                    }
                },
                None => {
                    let ghost groups0 = groups@;
                    proof {
                        lemma_lookup_none_inv(groups0, sub@);
                    }
                    let rules = collect_rules(&parsed, sub.as_str());
                    let ghost rules_v = rules@;
                    let sorted = sort_rules_desc(rules);
                    proof {
                        lemma_complete_permutation(parsed@, sub@, rules_v, sorted@);
                    }
                    groups.push((sub, sorted));
                    proof {
                        assert forall|g: int| 0 <= g < groups@.len() implies group_covers(
                            parsed@,
                            (#[trigger] groups@[g]).0@,
                            groups@[g].1@,
                        ) by {
                            if g < groups0.len() {
                                assert(groups@[g] == groups0[g]);
                            }
                        }
                        assert forall|g: int| 0 <= g < groups@.len() implies group_sound(
                            parsed@,
                            (#[trigger] groups@[g]).0@,
                            groups@[g].1@,
                        ) by {
                            if g < groups0.len() {
                                assert(groups@[g] == groups0[g]);
                            }
                        }
                        assert forall|g: int| 0 <= g < groups@.len() implies sorted_by_len_desc(
                            rules_view((#[trigger] groups@[g]).1@),
                        ) by {
                            if g < groups0.len() {
                                assert(groups@[g] == groups0[g]);
                            }
                        }
                        assert forall|a: int, b: int|
                            0 <= a < b < groups@.len() implies (#[trigger] groups@[a].0@) != (
                        #[trigger] groups@[b].0@) by {
                            if b < groups0.len() {
                                assert(groups@[a] == groups0[a] && groups@[b] == groups0[b]);
                                assert(groups0[a].0@ != groups0[b].0@);
                            } else {
                                assert(groups@[a] == groups0[a]);
                                assert(groups0[a].0@ != groups@[b].0@);
                            }
                        }
                        assert forall|p: int|
                            #![trigger parsed@[p]]
                            0 <= p < i + 1 implies exists|g: int|
                            0 <= g < groups@.len() && (#[trigger] groups@[g].0@)
                                == parsed@[p].0@ by {
                            if p < i {
                                let g = choose|g: int|
                                    0 <= g < groups0.len() && (#[trigger] groups0[g].0@)
                                        == parsed@[p].0@;
                                assert(groups@[g].0@ == parsed@[p].0@);
                            } else {
                                assert(groups@[groups@.len() - 1].0@ == parsed@[p].0@);
                            }
                        }
                    }
                },
            }
            i += 1;
        }
        let r = AccessRules { groups };
        proof {
            assert forall|p: int|
                #![trigger key_parts(raw@[p].0@)]
                0 <= p < raw@.len() implies r.has_rule(
                key_parts(raw@[p].0@).0,
                key_parts(raw@[p].0@).1,
                raw@[p].1.deep_view(),
            ) by {
                assert(parsed@[p].0@ == key_parts(raw@[p].0@).0);
                let sd = parsed@[p].0@;
                let g = choose|g: int| 0 <= g < groups@.len() && (#[trigger] groups@[g].0@) == sd;
                assert forall|h: int| 0 <= h < g implies (#[trigger] groups@[h].0@) != sd by {
                    assert(groups@[h].0@ != groups@[g].0@);
                }
                lemma_lookup_found(groups@, sd, g);
                assert(group_covers(parsed@, groups@[g].0@, groups@[g].1@));
                reveal(group_covers);
                assert(rule_holds(groups@[g].1@, parsed@[p].1@, parsed@[p].2.deep_view()));
                assert(parsed@[p].1@ == key_parts(raw@[p].0@).1);
                assert(parsed@[p].2.deep_view() == raw@[p].1.deep_view());
            }
            assert forall|g: int, k: int|
                0 <= g < r.groups_seq().len() && 0 <= k
                    < r.groups_seq()[g].1@.len() implies rule_stems_from(
                raw@,
                r.groups_seq()[g].0@,
                #[trigger] r.groups_seq()[g].1@[k],
            ) by {
                assert(group_sound(parsed@, groups@[g].0@, groups@[g].1@));
                reveal(group_sound);
                let rule = groups@[g].1@[k];
                assert(rule_from(parsed@, groups@[g].0@, rule));
                let j = choose|j: int|
                    0 <= j < parsed@.len() && (#[trigger] parsed@[j].0@) == groups@[g].0@
                        && parsed@[j].1@ == rule.0@ && parsed@[j].2.deep_view()
                        == rule.1.deep_view();
                assert(parsed@[j].0@ == key_parts(raw@[j].0@).0);
                assert(parsed@[j].1@ == key_parts(raw@[j].0@).1);
                assert(parsed@[j].2.deep_view() == raw@[j].1.deep_view());
            }
        }
        r
    }

    /// The stored rule list for `subdomain`, if the table has one.
    pub fn subdomain_rules(&self, subdomain: &str) -> (r: Option<&Vec<(String, Vec<String>)>>)
        ensures
            match r {
                Some(v) => self.group_rules(subdomain@) == Some(v@),
                None => self.group_rules(subdomain@) is None,
            },
    {
        match find_group(&self.groups, subdomain) {
            Some(g) => Some(&self.groups[g].1),
            None => None,
        }
    }

    /// Evaluates an access request: selects the subdomain's rule list (an
    /// absent subdomain addresses the default, empty-keyed list) and lets its
    /// first matching rule decide.  A subdomain without rules, like a path no
    /// rule matches, is denied.
    pub fn evaluate(&self, subdomain: Option<&str>, route: &str, username: Option<&str>) -> (r:
        bool)
        ensures
            r == self.verdict(opt_str_view(subdomain), route@, opt_str_view(username)),
    {
        let sd: &str = match subdomain {
            Some(s) => s,
            None => "",
        };
        proof {
            reveal_strlit("");
            assert(""@ =~= Seq::<char>::empty());
        }
        match find_group(&self.groups, sd) {
            Some(g) => is_route_allowed_impl(route, username, &self.groups[g].1),
            None => false,
        }
    }
}

} // verus!
