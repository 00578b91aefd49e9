//! Dynamic routing rules, kept ordered by priority, and the rule a text
//! selects.

use vstd::prelude::*;
use crate::text::{lower_of, lowercase, contains_seq, contains_str, same_str};

verus! {

/// A rule that sends requests mentioning one of its keywords to a model.
pub struct DynamicRoutingRule {
    pub id: String,
    pub name: String,
    pub keywords: Vec<String>,
    /// `provider,model`.
    pub target_model: String,
    /// Higher wins.
    pub priority: i32,
    pub enabled: bool,
}

/// Why a rule edit was refused.
#[derive(PartialEq, Eq, Structural, Clone, Copy, Debug)]
pub enum RuleError {
    /// A rule with that id exists already.
    DuplicateId,
    /// No rule has that id.
    NotFound,
}

/// Whether `rule` fires on `text`: it is enabled and one of its keywords
/// occurs in the text, ignoring case.
pub open spec fn rule_matches(rule: DynamicRoutingRule, text: Seq<char>) -> bool {
    rule.enabled && exists|k: int| 0 <= k < rule.keywords@.len()
        && contains_seq(lower_of(text), lower_of(#[trigger] rule.keywords@[k]@))
}

/// Rules ordered by priority, highest first.
pub open spec fn by_priority(s: Seq<DynamicRoutingRule>) -> bool {
    forall|i: int, j: int| 0 <= i < j < s.len() ==> s[i].priority >= s[j].priority
}

/// One past the last rule of `s` with priority at least `p`: where a rule of
/// priority `p` goes so that earlier rules of equal priority stay first.
pub open spec fn rule_pos(s: Seq<DynamicRoutingRule>, p: i32) -> int
    decreases s.len(),
{
    if s.len() == 0 {
        0
    } else if s.last().priority < p {
        rule_pos(s.drop_last(), p)
    } else {
        s.len() as int
    }
}

/// `s` ordered by priority, highest first, equal priorities in their order in `s`.
pub open spec fn sort_rules(s: Seq<DynamicRoutingRule>) -> Seq<DynamicRoutingRule>
    decreases s.len(),
{
    if s.len() == 0 {
        Seq::empty()
    } else {
        let r = sort_rules(s.drop_last());
        r.insert(rule_pos(r, s.last().priority), s.last())
    }
}

/// The index of the first rule with id `id`, or -1.
pub open spec fn rule_index(s: Seq<DynamicRoutingRule>, id: Seq<char>) -> int
    decreases s.len(),
{
    if s.len() == 0 {
        -1
    } else if s[0].id@ == id {
        0
    } else {
        let r = rule_index(s.drop_first(), id);
        if r < 0 { -1 } else { r + 1 }
    }
}

proof fn lemma_rule_pos(s: Seq<DynamicRoutingRule>, p: i32)
    requires
        by_priority(s),
    ensures
        0 <= rule_pos(s, p) <= s.len(),
        forall|i: int| 0 <= i < rule_pos(s, p) ==> (#[trigger] s[i]).priority >= p,
        forall|i: int| rule_pos(s, p) <= i < s.len() ==> (#[trigger] s[i]).priority < p,
    decreases s.len(),
{
    if s.len() > 0 {
        lemma_rule_pos(s.drop_last(), p);
        assert forall|i: int| 0 <= i < rule_pos(s, p) implies (#[trigger] s[i]).priority >= p by {
            if s.last().priority < p {
                assert(s[i] == s.drop_last()[i]);
            } else if i < s.len() - 1 {
                assert(s[i].priority >= s[s.len() - 1].priority);
            }
        }
        assert forall|i: int| rule_pos(s, p) <= i < s.len() implies (#[trigger] s[i]).priority < p by {
            if i < s.len() - 1 {
                assert(s[i] == s.drop_last()[i]);
            }
        }
    }
}

proof fn lemma_insert_sorted(s: Seq<DynamicRoutingRule>, pos: int, x: DynamicRoutingRule)
    requires
        by_priority(s),
        0 <= pos <= s.len(),
        forall|i: int| 0 <= i < pos ==> (#[trigger] s[i]).priority >= x.priority,
        forall|i: int| pos <= i < s.len() ==> (#[trigger] s[i]).priority <= x.priority,
    ensures
        by_priority(s.insert(pos, x)),
{
    let t = s.insert(pos, x);
    assert forall|a: int, b: int| 0 <= a < b < t.len() implies t[a].priority >= t[b].priority by {
        if a < pos && b < pos {
            assert(t[a] == s[a] && t[b] == s[b]);
        } else if a < pos && b == pos {
            assert(t[a] == s[a]);
        } else if a < pos {
            assert(t[a] == s[a] && t[b] == s[b - 1]);
        } else if a == pos {
            assert(t[b] == s[b - 1]);
        } else {
            assert(t[a] == s[a - 1] && t[b] == s[b - 1]);
        }
    }
}

proof fn lemma_rule_index(s: Seq<DynamicRoutingRule>, id: Seq<char>)
    ensures
        -1 <= rule_index(s, id) < s.len(),
        rule_index(s, id) >= 0 ==> s[rule_index(s, id)].id@ == id,
        forall|m: int| 0 <= m < s.len() && (rule_index(s, id) < 0 || m < rule_index(s, id))
            ==> (#[trigger] s[m]).id@ != id,
    decreases s.len(),
{
    if s.len() > 0 && s[0].id@ != id {
        lemma_rule_index(s.drop_first(), id);
        assert forall|m: int| 0 <= m < s.len() && (rule_index(s, id) < 0 || m < rule_index(s, id))
            implies (#[trigger] s[m]).id@ != id by {
            if m > 0 {
                assert(s[m] == s.drop_first()[m - 1]);
            }
        }
    }
}

proof fn lemma_sort_rules(s: Seq<DynamicRoutingRule>)
    ensures
        by_priority(sort_rules(s)),
        sort_rules(s).len() == s.len(),
        by_priority(s) ==> sort_rules(s) == s,
    decreases s.len(),
{
    if s.len() > 0 {
        let r = sort_rules(s.drop_last());
        lemma_sort_rules(s.drop_last());
        lemma_rule_pos(r, s.last().priority);
        lemma_insert_sorted(r, rule_pos(r, s.last().priority), s.last());
        if by_priority(s) {
            assert(by_priority(s.drop_last()));
            assert(r == s.drop_last());
            if rule_pos(r, s.last().priority) < r.len() {
                let q = rule_pos(r, s.last().priority);
                assert(r[q].priority < s.last().priority);
                assert(s[q].priority >= s[s.len() - 1].priority);
            }
            assert(r.insert(r.len() as int, s.last()) =~= s);
        }
    }
}

/// Puts `rule` after every rule of priority at least its own.
fn insert_by_priority(rules: &mut Vec<DynamicRoutingRule>, rule: DynamicRoutingRule)
    ensures
        final(rules)@ == old(rules)@.insert(rule_pos(old(rules)@, rule.priority), rule),
{
    let ghost s = rules@;
    let mut j: usize = rules.len();
    assert(s.subrange(0, j as int) =~= s);
    while j > 0 && rules[j - 1].priority < rule.priority
        invariant
            j <= rules.len(),
            s == rules@,
            rule_pos(s, rule.priority) == rule_pos(s.subrange(0, j as int), rule.priority),
        decreases j,
    {
        assert(s.subrange(0, j as int).drop_last() =~= s.subrange(0, j - 1));
        j = j - 1;
    }
    proof {
        if j > 0 {
            assert(s.subrange(0, j as int).last() == s[j - 1]);
        }
    }
    rules.insert(j, rule);
}

/// Orders rules by priority, highest first; equal priorities keep their order.
pub fn sort_by_priority(v: Vec<DynamicRoutingRule>) -> (r: Vec<DynamicRoutingRule>)
    ensures
        r@ == sort_rules(v@),
        by_priority(r@),
{
    let mut src = v;
    let mut out: Vec<DynamicRoutingRule> = Vec::new();
    let n = src.len();
    let mut i: usize = 0;
    while i < n
        invariant
            i <= n,
            n == v@.len(),
            src@ == v@.subrange(i as int, n as int),
            out@ == sort_rules(v@.subrange(0, i as int)),
        decreases n - i,
    {
        assert(src@[0] == v@[i as int]);
        let x = src.remove(0);
        insert_by_priority(&mut out, x);
        assert(v@.subrange(0, i + 1).drop_last() =~= v@.subrange(0, i as int));
        assert(src@ =~= v@.subrange(i + 1, n as int));
        i = i + 1;
    }
    assert(v@.subrange(0, n as int) =~= v@);
    proof {
        lemma_sort_rules(v@);
    }
    out
}

/// Adds a rule and orders the list by priority again. Refused when a rule
/// with the same id exists.
pub fn add_dynamic_rule(rules: &mut Vec<DynamicRoutingRule>, rule: DynamicRoutingRule) -> (r: Result<(), RuleError>)
    ensures
        (r is Err) <==> rule_index(old(rules)@, rule.id@) >= 0,
        r is Err ==> r == Err::<(), RuleError>(RuleError::DuplicateId) && final(rules)@ == old(rules)@,
        r is Ok ==> final(rules)@ == sort_rules(old(rules)@.push(rule)) && by_priority(final(rules)@),
        r is Ok && by_priority(old(rules)@) ==> final(rules)@ == old(rules)@.insert(
            rule_pos(old(rules)@, rule.priority),
            rule,
        ),
{
    match find_rule(rules, rule.id.as_str()) {
        Some(_) => return Err(RuleError::DuplicateId),
        None => {},
    }
    let ghost s0 = rules@;
    let mut v: Vec<DynamicRoutingRule> = Vec::new();
    std::mem::swap(&mut v, rules);
    v.push(rule);
    let sorted = sort_by_priority(v);
    *rules = sorted;
    proof {
        lemma_sort_rules(s0);
        assert(s0.push(rule).drop_last() =~= s0);
    }
    Ok(())
}

/// Replaces the first rule whose id is `rule`'s and orders the list by
/// priority again.
pub fn update_dynamic_rule(rules: &mut Vec<DynamicRoutingRule>, rule: DynamicRoutingRule) -> (r: Result<(), RuleError>)
    ensures
        (r is Err) <==> rule_index(old(rules)@, rule.id@) < 0,
        r is Err ==> r == Err::<(), RuleError>(RuleError::NotFound) && final(rules)@ == old(rules)@,
        r is Ok ==> final(rules)@ == sort_rules(old(rules)@.update(rule_index(old(rules)@, rule.id@), rule))
            && by_priority(final(rules)@),
{
    proof {
        lemma_rule_index(rules@, rule.id@);
    }
    let k = match find_rule(rules, rule.id.as_str()) {
        Some(k) => k,
        None => return Err(RuleError::NotFound),
    };
    let mut v: Vec<DynamicRoutingRule> = Vec::new();
    std::mem::swap(&mut v, rules);
    v.set(k, rule);
    let sorted = sort_by_priority(v);
    *rules = sorted;
    Ok(())
}

/// Removes every rule with id `id`; refused when there is none.
pub fn delete_dynamic_rule(rules: &mut Vec<DynamicRoutingRule>, id: &str) -> (r: Result<(), RuleError>)
    ensures
        (r is Err) <==> rule_index(old(rules)@, id@) < 0,
        r is Err ==> r == Err::<(), RuleError>(RuleError::NotFound) && final(rules)@ == old(rules)@,
        r is Ok ==> final(rules)@ == old(rules)@.filter(|x: DynamicRoutingRule| x.id@ != id@),
        by_priority(old(rules)@) ==> by_priority(final(rules)@),
{
    if find_rule(rules, id).is_none() {
        return Err(RuleError::NotFound);
    }
    let ghost s0 = rules@;
    let ghost keep = |x: DynamicRoutingRule| x.id@ != id@;
    let mut src: Vec<DynamicRoutingRule> = Vec::new();
    std::mem::swap(&mut src, rules);
    let mut out: Vec<DynamicRoutingRule> = Vec::new();
    let n = src.len();
    let mut i: usize = 0;
    while i < n
        invariant
            i <= n,
            n == s0.len(),
            src@ == s0.subrange(i as int, n as int),
            out@ == s0.subrange(0, i as int).filter(keep),
            keep == (|x: DynamicRoutingRule| x.id@ != id@),
            by_priority(s0) ==> by_priority(out@),
            by_priority(s0) ==> forall|a: int, b: int| 0 <= a < out@.len() && i <= b < n
                ==> out@[a].priority >= s0[b].priority,
        decreases n - i,
    {
        assert(src@[0] == s0[i as int]);
        let x = src.remove(0);
        proof {
            s0.subrange(0, i as int).lemma_filter_push(x, keep);
            assert(s0.subrange(0, i as int).push(x) =~= s0.subrange(0, i + 1));
        }
        if !same_str(x.id.as_str(), id) {
            let ghost o = out@;
            out.push(x);
            proof {
                assert(out@[out@.len() - 1] == s0[i as int]);
                if by_priority(s0) {
                    assert forall|a: int, b: int| 0 <= a < out@.len() && i + 1 <= b < n
                        implies out@[a].priority >= s0[b].priority by {
                        if a < o.len() {
                            assert(out@[a] == o[a]);
                        }
                    }
                    assert forall|a: int, b: int| 0 <= a < b < out@.len() implies out@[a].priority >= out@[b].priority by {
                        if b == o.len() {
                            assert(out@[a] == o[a]);
                        } else {
                            assert(out@[a] == o[a] && out@[b] == o[b]);
                        }
                    }
                }
            }
        }
        assert(src@ =~= s0.subrange(i + 1, n as int));
        i = i + 1;
    }
    assert(s0.subrange(0, n as int) =~= s0);
    *rules = out;
    Ok(())
}

/// The position of the first rule with id `id`.
pub fn find_rule(rules: &Vec<DynamicRoutingRule>, id: &str) -> (r: Option<usize>)
    ensures
        match r {
            Some(k) => k == rule_index(rules@, id@),
            None => rule_index(rules@, id@) < 0,
        },
{
    proof {
        lemma_rule_index(rules@, id@);
    }
    let mut i: usize = 0;
    while i < rules.len()
        invariant
            i <= rules.len(),
            forall|m: int| 0 <= m < i ==> (#[trigger] rules@[m]).id@ != id@,
            -1 <= rule_index(rules@, id@) < rules@.len(),
            rule_index(rules@, id@) >= 0 ==> rules@[rule_index(rules@, id@)].id@ == id@,
            forall|m: int| 0 <= m < rules@.len() && (rule_index(rules@, id@) < 0 || m < rule_index(rules@, id@))
                ==> (#[trigger] rules@[m]).id@ != id@,
        decreases rules.len() - i,
    {
        if same_str(rules[i].id.as_str(), id) {
            proof {
                let k = rule_index(rules@, id@);
                if k >= 0 && k < i {
                    assert(rules@[k].id@ != id@);
                }
            }
            return Some(i);
        }
        i = i + 1;
    }
    None
}

/// Whether `rule` fires on a text whose lower-case form is `low`.
fn fires(rule: &DynamicRoutingRule, text: &str, low: &String) -> (r: bool)
    requires
        low@ == lower_of(text@),
    ensures
        r == rule_matches(*rule, text@),
{
    if !rule.enabled {
        return false;
    }
    let mut k: usize = 0;
    while k < rule.keywords.len()
        invariant
            k <= rule.keywords.len(),
            rule.enabled,
            low@ == lower_of(text@),
            forall|m: int| 0 <= m < k ==> !contains_seq(lower_of(text@), lower_of(#[trigger] rule.keywords@[m]@)),
        decreases rule.keywords.len() - k,
    {
        let kw = lowercase(rule.keywords[k].as_str());
        if contains_str(low.as_str(), kw.as_str()) {
            assert(contains_seq(lower_of(text@), lower_of(rule.keywords@[k as int]@)));
            return true;
        }
        k = k + 1;
    }
    false
}

/// The enabled rule with a keyword occurring in `text` (ignoring case) that
/// has the highest priority, the earliest in the list among equals. On a list
/// ordered by priority this is the first rule that fires.
pub fn match_dynamic_rule(rules: &Vec<DynamicRoutingRule>, text: &str) -> (r: Option<usize>)
    ensures
        match r {
            Some(i) => {
                &&& i < rules@.len()
                &&& rule_matches(rules@[i as int], text@)
                &&& forall|j: int| 0 <= j < rules@.len() && rule_matches(#[trigger] rules@[j], text@) ==> rules@[j].priority
                    <= rules@[i as int].priority
                &&& forall|j: int| 0 <= j < i && rule_matches(#[trigger] rules@[j], text@) ==> rules@[j].priority
                    < rules@[i as int].priority
            },
            None => forall|j: int| 0 <= j < rules@.len() ==> !rule_matches(#[trigger] rules@[j], text@),
        },
{
    let low = lowercase(text);
    let mut best: Option<usize> = None;
    let mut i: usize = 0;
    while i < rules.len()
        invariant
            i <= rules.len(),
            low@ == lower_of(text@),
            match best {
                Some(b) => {
                    &&& b < i
                    &&& rule_matches(rules@[b as int], text@)
                    &&& forall|j: int| 0 <= j < i && rule_matches(#[trigger] rules@[j], text@) ==> rules@[j].priority
                        <= rules@[b as int].priority
                    &&& forall|j: int| 0 <= j < b && rule_matches(#[trigger] rules@[j], text@) ==> rules@[j].priority
                        < rules@[b as int].priority
                },
                None => forall|j: int| 0 <= j < i ==> !rule_matches(#[trigger] rules@[j], text@),
            },
        decreases rules.len() - i,
    {
        if fires(&rules[i], text, &low) {
            match best {
                Some(b) => {
                    if rules[i].priority > rules[b].priority {
                        best = Some(i);
                    }
                },
                None => {
                    best = Some(i);
                },
            }
        }
        i = i + 1;
    }
    best
}

/// In a list ordered by priority, the first rule that fires has the highest
/// priority among the rules that fire, and comes before every other firing
/// rule of that priority.
pub proof fn lemma_first_match_is_best(rules: Seq<DynamicRoutingRule>, text: Seq<char>, i: int)
    requires
        by_priority(rules),
        0 <= i < rules.len(),
        rule_matches(rules[i], text),
        forall|j: int| 0 <= j < i ==> !rule_matches(#[trigger] rules[j], text),
    ensures
        forall|j: int| 0 <= j < rules.len() && rule_matches(#[trigger] rules[j], text) ==> rules[j].priority
            <= rules[i].priority,
        forall|j: int| 0 <= j < rules.len() && rule_matches(#[trigger] rules[j], text) && rules[j].priority
            == rules[i].priority ==> i <= j,
{
}

/// A rule added to a list ordered by priority goes after every rule of
/// priority at least its own, so among equal priorities the list keeps the
/// order in which rules were added.
pub proof fn lemma_added_after_equals(s: Seq<DynamicRoutingRule>, x: DynamicRoutingRule)
    requires
        by_priority(s),
    ensures
        forall|j: int| 0 <= j < s.len() && s[j].priority >= x.priority ==> j < rule_pos(s, x.priority),
        forall|j: int| 0 <= j < s.len() && s[j].priority >= x.priority ==> #[trigger] s.insert(
            rule_pos(s, x.priority),
            x,
        )[j] == s[j],
{
    lemma_rule_pos(s, x.priority);
}

} // verus!
