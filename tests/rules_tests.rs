use workbench_core::rules::{
    add_dynamic_rule, delete_dynamic_rule, match_dynamic_rule, update_dynamic_rule, DynamicRoutingRule, RuleError,
};

fn rule(id: &str, keywords: &[&str], target: &str, priority: i32, enabled: bool) -> DynamicRoutingRule {
    DynamicRoutingRule {
        id: id.to_string(),
        name: id.to_string(),
        keywords: keywords.iter().map(|s| s.to_string()).collect(),
        target_model: target.to_string(),
        priority,
        enabled,
    }
}

fn ids(v: &[DynamicRoutingRule]) -> Vec<&str> {
    v.iter().map(|r| r.id.as_str()).collect()
}

#[test]
fn dynamic_rule_match_prefers_priority() {
    let mut rules = Vec::new();
    add_dynamic_rule(&mut rules, rule("a", &["review"], "openai,gpt-4o", 10, true)).unwrap();
    add_dynamic_rule(&mut rules, rule("b", &["REVIEW", "code"], "anthropic,opus", 20, true)).unwrap();
    assert_eq!(ids(&rules), vec!["b", "a"]);
    let i = match_dynamic_rule(&rules, "Please REVIEW this code").unwrap();
    assert_eq!(rules[i].id, "b");
    assert_eq!(rules[i].target_model, "anthropic,opus");
}

#[test]
fn equal_priority_keeps_insertion_order() {
    let mut rules = Vec::new();
    add_dynamic_rule(&mut rules, rule("first", &["x"], "p,m", 5, true)).unwrap();
    add_dynamic_rule(&mut rules, rule("second", &["x"], "p,n", 5, true)).unwrap();
    add_dynamic_rule(&mut rules, rule("low", &["x"], "p,o", 1, true)).unwrap();
    assert_eq!(ids(&rules), vec!["first", "second", "low"]);
    let i = match_dynamic_rule(&rules, "an X here").unwrap();
    assert_eq!(rules[i].id, "first");
}

#[test]
fn disabled_rules_and_misses() {
    let mut rules = Vec::new();
    add_dynamic_rule(&mut rules, rule("off", &["deploy"], "p,m", 9, false)).unwrap();
    add_dynamic_rule(&mut rules, rule("on", &["Deploy"], "p,n", 1, true)).unwrap();
    let i = match_dynamic_rule(&rules, "deploy now").unwrap();
    assert_eq!(rules[i].id, "on");
    assert_eq!(match_dynamic_rule(&rules, "nothing relevant"), None);
    let empty: Vec<DynamicRoutingRule> = Vec::new();
    assert_eq!(match_dynamic_rule(&empty, "deploy"), None);
}

#[test]
fn duplicate_rule_id_is_refused() {
    let mut rules = Vec::new();
    add_dynamic_rule(&mut rules, rule("a", &["x"], "p,m", 1, true)).unwrap();
    assert_eq!(add_dynamic_rule(&mut rules, rule("a", &["y"], "p,m", 2, true)), Err(RuleError::DuplicateId));
    assert_eq!(rules.len(), 1);
}

#[test]
fn update_reorders_and_delete_removes() {
    let mut rules = Vec::new();
    add_dynamic_rule(&mut rules, rule("a", &["x"], "p,m", 1, true)).unwrap();
    add_dynamic_rule(&mut rules, rule("b", &["y"], "p,m", 2, true)).unwrap();
    assert_eq!(ids(&rules), vec!["b", "a"]);
    update_dynamic_rule(&mut rules, rule("a", &["x"], "p,q", 3, true)).unwrap();
    assert_eq!(ids(&rules), vec!["a", "b"]);
    assert_eq!(rules[0].target_model, "p,q");
    assert_eq!(update_dynamic_rule(&mut rules, rule("zz", &[], "p,q", 3, true)), Err(RuleError::NotFound));
    delete_dynamic_rule(&mut rules, "a").unwrap();
    assert_eq!(ids(&rules), vec!["b"]);
    assert_eq!(delete_dynamic_rule(&mut rules, "a"), Err(RuleError::NotFound));
}

#[test]
fn match_prefers_priority_in_any_order() {
    let rules = vec![
        rule("low", &["x"], "p,a", 1, true),
        rule("high", &["x"], "p,b", 9, true),
        rule("high2", &["x"], "p,c", 9, true),
    ];
    let i = match_dynamic_rule(&rules, "x").unwrap();
    assert_eq!(rules[i].id, "high");
}
