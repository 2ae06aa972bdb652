use armature_features::digest::leading_u64;
use armature_features::patterns::{
    matches_compiled, regex_matches, PatternTable, RegexCache, REGEX_CACHE_CAPACITY,
};
use armature_features::{
    Condition, EvaluationContext, FeatureFlag, Operator, Rollout, TargetingRule, Variation,
};

fn strings(values: &[&str]) -> Vec<String> {
    values.iter().map(|v| v.to_string()).collect()
}

fn colors() -> Vec<Variation> {
    vec![
        Variation::string("red"),
        Variation::string("blue"),
        Variation::string("green"),
    ]
}

#[test]
fn attributes_read_back() {
    let context = EvaluationContext::new()
        .with_attribute("plan", "free")
        .with_user_id("u-1")
        .with_attribute("plan", "pro");
    assert_eq!(context.get("plan"), Some("pro"));
    assert_eq!(context.user_id(), Some("u-1"));
    assert_eq!(context.get("user_id"), Some("u-1"));
    assert_eq!(context.get("PLAN"), None);

    let mut pairs = context.attributes();
    pairs.sort();
    assert_eq!(pairs, vec![("plan", "pro"), ("user_id", "u-1")]);
    assert!(EvaluationContext::default().attributes().is_empty());

    let copy = context.clone().with_attribute("plan", "trial");
    assert_eq!(copy.get("plan"), Some("trial"));
    assert_eq!(context.get("plan"), Some("pro"));
}

#[test]
fn variations_hold_their_type() {
    assert_eq!(Variation::boolean(true).as_bool(), Some(true));
    assert_eq!(Variation::boolean(true).as_string(), None);
    assert_eq!(Variation::string("x").as_string(), Some("x"));
    assert_eq!(Variation::string(String::from("y")).as_string(), Some("y"));
    assert_eq!(Variation::string("x").as_number(), None);
    let number = Variation::number(4.25f64.to_bits());
    assert_eq!(number.as_number().map(f64::from_bits), Some(4.25));
    assert_eq!(number.as_bool(), None);

    let value: serde_json::Value = serde_json::from_str("{\"k\": [1, null]}").unwrap();
    match Variation::Json(value.clone()).clone() {
        Variation::Json(copy) => assert_eq!(copy, value),
        other => panic!("expected json, got {other:?}"),
    }
}

#[test]
fn hashes_are_exact() {
    assert_eq!(Rollout::hash_to_u64("flag", "alice"), 10734706715731699326);
    assert_eq!(Rollout::hash_to_u64("flagge", "ümläut"), 3834410025772609416);
    assert_eq!(Rollout::hash_to_u64("", ""), 16693726192583184368);
    assert_eq!(Rollout::calculate_bucket("flag", "alice"), 26);
    assert_eq!(Rollout::calculate_bucket("flag", "NZ"), 92);
    assert_eq!(Rollout::reduce(1_234_567), 67);
    assert_eq!(
        leading_u64(&[1, 2, 3, 4, 5, 6, 7, 8, 9, 10]),
        0x0102030405060708
    );
}

#[test]
fn separator_tells_pairs_apart() {
    assert_ne!(
        Rollout::hash_to_u64("ab", "c"),
        Rollout::hash_to_u64("a", "bc")
    );
    assert_eq!(
        Rollout::hash_to_u64("a:b", "c"),
        Rollout::hash_to_u64("a", "b:c")
    );
}

#[test]
fn rollout_bands() {
    // alice is in bucket 26 of this flag.
    let alice = EvaluationContext::new().with_user_id("alice");
    for (percentage, included) in [(0, false), (26, false), (27, true), (100, true)] {
        let rollout = Rollout::new(percentage, Variation::boolean(true));
        assert_eq!(rollout.evaluate(&alice, "flag").is_some(), included);
        assert!(rollout
            .evaluate(&EvaluationContext::new(), "flag")
            .is_none());
    }
    assert_eq!(Rollout::new(250, Variation::boolean(true)).percentage, 100);

    let rollout = Rollout::new(30, Variation::string("new"));
    let served = (0..100)
        .filter(|bucket| rollout.serve(Some(*bucket)).is_some())
        .count();
    assert_eq!(served, 30);
    assert!(rollout.serve(None).is_none());
    let mut beyond = rollout.clone();
    beyond.percentage = 200;
    assert!((0..100).all(|bucket| beyond.serve(Some(bucket)).is_some()));
    assert_eq!(
        rollout.clone().serve(Some(29)).unwrap().as_string(),
        Some("new")
    );
}

#[test]
fn raising_the_percentage_keeps_users() {
    let context = |i: usize| EvaluationContext::new().with_user_id(format!("user-{i}"));
    let low = Rollout::new(20, Variation::boolean(true));
    let high = Rollout::new(60, Variation::boolean(true));
    for i in 0..200 {
        if low.evaluate(&context(i), "f").is_some() {
            assert!(high.evaluate(&context(i), "f").is_some());
        }
    }
}

#[test]
fn experiment_picks_by_hash() {
    let flag = FeatureFlag::multivariate("button-color", colors());
    // 4840072412534072059 % 3 == 1
    let user = EvaluationContext::new().with_user_id("user-123");
    assert_eq!(flag.evaluate(&user).as_string(), Some("blue"));
    assert_eq!(
        flag.bucket_variation(&user).unwrap().as_string(),
        Some("blue")
    );
    assert_eq!(flag.variation_at(5).unwrap().as_string(), Some("green"));

    // An explicit bucketing attribute is preferred to the user id.
    let bucketed = EvaluationContext::new()
        .with_user_id("someone-else")
        .with_attribute("bucket_by", "user-123");
    assert_eq!(flag.evaluate(&bucketed).as_string(), Some("blue"));

    // Without a bucketing attribute, or without the experiment, the default.
    let nobody = EvaluationContext::new();
    assert_eq!(flag.evaluate(&nobody).as_string(), Some("red"));
    assert_eq!(
        flag.with_experiment(false).evaluate(&user).as_string(),
        Some("red")
    );

    let none = FeatureFlag::multivariate("empty", Vec::new());
    assert_eq!(none.evaluate(&user).as_bool(), Some(false));
    assert!(none.bucket_variation(&user).is_none());
}

#[test]
fn experiment_over_one_variation_serves_it() {
    let mut flag = FeatureFlag::boolean("f", true).with_experiment(true);
    flag.variations = vec![Variation::boolean(false)];
    let user = EvaluationContext::new().with_user_id("u");
    assert_eq!(flag.evaluate(&user).as_bool(), Some(false));
    assert_eq!(
        flag.evaluate(&EvaluationContext::new()).as_bool(),
        Some(true)
    );
    assert_eq!(
        flag.resolve(None, None, Some(Variation::boolean(false)))
            .as_bool(),
        Some(false)
    );
    flag.variations.clear();
    assert_eq!(flag.evaluate(&user).as_bool(), Some(true));
}

#[test]
fn consecutive_hashes_pick_each_variation_once() {
    let flag = FeatureFlag::multivariate("button-color", colors());
    for base in [0, 1, 7, u64::MAX - 2] {
        let mut picks: Vec<String> = (0..3)
            .map(|i| flag.variation_at(base + i).unwrap())
            .map(|pick| pick.as_string().unwrap().to_string())
            .collect();
        picks.sort();
        assert_eq!(picks, strings(&["blue", "green", "red"]));
    }
}

#[test]
fn added_rule_comes_last() {
    let rule = |name: &str, value: &str| {
        TargetingRule::new(Variation::string(value)).with_condition(Condition::new(
            name,
            Operator::In,
            strings(&["yes"]),
        ))
    };
    let mut flag = FeatureFlag::multivariate("f", colors())
        .with_experiment(false)
        .with_rule(rule("a", "first"))
        .with_rule(rule("b", "second"));
    let both = EvaluationContext::new()
        .with_attribute("a", "yes")
        .with_attribute("b", "yes");
    let second = EvaluationContext::new().with_attribute("b", "yes");
    assert_eq!(flag.evaluate(&both).as_string(), Some("first"));
    assert_eq!(flag.evaluate(&second).as_string(), Some("second"));
    assert_eq!(
        flag.evaluate(&EvaluationContext::new()).as_string(),
        Some("red")
    );
    flag.enabled = false;
    assert_eq!(flag.evaluate(&second).as_string(), Some("red"));
}

#[test]
fn first_matching_rule_wins() {
    let rule = |values: &[&str], served: &str| {
        TargetingRule::new(Variation::string(served)).with_condition(Condition::new(
            "plan",
            Operator::In,
            strings(values),
        ))
    };
    let flag = FeatureFlag::boolean("tiers", false)
        .with_rule(rule(&["pro", "team"], "first"))
        .with_rule(rule(&["team", "free"], "second"))
        .with_rollout(Rollout::new(100, Variation::string("rolled out")));
    let plan = |name: &str| {
        EvaluationContext::new()
            .with_user_id("u")
            .with_attribute("plan", name)
    };
    assert_eq!(flag.evaluate(&plan("team")).as_string(), Some("first"));
    assert_eq!(flag.evaluate(&plan("free")).as_string(), Some("second"));
    assert_eq!(flag.evaluate(&plan("none")).as_string(), Some("rolled out"));
    assert_eq!(
        flag.evaluate(&EvaluationContext::new()).as_bool(),
        Some(false)
    );

    let described = flag.clone().with_description("tiers of service");
    assert_eq!(described.description.as_deref(), Some("tiers of service"));
    assert_eq!(described.evaluate(&plan("team")).as_string(), Some("first"));
}

#[test]
fn resolution_falls_through() {
    let mut flag = FeatureFlag::multivariate("f", colors())
        .with_rule(TargetingRule::new(Variation::string("rule")))
        .with_rollout(Rollout::new(10, Variation::string("rollout")));
    let pick = || Some(Variation::string("pick"));
    assert_eq!(
        flag.resolve(Some(0), Some(3), pick()).as_string(),
        Some("rule")
    );
    assert_eq!(
        flag.resolve(None, Some(3), pick()).as_string(),
        Some("rollout")
    );
    assert_eq!(
        flag.resolve(None, Some(10), pick()).as_string(),
        Some("pick")
    );
    assert_eq!(flag.resolve(None, None, None).as_string(), Some("red"));
    flag.enabled = false;
    assert_eq!(
        flag.resolve(Some(0), Some(3), pick()).as_string(),
        Some("red")
    );
    flag.variations.clear();
    assert_eq!(flag.resolve(None, None, None).as_bool(), Some(false));
}

#[test]
fn rules_need_all_conditions() {
    let anyone = TargetingRule::new(Variation::boolean(true));
    assert!(anyone.matches(&EvaluationContext::new()));
    let rule = anyone
        .with_condition(Condition::new("a", Operator::StartsWith, strings(&["x"])))
        .with_condition(Condition::new("b", Operator::NotIn, strings(&["y"])));
    let met = EvaluationContext::new().with_attribute("a", "xyz");
    assert!(rule.matches(&met));
    assert!(rule.clone().matches(&met));
    assert!(!rule.matches(&met.clone().with_attribute("b", "y")));
    assert!(!rule.matches(&EvaluationContext::new()));
}

#[test]
fn operators_on_edge_cases() {
    let context = EvaluationContext::new().with_attribute("t", "straße");
    let check = |operator: Operator, values: &[&str]| {
        Condition::new("t", operator, strings(values)).matches(&context)
    };
    assert!(check(Operator::Contains, &["zz", "aß"]));
    assert!(check(Operator::Contains, &[""]));
    assert!(!check(Operator::Contains, &[]));
    assert!(check(Operator::StartsWith, &["stra"]));
    assert!(!check(Operator::StartsWith, &["tra"]));
    assert!(check(Operator::EndsWith, &["ße"]));
    assert!(!check(Operator::EndsWith, &["straß"]));
    assert!(check(Operator::In, &["x", "straße"]));
    assert!(!check(Operator::In, &["stra"]));
    assert!(!check(Operator::NotIn, &["x", "straße"]));
    assert!(check(Operator::NotIn, &[]));
    assert!(check(Operator::Matches, &["(", "a.e$"]));
    assert!(!check(Operator::Matches, &["^a"]));

    assert!(Operator::NotIn.decide(None));
    assert!(!Operator::NotIn.decide(Some(true)));
    assert!(!Operator::Contains.decide(None));
    assert!(Operator::Contains.decide(Some(true)));
}

#[test]
fn pattern_table_empties_when_full() {
    let mut table = PatternTable::new();
    for i in 0..REGEX_CACHE_CAPACITY {
        table.store(&format!("p{i}"), None);
    }
    assert_eq!(table.len(), REGEX_CACHE_CAPACITY);
    // A known pattern is overwritten in place, a new one empties the table.
    table.store("p0", regex::Regex::new("p0").ok());
    assert_eq!(table.len(), REGEX_CACHE_CAPACITY);
    assert_eq!(table.lookup("p0", "xp0x"), Some(true));
    assert_eq!(table.lookup("p1", "p1"), Some(false));
    table.store("new", None);
    assert_eq!(table.len(), 1);
    assert_eq!(table.lookup("p0", "p0"), None);
    assert_eq!(table.lookup("new", "new"), Some(false));
}

#[test]
fn cached_answers_agree() {
    let cache = RegexCache::new();
    assert_eq!(cache.len(), 0);
    for _ in 0..2 {
        assert!(cache.matches("^a+$", "aaa"));
        assert!(!cache.matches("^a+$", "ab"));
        assert!(!cache.matches("[", "["));
    }
    assert_eq!(cache.len(), 2);
    assert!(matches_compiled(&regex::Regex::new("b").ok(), "abc"));
    assert!(!matches_compiled(&None, "abc"));

    let flag = FeatureFlag::boolean("f", false).with_rule(
        TargetingRule::new(Variation::boolean(true)).with_condition(Condition::new(
            "v",
            Operator::Matches,
            strings(&["^a+$"]),
        )),
    );
    let context = EvaluationContext::new().with_attribute("v", "aa");
    assert_eq!(flag.evaluate_with(&context, &cache).as_bool(), Some(true));
    assert_eq!(flag.evaluate(&context).as_bool(), Some(true));
    let rule = &flag.targeting[0];
    assert!(rule.matches_with(&context, &cache) && rule.matches(&context));
    let condition = &rule.conditions[0];
    assert!(condition.matches_with(&context, &cache) && condition.matches(&context));
    assert_eq!(cache.len(), 2);

    let table = cache.into_table();
    assert_eq!(table.len(), 2);
    assert_eq!(table.lookup("^a+$", "aaa"), Some(true));
    assert_eq!(table.lookup("[", "["), Some(false));
}

#[test]
fn shared_cache_stays_bounded() {
    let cache = RegexCache::new();
    for i in 0..REGEX_CACHE_CAPACITY {
        assert!(cache.matches(&format!("^p{i}$"), &format!("p{i}")));
        assert_eq!(cache.len(), i + 1);
    }
    assert!(cache.matches("^p0$", "p0"));
    assert_eq!(cache.len(), REGEX_CACHE_CAPACITY);
    assert!(cache.matches("new", "a new one"));
    assert_eq!(cache.len(), 1);
}

#[test]
fn patterns_are_compiled_once() {
    let mut table = PatternTable::new();
    assert!(regex_matches(&mut table, "b+", "abc"));
    assert_eq!(table.lookup("b+", "abc"), Some(true));
    assert_eq!(table.lookup("b+", "ac"), Some(false));
    assert!(!regex_matches(&mut table, "(", "("));
    assert_eq!(table.lookup("(", "("), Some(false));
    assert_eq!(table.len(), 2);
    for _ in 0..3 {
        assert!(!regex_matches(&mut table, "b+", "ac"));
    }
    assert_eq!(table.len(), 2);

    for i in 2..REGEX_CACHE_CAPACITY {
        assert!(!regex_matches(&mut table, &format!("p{i}"), ""));
    }
    assert_eq!(table.len(), REGEX_CACHE_CAPACITY);
    assert!(regex_matches(&mut table, "b+", "b"));
    assert_eq!(table.len(), REGEX_CACHE_CAPACITY);
    assert!(regex_matches(&mut table, "c+", "c"));
    assert_eq!(table.len(), 1);
    assert_eq!(table.lookup("b+", "b"), None);
}

fn shareable(_: &(impl Send + Sync)) {}

#[test]
fn cache_can_be_shared_between_threads() {
    let cache = RegexCache::new();
    shareable(&cache);
    assert!(cache.matches("x", "xyz"));
}
