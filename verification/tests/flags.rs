use armature_features::patterns::{regex_matches, PatternTable, REGEX_CACHE_CAPACITY};
use armature_features::{
    Condition, EvaluationContext, FeatureFlag, Operator, Rollout, TargetingRule, Variation,
};
use std::collections::HashMap;

/// The pattern cache must stay capped while still answering correctly across
/// the overflow.
#[test]
fn test_regex_cache_is_bounded() {
    let mut cache = PatternTable::new();
    for i in 0..(REGEX_CACHE_CAPACITY * 2) {
        let pattern = format!("^bounded-cache-probe-{i}$");
        assert!(regex_matches(
            &mut cache,
            &pattern,
            &format!("bounded-cache-probe-{i}")
        ));
        assert!(!regex_matches(&mut cache, &pattern, "no-match"));
    }

    let len = cache.len();
    assert!(
        len <= REGEX_CACHE_CAPACITY,
        "regex cache grew to {len}, above the {REGEX_CACHE_CAPACITY} cap"
    );
}

#[test]
fn test_invalid_regex_pattern_never_matches() {
    assert!(!regex_matches(
        &mut PatternTable::new(),
        "([unclosed",
        "([unclosed"
    ));
}

#[test]
fn test_boolean_flag() {
    let flag = FeatureFlag::boolean("test-flag", true);
    let context = EvaluationContext::new().with_user_id("user-1");

    let result = flag.evaluate(&context);
    assert_eq!(result.as_bool(), Some(true));
}

#[test]
fn test_disabled_flag() {
    let mut flag = FeatureFlag::boolean("test-flag", true);
    flag.enabled = false;

    let context = EvaluationContext::new().with_user_id("user-1");
    let result = flag.evaluate(&context);
    assert_eq!(result.as_bool(), Some(false));
}

#[test]
fn test_targeting_rule() {
    let rule = TargetingRule::new(Variation::boolean(true)).with_condition(Condition::new(
        "email",
        Operator::EndsWith,
        vec!["@example.com".to_string()],
    ));

    let flag = FeatureFlag::boolean("test-flag", false).with_rule(rule);

    let context = EvaluationContext::new()
        .with_user_id("user-1")
        .with_attribute("email", "user@example.com");

    let result = flag.evaluate(&context);
    assert_eq!(result.as_bool(), Some(true));
}

#[test]
fn test_rollout() {
    let rollout = Rollout::new(50, Variation::boolean(true));
    let flag = FeatureFlag::boolean("test-flag", false).with_rollout(rollout);

    // Test multiple users
    let mut enabled_count = 0;
    for i in 0..100 {
        let context = EvaluationContext::new().with_user_id(format!("user-{}", i));
        if flag.evaluate(&context).as_bool() == Some(true) {
            enabled_count += 1;
        }
    }

    // Should be close to 50%
    assert!((40..=60).contains(&enabled_count));
}

#[test]
fn test_multivariate_flag() {
    let flag = FeatureFlag::multivariate(
        "color-scheme",
        vec![
            Variation::string("red"),
            Variation::string("blue"),
            Variation::string("green"),
        ],
    );

    let context = EvaluationContext::new().with_user_id("user-1");
    let result = flag.evaluate(&context);
    assert!(result.as_string().is_some());
}

/// A `Matches` rule fires through the regex crate.
#[test]
fn test_matches_operator_fires() {
    let rule = TargetingRule::new(Variation::boolean(true)).with_condition(Condition::new(
        "email",
        Operator::Matches,
        vec![r"^[a-z]+@example\.(com|org)$".to_string()],
    ));

    let flag = FeatureFlag::boolean("test-flag", false).with_rule(rule);

    let matching = EvaluationContext::new()
        .with_user_id("u")
        .with_attribute("email", "alice@example.org");
    assert_eq!(flag.evaluate(&matching).as_bool(), Some(true));

    let non_matching = EvaluationContext::new()
        .with_user_id("u")
        .with_attribute("email", "alice@other.net");
    assert_eq!(flag.evaluate(&non_matching).as_bool(), Some(false));
}

#[test]
fn test_matches_condition_directly() {
    let cond = Condition::new(
        "version",
        Operator::Matches,
        vec![r"^v\d+\.\d+$".to_string()],
    );
    let ctx = EvaluationContext::new().with_attribute("version", "v12.4");
    assert!(cond.matches(&ctx));

    let ctx_bad = EvaluationContext::new().with_attribute("version", "12.4");
    assert!(!cond.matches(&ctx_bad));
}

#[test]
fn test_matches_invalid_regex_does_not_match() {
    let cond = Condition::new("x", Operator::Matches, vec!["(".to_string()]);
    let ctx = EvaluationContext::new().with_attribute("x", "anything(");
    assert!(!cond.matches(&ctx));
}

#[test]
fn test_operator_in_and_not_in() {
    let ctx = EvaluationContext::new().with_attribute("plan", "pro");

    let in_cond = Condition::new(
        "plan",
        Operator::In,
        vec!["pro".to_string(), "enterprise".to_string()],
    );
    assert!(in_cond.matches(&ctx));

    let not_in_cond = Condition::new("plan", Operator::NotIn, vec!["free".to_string()]);
    assert!(not_in_cond.matches(&ctx));

    // Missing attribute: In is false, NotIn is true.
    let empty = EvaluationContext::new();
    assert!(!in_cond.matches(&empty));
    assert!(not_in_cond.matches(&empty));
}

#[test]
fn test_operator_contains_startswith_endswith() {
    let ctx = EvaluationContext::new().with_attribute("email", "bob@example.com");

    assert!(Condition::new("email", Operator::Contains, vec!["@exam".to_string()]).matches(&ctx));
    assert!(Condition::new("email", Operator::StartsWith, vec!["bob".to_string()]).matches(&ctx));
    assert!(Condition::new("email", Operator::EndsWith, vec![".com".to_string()]).matches(&ctx));
    assert!(!Condition::new("email", Operator::Contains, vec!["zzz".to_string()]).matches(&ctx));
}

/// A multivariate flag must distribute users across all of its variations.
#[test]
fn test_multivariate_distributes_across_variants() {
    let flag = FeatureFlag::multivariate(
        "button-color",
        vec![
            Variation::string("red"),
            Variation::string("blue"),
            Variation::string("green"),
        ],
    );

    let mut counts: HashMap<String, usize> = HashMap::new();
    for i in 0..600 {
        let ctx = EvaluationContext::new().with_user_id(format!("user-{i}"));
        let variant = flag.evaluate(&ctx).as_string().unwrap().to_string();
        *counts.entry(variant).or_default() += 1;
    }

    // All three variants must appear.
    assert_eq!(counts.len(), 3, "expected all 3 variants, got {counts:?}");
    for variant in ["red", "blue", "green"] {
        let c = counts.get(variant).copied().unwrap_or(0);
        // Roughly even: each ~200/600, allow generous slack.
        assert!(
            (100..=300).contains(&c),
            "variant {variant} count {c} outside expected band: {counts:?}"
        );
    }
}

#[test]
fn test_multivariate_is_deterministic() {
    let flag = FeatureFlag::multivariate(
        "layout",
        vec![Variation::string("a"), Variation::string("b")],
    );
    let ctx = EvaluationContext::new().with_user_id("stable-user");
    let first = flag.evaluate(&ctx).as_string().unwrap().to_string();
    let second = flag.evaluate(&ctx).as_string().unwrap().to_string();
    assert_eq!(first, second);
}

/// `with_bucket_by` changes which context attribute drives bucketing: holding
/// `org_id` fixed keeps the outcome stable even as `user_id` varies, and two
/// contexts differing only in `org_id` can land in different buckets.
#[test]
fn test_rollout_with_bucket_by_changes_bucketing_attribute() {
    let rollout = Rollout::new(50, Variation::boolean(true)).with_bucket_by("org_id");
    assert_eq!(rollout.bucket_by.as_deref(), Some("org_id"));

    let flag = FeatureFlag::boolean("bucket-by-flag", false).with_rollout(rollout);

    // Determinism for a fixed bucket-by value, regardless of user_id.
    let ctx_a = EvaluationContext::new()
        .with_user_id("user-1")
        .with_attribute("org_id", "org-42");
    let ctx_b = EvaluationContext::new()
        .with_user_id("user-99999") // different user...
        .with_attribute("org_id", "org-42"); // ...same org.
    assert_eq!(
        flag.evaluate(&ctx_a).as_bool(),
        flag.evaluate(&ctx_b).as_bool(),
        "org_id-bucketed flag must ignore user_id"
    );

    // Two contexts differing only in the bucket-by attribute must be able to
    // land in different buckets. Scan a handful of org ids to find a pair.
    let mut saw_true = false;
    let mut saw_false = false;
    for i in 0..100 {
        let ctx = EvaluationContext::new()
            .with_user_id("fixed-user") // held constant on purpose
            .with_attribute("org_id", format!("org-{i}"));
        match flag.evaluate(&ctx).as_bool() {
            Some(true) => saw_true = true,
            _ => saw_false = true,
        }
    }
    assert!(
        saw_true && saw_false,
        "varying only org_id must produce both included and excluded buckets"
    );
}

/// The default bucket-by (`user_id`) and an explicit `with_bucket_by` on a
/// different attribute can disagree for the same context, proving the knob
/// actually redirects which attribute is hashed.
#[test]
fn test_rollout_bucket_by_differs_from_default() {
    let ctx = EvaluationContext::new()
        .with_user_id("alice")
        .with_attribute("country", "NZ");

    // Find a rollout percentage where user_id and country buckets disagree.
    let user_bucket = Rollout::calculate_bucket("flag", "alice");
    let country_bucket = Rollout::calculate_bucket("flag", "NZ");
    assert_ne!(
        user_bucket, country_bucket,
        "test precondition: the two attributes hash to different buckets"
    );
    let pct = user_bucket.min(country_bucket) + 1;

    let by_user = FeatureFlag::boolean("flag", false)
        .with_rollout(Rollout::new(pct, Variation::boolean(true)));
    let by_country = FeatureFlag::boolean("flag", false)
        .with_rollout(Rollout::new(pct, Variation::boolean(true)).with_bucket_by("country"));

    // Same context, different bucket-by attribute -> different outcome.
    assert_ne!(
        by_user.evaluate(&ctx).as_bool(),
        by_country.evaluate(&ctx).as_bool()
    );
}

#[test]
fn test_calculate_bucket_uniform_and_in_range() {
    // Bucketing must be in range and flat across all 100 buckets. That every
    // bucket is hit would not show flatness: folding a single hash byte onto
    // 0..99 hits them all at a 3:2 count ratio. So a large deterministic sample
    // is held to the uniform expectation with a chi-square statistic.
    const N: usize = 200_000;
    const BUCKETS: usize = 100;

    let mut counts = [0usize; BUCKETS];
    for i in 0..N {
        let b = Rollout::calculate_bucket("flag", &format!("user{i}"));
        assert!((b as usize) < BUCKETS, "bucket {b} out of range");
        counts[b as usize] += 1;
    }

    // Every bucket must be hit (necessary but, alone, insufficient).
    assert!(
        counts.iter().all(|&c| c > 0),
        "some buckets never hit: {counts:?}"
    );

    // Chi-square over 99 degrees of freedom: near 99 for a uniform mapping, in
    // the thousands for the folded byte.
    let expected = N as f64 / BUCKETS as f64;
    let chi_square: f64 = counts
        .iter()
        .map(|&c| {
            let diff = c as f64 - expected;
            diff * diff / expected
        })
        .sum();

    assert!(
        chi_square < 200.0,
        "distribution not flat: chi-square {chi_square:.1} exceeds 200 \
         (uniform expects ~99); counts={counts:?}"
    );
}
