//! Feature flags, targeting rules, and evaluation.
pub use crate::condition::{Condition, Operator};
pub use crate::context::EvaluationContext;
pub use crate::rollout::Rollout;
pub use crate::variation::Variation;

use crate::condition::ConditionView;
use crate::patterns::{PatternMemo, PatternTable, RegexCache};
use crate::rollout::RolloutView;
use vstd::prelude::*;

verus! {

/// Targeting rule.
#[derive(Debug)]
pub struct TargetingRule {
    /// Rule conditions (all must match)
    pub conditions: Vec<Condition>,
    /// Variation to return if rule matches
    pub variation: Variation,
}

/// The model of a [`TargetingRule`].
pub struct RuleView {
    pub conditions: Seq<ConditionView>,
    pub variation: Variation,
}

impl RuleView {
    /// All conditions of the rule are met by a context with these attributes.
    pub open spec fn holds(self, attributes: Map<Seq<char>, Seq<char>>) -> bool {
        forall|i: int|
            0 <= i < self.conditions.len() ==> #[trigger] self.conditions[i].holds(attributes)
    }
}

impl View for TargetingRule {
    type V = RuleView;

    open spec fn view(&self) -> RuleView {
        RuleView {
            conditions: self.conditions@.map_values(|condition: Condition| condition@),
            variation: self.variation,
        }
    }
}

impl Clone for TargetingRule {
    fn clone(&self) -> (copy: Self)
        ensures
            copy@ == self@,
    {
        let copy = TargetingRule {
            conditions: self.conditions.clone(),
            variation: self.variation.clone(),
        };
        assert(copy@.conditions =~= self@.conditions);
        copy
    }
}

impl TargetingRule {
    /// A rule without conditions, which every context matches.
    pub fn new(variation: Variation) -> (rule: Self)
        ensures
            rule@ == (RuleView { conditions: Seq::empty(), variation }),
    {
        let rule = TargetingRule { conditions: Vec::new(), variation };
        assert(rule@.conditions =~= Seq::empty());
        rule
    }

    /// Adds a condition.
    pub fn with_condition(self, condition: Condition) -> (rule: Self)
        ensures
            rule@ == (RuleView {
                conditions: self@.conditions.push(condition@),
                variation: self@.variation,
            }),
    {
        let TargetingRule { mut conditions, variation } = self;
        conditions.push(condition);
        let rule = TargetingRule { conditions, variation };
        assert(rule@.conditions =~= self@.conditions.push(condition@));
        rule
    }

    /// Whether `context` meets all conditions. Patterns are compiled through
    /// `memo`, which has no bearing on the answer.
    fn matches_through(&self, context: &EvaluationContext, memo: &mut PatternMemo) -> (met: bool)
        requires
            old(memo).sound(),
        ensures
            met == self@.holds(context@),
            final(memo).sound(),
    {
        let mut i: usize = 0;
        while i < self.conditions.len()
            invariant
                memo.sound(),
                i <= self.conditions@.len(),
                forall|j: int| 0 <= j < i ==> #[trigger] self@.conditions[j].holds(context@),
            decreases self.conditions@.len() - i,
        {
            if !self.conditions[i].matches_through(context, memo) {
                assert(!self@.conditions[i as int].holds(context@));
                return false;
            }
            i += 1;
        }
        true
    }

    /// Whether `context` meets all conditions. Patterns are compiled through
    /// `cache`, which has no bearing on the answer.
    pub fn matches_with(&self, context: &EvaluationContext, cache: &RegexCache) -> (met: bool)
        ensures
            met == self@.holds(context@),
    {
        self.matches_through(context, &mut PatternMemo::Shared(cache))
    }

    /// Whether `context` meets all conditions. Compiled patterns live for this one
    /// call; [`TargetingRule::matches_with`] keeps them in a cache.
    pub fn matches(&self, context: &EvaluationContext) -> (met: bool)
        ensures
            met == self@.holds(context@),
    {
        self.matches_through(context, &mut PatternMemo::Own(PatternTable::new()))
    }
}

/// Feature flag.
#[derive(Debug)]
pub struct FeatureFlag {
    /// Flag key/name
    pub key: String,
    /// Flag description
    pub description: Option<String>,
    /// Whether flag is enabled globally
    pub enabled: bool,
    /// Targeting rules
    pub targeting: Vec<TargetingRule>,
    /// Default variation when no rules match
    pub default_variation: Variation,
    /// All available variations
    pub variations: Vec<Variation>,
    /// Rollout configuration
    pub rollout: Option<Rollout>,
    /// Whether this flag distributes users uniformly across `variations`
    /// (multivariate experiment / A/B test). When `true` and no targeting rule
    /// or rollout applies, each context is deterministically bucketed into one
    /// of the available variations.
    pub experiment: bool,
}

/// The model of a [`FeatureFlag`].
pub struct FlagView {
    pub key: Seq<char>,
    pub description: Option<Seq<char>>,
    pub enabled: bool,
    pub targeting: Seq<RuleView>,
    pub default_variation: Variation,
    pub variations: Seq<Variation>,
    pub rollout: Option<RolloutView>,
    pub experiment: bool,
}

impl FlagView {
    /// What the flag serves while it is disabled.
    pub open spec fn off_variation(self) -> Variation {
        if self.variations.len() > 0 {
            self.variations[0]
        } else {
            Variation::Boolean(false)
        }
    }

    /// Rule `i` holds and no rule before it does.
    pub open spec fn first_match(self, attributes: Map<Seq<char>, Seq<char>>, i: int) -> bool {
        &&& 0 <= i < self.targeting.len()
        &&& self.targeting[i].holds(attributes)
        &&& forall|j: int| 0 <= j < i ==> !#[trigger] self.targeting[j].holds(attributes)
    }

    /// The first rule that holds, if any does.
    pub open spec fn serving_rule(self, attributes: Map<Seq<char>, Seq<char>>) -> Option<int> {
        if exists|i: int| self.first_match(attributes, i) {
            Some(choose|i: int| self.first_match(attributes, i))
        } else {
            None
        }
    }

    /// The rollout bucket of a context, where the flag has a rollout.
    pub open spec fn rollout_bucket(self, attributes: Map<Seq<char>, Seq<char>>) -> Option<nat> {
        match self.rollout {
            Some(rollout) => rollout.bucket(attributes, self.key),
            None => None,
        }
    }

    /// The value by which an experiment buckets a context: the `bucket_by`
    /// attribute, else the user id.
    pub open spec fn experiment_value(self, attributes: Map<Seq<char>, Seq<char>>) -> Option<
        Seq<char>,
    > {
        match crate::context::attribute_of(attributes, "bucket_by"@) {
            Some(value) => Some(value),
            None => crate::context::attribute_of(attributes, "user_id"@),
        }
    }

    /// The hash by which an experiment buckets a context.
    pub open spec fn experiment_hash(self, attributes: Map<Seq<char>, Seq<char>>) -> Option<nat> {
        match self.experiment_value(attributes) {
            Some(value) => Some(crate::rollout::bucketing_hash(self.key, value)),
            None => None,
        }
    }

    /// The variation that an experiment picks for a hash.
    pub open spec fn variation_for(self, hash: Option<nat>) -> Option<Variation> {
        match hash {
            Some(number) if self.variations.len() > 0 => Some(
                self.variations[(number % self.variations.len()) as int],
            ),
            _ => None,
        }
    }

    /// The variation that an experiment picks for a context.
    pub open spec fn experiment_pick(self, attributes: Map<Seq<char>, Seq<char>>) -> Option<
        Variation,
    > {
        self.variation_for(self.experiment_hash(attributes))
    }

    /// Whether the flag runs an experiment: one runs where there is a variation to
    /// pick.
    pub open spec fn runs_experiment(self) -> bool {
        self.experiment && self.variations.len() > 0
    }

    /// The variation served, given the first rule that holds, the rollout bucket
    /// and the experiment's pick for the context.
    pub open spec fn resolution(
        self,
        rule: Option<int>,
        bucket: Option<nat>,
        pick: Option<Variation>,
    ) -> Variation {
        let served = match self.rollout {
            Some(rollout) => rollout.serves(bucket),
            None => None,
        };
        if !self.enabled {
            self.off_variation()
        } else if rule is Some {
            self.targeting[rule->0].variation
        } else if served is Some {
            served->0
        } else if self.runs_experiment() && pick is Some {
            pick->0
        } else {
            self.default_variation
        }
    }

    /// The variation that the flag serves to a context with these attributes.
    pub open spec fn evaluation(self, attributes: Map<Seq<char>, Seq<char>>) -> Variation {
        self.resolution(
            self.serving_rule(attributes),
            self.rollout_bucket(attributes),
            self.experiment_pick(attributes),
        )
    }
}

impl View for FeatureFlag {
    type V = FlagView;

    open spec fn view(&self) -> FlagView {
        FlagView {
            key: self.key@,
            description: match self.description {
                Some(text) => Some(text@),
                None => None,
            },
            enabled: self.enabled,
            targeting: self.targeting@.map_values(|rule: TargetingRule| rule@),
            default_variation: self.default_variation,
            variations: self.variations@,
            rollout: match self.rollout {
                Some(rollout) => Some(rollout@),
                None => None,
            },
            experiment: self.experiment,
        }
    }
}

impl Clone for FeatureFlag {
    fn clone(&self) -> (copy: Self)
        ensures
            copy@ == self@,
    {
        let copy = FeatureFlag {
            key: self.key.clone(),
            description: match &self.description {
                Some(text) => Some(text.clone()),
                None => None,
            },
            enabled: self.enabled,
            targeting: self.targeting.clone(),
            default_variation: self.default_variation.clone(),
            variations: self.variations.clone(),
            rollout: match &self.rollout {
                Some(rollout) => Some(rollout.clone()),
                None => None,
            },
            experiment: self.experiment,
        };
        assert(copy@.targeting =~= self@.targeting);
        assert(copy@.variations =~= self@.variations);
        copy
    }
}

/// A rule index as the model has it.
pub open spec fn rule_number(rule: Option<usize>) -> Option<int> {
    match rule {
        Some(index) => Some(index as int),
        None => None,
    }
}

impl FeatureFlag {
    /// A simple boolean feature flag.
    ///
    /// `default_value` is what the flag serves when no targeting rule matches.
    /// The flag is enabled (disable it with `flag.enabled = false`).
    pub fn boolean(key: impl Into<String>, default_value: bool) -> (flag: Self)
        ensures
            crate::text::converts_to(key, flag@.key),
            flag@ == (FlagView {
                key: flag@.key,
                description: None,
                enabled: true,
                targeting: Seq::empty(),
                default_variation: Variation::Boolean(default_value),
                variations: seq![Variation::Boolean(false), Variation::Boolean(true)],
                rollout: None,
                experiment: false,
            }),
    {
        let mut variations: Vec<Variation> = Vec::new();
        variations.push(Variation::boolean(false));
        variations.push(Variation::boolean(true));
        let flag = FeatureFlag {
            key: key.into(),
            description: None,
            enabled: true,
            targeting: Vec::new(),
            default_variation: Variation::boolean(default_value),
            variations,
            rollout: None,
            experiment: false,
        };
        assert(flag@.targeting =~= Seq::empty());
        assert(flag@.variations =~= seq![Variation::Boolean(false), Variation::Boolean(true)]);
        flag
    }

    /// A multivariate feature flag, which distributes contexts across
    /// `variations`. Its default is the first of them.
    pub fn multivariate(key: impl Into<String>, variations: Vec<Variation>) -> (flag: Self)
        ensures
            crate::text::converts_to(key, flag@.key),
            flag@ == (FlagView {
                key: flag@.key,
                description: None,
                enabled: true,
                targeting: Seq::empty(),
                default_variation: if variations@.len() > 0 {
                    variations@[0]
                } else {
                    Variation::Boolean(false)
                },
                variations: variations@,
                rollout: None,
                experiment: true,
            }),
    {
        let default_variation = if variations.len() > 0 {
            variations[0].clone()
        } else {
            Variation::Boolean(false)
        };
        let flag = FeatureFlag {
            key: key.into(),
            description: None,
            enabled: true,
            targeting: Vec::new(),
            default_variation,
            variations,
            rollout: None,
            experiment: true,
        };
        assert(flag@.targeting =~= Seq::empty());
        flag
    }

    /// Enables or disables multivariate experiment bucketing.
    pub fn with_experiment(self, experiment: bool) -> (flag: Self)
        ensures
            flag@ == (FlagView { experiment, ..self@ }),
    {
        let mut flag = self;
        flag.experiment = experiment;
        flag
    }

    /// Sets the description.
    pub fn with_description(self, description: impl Into<String>) -> (flag: Self)
        ensures
            flag@.description matches Some(text) && crate::text::converts_to(description, text),
            flag@ == (FlagView { description: flag@.description, ..self@ }),
    {
        let mut flag = self;
        flag.description = Some(description.into());
        flag
    }

    /// Adds a targeting rule after those that the flag has.
    pub fn with_rule(self, rule: TargetingRule) -> (flag: Self)
        ensures
            flag@ == (FlagView { targeting: self@.targeting.push(rule@), ..self@ }),
    {
        let mut flag = self;
        flag.targeting.push(rule);
        assert(flag@.targeting =~= self@.targeting.push(rule@));
        flag
    }

    /// Sets the rollout configuration.
    pub fn with_rollout(self, rollout: Rollout) -> (flag: Self)
        ensures
            flag@ == (FlagView { rollout: Some(rollout@), ..self@ }),
    {
        let mut flag = self;
        flag.rollout = Some(rollout);
        flag
    }

    /// The variation served to `context`. Compiled patterns live for this one call;
    /// [`FeatureFlag::evaluate_with`] keeps them in a cache.
    pub fn evaluate(&self, context: &EvaluationContext) -> (variation: Variation)
        ensures
            variation == self@.evaluation(context@),
    {
        self.evaluate_through(context, &mut PatternMemo::Own(PatternTable::new()))
    }

    /// The variation served to `context`. Patterns are compiled through `cache`,
    /// which has no bearing on the answer.
    pub fn evaluate_with(&self, context: &EvaluationContext, cache: &RegexCache) -> (variation:
        Variation)
        ensures
            variation == self@.evaluation(context@),
    {
        self.evaluate_through(context, &mut PatternMemo::Shared(cache))
    }

    /// The variation served to `context`. Patterns are compiled through `memo`,
    /// which has no bearing on the answer.
    fn evaluate_through(&self, context: &EvaluationContext, memo: &mut PatternMemo) -> (variation:
        Variation)
        requires
            old(memo).sound(),
        ensures
            variation == self@.evaluation(context@),
            final(memo).sound(),
    {
        if !self.enabled {
            return self.resolve(None, None, None);
        }
        let rule = self.first_matching_rule(context, memo);
        if rule.is_some() {
            return self.resolve(rule, None, None);
        }
        let bucket = match &self.rollout {
            Some(rollout) => rollout.bucket(context, self.key.as_str()),
            None => None,
        };
        let pick = if self.experiment && self.variations.len() > 0 {
            self.bucket_variation(context)
        } else {
            None
        };
        self.resolve(rule, bucket, pick)
    }

    /// The index of the first rule that `context` matches.
    fn first_matching_rule(&self, context: &EvaluationContext, memo: &mut PatternMemo) -> (rule:
        Option<usize>)
        requires
            old(memo).sound(),
        ensures
            final(memo).sound(),
            rule_number(rule) == self@.serving_rule(context@),
            rule matches Some(i) ==> i < self.targeting@.len(),
    {
        let mut i: usize = 0;
        while i < self.targeting.len()
            invariant
                memo.sound(),
                i <= self.targeting@.len(),
                forall|j: int| 0 <= j < i ==> !#[trigger] self@.targeting[j].holds(context@),
            decreases self.targeting@.len() - i,
        {
            if self.targeting[i].matches_through(context, memo) {
                proof {
                    assert(self@.first_match(context@, i as int));
                    let k = choose|k: int| self@.first_match(context@, k);
                    assert(k == i) by {
                        assert(self@.targeting[k].holds(context@));
                    }
                }
                return Some(i);
            }
            i += 1;
        }
        assert forall|k: int| !self@.first_match(context@, k) by {
            if self@.first_match(context@, k) {
                assert(self@.targeting[k].holds(context@));
            }
        }
        None
    }

    /// Deterministically selects one of the flag's `variations` for `context` by
    /// hashing the bucketing attribute across the full variation set.
    ///
    /// Returns `None` when no bucketing attribute is present on the context, or
    /// when the flag has no variations.
    pub fn bucket_variation(&self, context: &EvaluationContext) -> (pick: Option<Variation>)
        ensures
            pick == self@.experiment_pick(context@),
    {
        // Prefer an explicit bucketing attribute, else the user id.
        let value = match context.get("bucket_by") {
            Some(value) => Some(value),
            None => context.get("user_id"),
        };
        match value {
            Some(value) => self.variation_at(Rollout::hash_to_u64(self.key.as_str(), value)),
            None => None,
        }
    }

    /// The variation that an experiment picks for a hash; `None` where the flag
    /// has no variations.
    pub fn variation_at(&self, hash: u64) -> (pick: Option<Variation>)
        ensures
            pick == self@.variation_for(Some(hash as nat)),
    {
        let n: usize = self.variations.len();
        if n == 0 {
            return None;
        }
        let index: usize = (hash % n as u64) as usize;
        Some(self.variations[index].clone())
    }

    /// The variation served, given the first rule that holds, the rollout bucket
    /// and the experiment's pick for the context.
    pub fn resolve(&self, rule: Option<usize>, bucket: Option<u8>, pick: Option<Variation>) -> (
    variation: Variation)
        requires
            rule matches Some(i) ==> i < self.targeting@.len(),
        ensures
            variation == self@.resolution(
                rule_number(rule),
                crate::rollout::bucket_number(bucket),
                pick,
            ),
    {
        // A disabled flag serves its off variation.
        if !self.enabled {
            return if self.variations.len() > 0 {
                self.variations[0].clone()
            } else {
                Variation::Boolean(false)
            };
        }
        if let Some(i) = rule {
            return self.targeting[i].variation.clone();
        }
        if let Some(rollout) = &self.rollout {
            if let Some(variation) = rollout.serve(bucket) {
                return variation;
            }
        }
        if self.experiment && self.variations.len() > 0 {
            if let Some(variation) = pick {
                return variation;
            }
        }
        self.default_variation.clone()
    }
}

} // verus!
