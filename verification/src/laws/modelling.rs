//! Laws of the models: each says what its value holds, field by field.
use crate::condition::Condition;
use crate::flag::{FeatureFlag, TargetingRule};
use crate::rollout::Rollout;
use vstd::prelude::*;

verus! {

/// The model of a condition has its attribute, its operator and its values, each
/// in its place.
pub proof fn law_condition_model(condition: Condition)
    ensures
        condition@.attribute == condition.attribute@,
        condition@.operator == condition.operator,
        condition@.values.len() == condition.values@.len(),
        forall|i: int|
            0 <= i < condition.values@.len() ==> #[trigger] condition@.values[i]
                == condition.values@[i]@,
{
}

/// The model of a rule has its conditions, each in its place, and its variation.
pub proof fn law_rule_model(rule: TargetingRule)
    ensures
        rule@.variation == rule.variation,
        rule@.conditions.len() == rule.conditions@.len(),
        forall|i: int|
            0 <= i < rule.conditions@.len() ==> #[trigger] rule@.conditions[i]
                == rule.conditions@[i]@,
{
}

/// The model of a rollout has its percentage, its variation and the attribute it
/// buckets by.
pub proof fn law_rollout_model(rollout: Rollout)
    ensures
        rollout@.percentage == rollout.percentage,
        rollout@.variation == rollout.variation,
        rollout.bucket_by is None ==> rollout@.bucket_by is None,
        rollout.bucket_by matches Some(name) ==> rollout@.bucket_by == Some(name@),
{
}

/// The model of a flag has all that the flag has, its rules and variations each in
/// its place.
pub proof fn law_flag_model(flag: FeatureFlag)
    ensures
        flag@.key == flag.key@,
        flag.description is None ==> flag@.description is None,
        flag.description matches Some(text) ==> flag@.description == Some(text@),
        flag@.enabled == flag.enabled,
        flag@.targeting.len() == flag.targeting@.len(),
        forall|i: int|
            0 <= i < flag.targeting@.len() ==> #[trigger] flag@.targeting[i]
                == flag.targeting@[i]@,
        flag@.default_variation == flag.default_variation,
        flag@.variations == flag.variations@,
        flag.rollout is None ==> flag@.rollout is None,
        flag.rollout matches Some(rollout) ==> flag@.rollout == Some(rollout@),
        flag@.experiment == flag.experiment,
{
}

/// Rule indices and bucket numbers stand for themselves in the model.
pub proof fn law_numbers_stand_for_themselves(index: usize, bucket: u8)
    ensures
        crate::flag::rule_number(Some(index)) == Some(index as int),
        crate::flag::rule_number(None) is None,
        crate::rollout::bucket_number(Some(bucket)) == Some(bucket as nat),
        crate::rollout::bucket_number(None) is None,
{
}

/// Text is taken over as it is: what a string slice or a string converts into
/// holds its own characters.
pub proof fn law_text_is_taken_over(slice: &str, owned: String, text: Seq<char>)
    ensures
        crate::text::converts_to(slice, text) ==> text == slice@,
        crate::text::converts_to(owned, text) ==> text == owned@,
{
}

} // verus!
