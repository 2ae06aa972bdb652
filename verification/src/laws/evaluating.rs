//! Laws of flag evaluation.
use crate::flag::{FlagView, RuleView};
use crate::rollout::RolloutView;
use crate::variation::Variation;
use vstd::prelude::*;

verus! {

/// The serving rule is the one that holds first.
proof fn lemma_serving_rule(flag: FlagView, attributes: Map<Seq<char>, Seq<char>>, i: int)
    requires
        flag.first_match(attributes, i),
    ensures
        flag.serving_rule(attributes) == Some(i),
{
    let k = choose|k: int| flag.first_match(attributes, k);
    assert(flag.first_match(attributes, k));
    if k < i {
        assert(flag.targeting[k].holds(attributes));
    } else if i < k {
        assert(flag.targeting[i].holds(attributes));
    }
}

/// Where some rule holds, there is a first one.
proof fn lemma_some_rule_serves(flag: FlagView, attributes: Map<Seq<char>, Seq<char>>, i: int)
    requires
        0 <= i < flag.targeting.len(),
        flag.targeting[i].holds(attributes),
    ensures
        exists|k: int| k <= i && flag.first_match(attributes, k),
    decreases i,
{
    if exists|j: int| 0 <= j < i && #[trigger] flag.targeting[j].holds(attributes) {
        let j = choose|j: int| 0 <= j < i && #[trigger] flag.targeting[j].holds(attributes);
        lemma_some_rule_serves(flag, attributes, j);
    } else {
        assert(flag.first_match(attributes, i));
    }
}

/// Flags with the same rules have the same serving rule.
proof fn lemma_same_rules_serve(
    flag: FlagView,
    other: FlagView,
    attributes: Map<Seq<char>, Seq<char>>,
)
    requires
        flag.targeting == other.targeting,
    ensures
        flag.serving_rule(attributes) == other.serving_rule(attributes),
{
    if exists|i: int| flag.first_match(attributes, i) {
        let i = choose|i: int| flag.first_match(attributes, i);
        assert(other.first_match(attributes, i));
        lemma_serving_rule(flag, attributes, i);
        lemma_serving_rule(other, attributes, i);
    } else {
        assert forall|i: int| !other.first_match(attributes, i) by {
            assert(!flag.first_match(attributes, i));
        }
    }
}

/// A disabled flag serves its first variation, or `false` where it has none, to
/// every context.
pub proof fn law_disabled_flag_serves_off(flag: FlagView, attributes: Map<Seq<char>, Seq<char>>)
    requires
        !flag.enabled,
    ensures
        flag.evaluation(attributes) == if flag.variations.len() > 0 {
            flag.variations[0]
        } else {
            Variation::Boolean(false)
        },
{
}

/// The first rule that holds decides, whatever rules follow and whatever rollout
/// or experiment the flag has.
pub proof fn law_first_matching_rule_wins(
    flag: FlagView,
    attributes: Map<Seq<char>, Seq<char>>,
    i: int,
)
    requires
        flag.enabled,
        flag.first_match(attributes, i),
    ensures
        flag.evaluation(attributes) == flag.targeting[i].variation,
{
    lemma_serving_rule(flag, attributes, i);
}

/// A rule added to an enabled flag serves exactly the contexts that it matches
/// and no earlier rule does; every other context is served as before, as is
/// every context while the flag is disabled.
pub proof fn law_added_rule_comes_last(
    flag: FlagView,
    rule: RuleView,
    attributes: Map<Seq<char>, Seq<char>>,
)
    ensures
        (FlagView { targeting: flag.targeting.push(rule), ..flag }).evaluation(attributes) == if (
        flag.enabled && untargeted(flag, attributes) && rule.holds(attributes)) {
            rule.variation
        } else {
            flag.evaluation(attributes)
        },
{
    let extended = FlagView { targeting: flag.targeting.push(rule), ..flag };
    let n = flag.targeting.len() as int;
    if exists|i: int| 0 <= i < n && #[trigger] flag.targeting[i].holds(attributes) {
        let i = choose|i: int| 0 <= i < n && #[trigger] flag.targeting[i].holds(attributes);
        lemma_some_rule_serves(flag, attributes, i);
        let k = choose|k: int| k <= i && flag.first_match(attributes, k);
        lemma_serving_rule(flag, attributes, k);
        assert forall|j: int| 0 <= j < k implies !#[trigger] extended.targeting[j].holds(
            attributes,
        ) by {
            assert(!flag.targeting[j].holds(attributes));
        }
        assert(extended.first_match(attributes, k));
        lemma_serving_rule(extended, attributes, k);
    } else {
        lemma_untargeted(flag, attributes);
        assert forall|j: int| 0 <= j < n implies !#[trigger] extended.targeting[j].holds(
            attributes,
        ) by {
            assert(!flag.targeting[j].holds(attributes));
        }
        assert(extended.targeting[n] == rule);
        if rule.holds(attributes) {
            assert(extended.first_match(attributes, n));
            lemma_serving_rule(extended, attributes, n);
        } else {
            lemma_untargeted(extended, attributes);
        }
    }
}

/// No rule of the flag holds of a context with these attributes.
pub open spec fn untargeted(flag: FlagView, attributes: Map<Seq<char>, Seq<char>>) -> bool {
    forall|i: int|
        0 <= i < flag.targeting.len() ==> !#[trigger] flag.targeting[i].holds(attributes)
}

/// Without a rule that holds, none serves.
proof fn lemma_untargeted(flag: FlagView, attributes: Map<Seq<char>, Seq<char>>)
    requires
        untargeted(flag, attributes),
    ensures
        flag.serving_rule(attributes) is None,
{
    assert forall|k: int| !flag.first_match(attributes, k) by {
        if flag.first_match(attributes, k) {
            assert(flag.targeting[k].holds(attributes));
        }
    }
}

/// Where some rule holds, a rule that holds decides, and no rule before it holds.
pub proof fn law_some_rule_decides(
    flag: FlagView,
    attributes: Map<Seq<char>, Seq<char>>,
    i: int,
)
    requires
        flag.enabled,
        0 <= i < flag.targeting.len(),
        flag.targeting[i].holds(attributes),
    ensures
        exists|k: int|
            0 <= k <= i && (#[trigger] flag.targeting[k]).holds(attributes) && flag.evaluation(
                attributes,
            ) == flag.targeting[k].variation && flag.serving_rule(attributes) == Some(k) && forall|
                j: int,
            |
                0 <= j < k ==> !#[trigger] flag.targeting[j].holds(attributes),
{
    lemma_some_rule_serves(flag, attributes, i);
    let k = choose|k: int| k <= i && flag.first_match(attributes, k);
    lemma_serving_rule(flag, attributes, k);
    assert(flag.targeting[k].holds(attributes));
}

/// Where no rule holds, none serves.
pub proof fn law_no_rule_decides(flag: FlagView, attributes: Map<Seq<char>, Seq<char>>)
    requires
        forall|i: int|
            0 <= i < flag.targeting.len() ==> !#[trigger] flag.targeting[i].holds(attributes),
    ensures
        flag.serving_rule(attributes) is None,
{
    lemma_untargeted(flag, attributes);
}

/// Where no rule holds, the rollout decides for the contexts that it includes.
pub proof fn law_rollout_follows_rules(flag: FlagView, attributes: Map<Seq<char>, Seq<char>>)
    requires
        flag.enabled,
        untargeted(flag, attributes),
        flag.rollout matches Some(rollout) && rollout.outcome(attributes, flag.key) is Some,
    ensures
        flag.evaluation(attributes) == flag.rollout->0.variation,
{
    lemma_untargeted(flag, attributes);
}

/// Where no rule holds, the rollout decides by hash: it serves the contexts
/// whose bucketing attribute, the user id unless the rollout names another, hashes
/// below the percentage.
pub proof fn law_rollout_decides_by_hash(
    flag: FlagView,
    rollout: RolloutView,
    attributes: Map<Seq<char>, Seq<char>>,
    name: Seq<char>,
)
    requires
        flag.enabled,
        forall|i: int|
            0 <= i < flag.targeting.len() ==> !#[trigger] flag.targeting[i].holds(attributes),
        flag.rollout == Some(rollout),
        rollout.bucket_by == Some(name) || (rollout.bucket_by is None && name == "user_id"@),
        attributes.contains_key(name),
        crate::rollout::bucketing_hash(flag.key, attributes[name]) % 100 < rollout.percentage,
    ensures
        flag.evaluation(attributes) == rollout.variation,
{
    lemma_untargeted(flag, attributes);
}

/// Raising the percentage of a flag's rollout changes nothing for whoever the
/// rollout includes already.
pub proof fn law_raising_a_flag_rollout_keeps_users(
    flag: FlagView,
    raised: FlagView,
    attributes: Map<Seq<char>, Seq<char>>,
)
    requires
        flag.rollout is Some,
        raised.rollout is Some,
        raised == (FlagView { rollout: raised.rollout, ..flag }),
        raised.rollout->0 == (RolloutView {
            percentage: raised.rollout->0.percentage,
            ..flag.rollout->0
        }),
        flag.rollout->0.percentage <= raised.rollout->0.percentage,
        flag.rollout->0.outcome(attributes, flag.key) is Some,
    ensures
        raised.evaluation(attributes) == flag.evaluation(attributes),
{
    lemma_same_rules_serve(flag, raised, attributes);
}

/// The flag has no rollout, or one that leaves the context out.
pub open spec fn not_rolled_out(flag: FlagView, attributes: Map<Seq<char>, Seq<char>>) -> bool {
    flag.rollout matches Some(rollout) ==> rollout.outcome(attributes, flag.key) is None
}

/// Where neither rule nor rollout applies, an experiment serves one of the flag's
/// variations, the one that the hash of the bucketing value selects.
pub proof fn law_experiment_serves_a_variation(
    flag: FlagView,
    attributes: Map<Seq<char>, Seq<char>>,
)
    requires
        flag.enabled,
        untargeted(flag, attributes),
        not_rolled_out(flag, attributes),
        flag.runs_experiment(),
        flag.experiment_value(attributes) is Some,
    ensures
        ({
            let hash = crate::rollout::bucketing_hash(
                flag.key,
                flag.experiment_value(attributes)->0,
            );
            let index = (hash % flag.variations.len()) as int;
            0 <= index < flag.variations.len() && flag.evaluation(attributes)
                == flag.variations[index]
        }),
{
    lemma_untargeted(flag, attributes);
}

/// The value by which an experiment buckets: `bucket_by` where the context has it,
/// else the user id, else none. Its hash under the flag's key selects one of the
/// variations; nothing is picked without a value or without variations.
pub proof fn law_experiment_buckets_by_its_value(
    flag: FlagView,
    attributes: Map<Seq<char>, Seq<char>>,
)
    ensures
        ({
            let value = if attributes.contains_key("bucket_by"@) {
                attributes["bucket_by"@]
            } else {
                attributes["user_id"@]
            };
            let known = attributes.contains_key("bucket_by"@) || attributes.contains_key(
                "user_id"@,
            );
            &&& flag.experiment_value(attributes) == if known {
                Some(value)
            } else {
                None
            }
            &&& flag.experiment_hash(attributes) == if known {
                Some(crate::rollout::bucketing_hash(flag.key, value))
            } else {
                None
            }
            &&& flag.experiment_pick(attributes) == if known && flag.variations.len() > 0 {
                Some(
                    flag.variations[(crate::rollout::bucketing_hash(flag.key, value)
                        % flag.variations.len()) as int],
                )
            } else {
                None
            }
        }),
{
}

/// Where neither rule nor rollout applies, an experiment over one variation or
/// more serves the one that the hash of the bucketing value selects: `bucket_by`
/// where the context has it, else the user id.
pub proof fn law_experiment_decides_by_hash(
    flag: FlagView,
    attributes: Map<Seq<char>, Seq<char>>,
    value: Seq<char>,
)
    requires
        flag.enabled,
        forall|i: int|
            0 <= i < flag.targeting.len() ==> !#[trigger] flag.targeting[i].holds(attributes),
        match flag.rollout {
            Some(rollout) => {
                let name = match rollout.bucket_by {
                    Some(name) => name,
                    None => "user_id"@,
                };
                !attributes.contains_key(name) || crate::rollout::bucketing_hash(
                    flag.key,
                    attributes[name],
                ) % 100 >= rollout.percentage
            },
            None => true,
        },
        flag.experiment,
        flag.variations.len() >= 1,
        if attributes.contains_key("bucket_by"@) {
            value == attributes["bucket_by"@]
        } else {
            attributes.contains_key("user_id"@) && value == attributes["user_id"@]
        },
    ensures
        flag.evaluation(attributes) == flag.variations[(crate::rollout::bucketing_hash(
            flag.key,
            value,
        ) % flag.variations.len()) as int],
{
    lemma_untargeted(flag, attributes);
}

/// A hash picks the variation that it is a number of whole rounds away from; no
/// hash, or no variations, pick nothing.
pub proof fn law_experiment_goes_round(flag: FlagView, rounds: nat, index: nat)
    ensures
        index < flag.variations.len() ==> flag.variation_for(
            Some(rounds * flag.variations.len() + index),
        ) == Some(flag.variations[index as int]),
        flag.variations.len() == 0 ==> flag.variation_for(Some(index)) is None,
        flag.variation_for(None) is None,
{
    let n = flag.variations.len();
    if index < n {
        vstd::arithmetic::div_mod::lemma_mod_multiples_vanish(
            rounds as int,
            index as int,
            n as int,
        );
        vstd::arithmetic::div_mod::lemma_small_mod(index, n);
        assert(rounds * n == n * rounds) by (nonlinear_arith);
    }
}

/// Experiments are even: of as many consecutive hashes as the flag has
/// variations, exactly one picks each variation.
pub proof fn law_experiment_is_even(flag: FlagView, base: nat, index: nat)
    requires
        index < flag.variations.len(),
    ensures
        exists|hash: nat|
            base <= hash < base + flag.variations.len() && #[trigger] picked_index(flag, hash)
                == index,
        forall|left: nat, right: nat|
            base <= left < base + flag.variations.len() && base <= right < base
                + flag.variations.len() && #[trigger] picked_index(flag, left) == index
                && #[trigger] picked_index(flag, right) == index ==> left == right,
        forall|hash: nat| #[trigger]
            picked_index(flag, hash) == index ==> flag.variation_for(Some(hash)) == Some(
                flag.variations[index as int],
            ),
{
    let n = flag.variations.len() as int;
    let offset = (index - base) % n;
    let hash = (base + offset) as nat;
    assert(picked_index(flag, hash) == index) by {
        vstd::arithmetic::div_mod::lemma_add_mod_noop_right(base as int, index - base, n);
        vstd::arithmetic::div_mod::lemma_small_mod(index, n as nat);
    }
    assert forall|left: nat, right: nat|
        base <= left < base + n && base <= right < base + n && #[trigger] picked_index(flag, left)
            == index && #[trigger] picked_index(flag, right) == index implies left == right by {
        lemma_same_remainder(left as int, right as int, n);
    }
}

/// The index of the variation that an experiment picks for a hash.
pub open spec fn picked_index(flag: FlagView, hash: nat) -> nat {
    hash % flag.variations.len()
}

/// Numbers with the same remainder that are less than the divisor apart are
/// equal.
proof fn lemma_same_remainder(left: int, right: int, divisor: int)
    requires
        divisor > 0,
        left % divisor == right % divisor,
        -divisor < left - right < divisor,
    ensures
        left == right,
{
    vstd::arithmetic::div_mod::lemma_fundamental_div_mod(left, divisor);
    vstd::arithmetic::div_mod::lemma_fundamental_div_mod(right, divisor);
    let a = left / divisor;
    let b = right / divisor;
    assert(left - right == divisor * (a - b)) by (nonlinear_arith)
        requires
            left == divisor * a + left % divisor,
            right == divisor * b + right % divisor,
            left % divisor == right % divisor,
    ;
    assert(a == b) by (nonlinear_arith)
        requires
            divisor > 0,
            -divisor < divisor * (a - b) < divisor,
    ;
}

/// Where neither rule, rollout nor experiment applies, the default is served.
pub proof fn law_default_comes_last(flag: FlagView, attributes: Map<Seq<char>, Seq<char>>)
    requires
        flag.enabled,
        untargeted(flag, attributes),
        not_rolled_out(flag, attributes),
        !flag.runs_experiment() || flag.experiment_value(attributes) is None,
    ensures
        flag.evaluation(attributes) == flag.default_variation,
{
    lemma_untargeted(flag, attributes);
}

/// The default serves the rest: where neither rule nor rollout applies and the
/// experiment is off, has no variations, or the context has neither `bucket_by`
/// nor a user id.
pub proof fn law_default_serves_the_rest(flag: FlagView, attributes: Map<Seq<char>, Seq<char>>)
    requires
        flag.enabled,
        forall|i: int|
            0 <= i < flag.targeting.len() ==> !#[trigger] flag.targeting[i].holds(attributes),
        match flag.rollout {
            Some(rollout) => {
                let name = match rollout.bucket_by {
                    Some(name) => name,
                    None => "user_id"@,
                };
                !attributes.contains_key(name) || crate::rollout::bucketing_hash(
                    flag.key,
                    attributes[name],
                ) % 100 >= rollout.percentage
            },
            None => true,
        },
        !flag.experiment || flag.variations.len() == 0 || (!attributes.contains_key("bucket_by"@)
            && !attributes.contains_key("user_id"@)),
    ensures
        flag.evaluation(attributes) == flag.default_variation,
{
    lemma_untargeted(flag, attributes);
}

/// The order in which a flag resolves: off, rule, rollout, experiment, default.
/// Each decides only where none before it does.
pub proof fn law_resolution_order(
    flag: FlagView,
    rule: Option<int>,
    bucket: Option<nat>,
    pick: Option<Variation>,
)
    ensures
        ({
            let served = flag.resolution(rule, bucket, pick);
            let included = flag.rollout is Some && bucket is Some && bucket->0
                < flag.rollout->0.percentage;
            let picked = flag.experiment && flag.variations.len() > 0 && pick is Some;
            &&& !flag.enabled && flag.variations.len() > 0 ==> served == flag.variations[0]
            &&& !flag.enabled && flag.variations.len() == 0 ==> served == Variation::Boolean(false)
            &&& flag.enabled && rule is Some ==> served == flag.targeting[rule->0].variation
            &&& flag.enabled && rule is None && included ==> served == flag.rollout->0.variation
            &&& flag.enabled && rule is None && !included && picked ==> served == pick->0
            &&& flag.enabled && rule is None && !included && !picked ==> served
                == flag.default_variation
        }),
{
}

/// A rollout bucket of a flag is the one that its rollout gives under its key.
pub proof fn law_rollout_bucket_is_the_rollouts(
    flag: FlagView,
    attributes: Map<Seq<char>, Seq<char>>,
)
    ensures
        flag.rollout is None ==> flag.rollout_bucket(attributes) is None,
        flag.rollout matches Some(rollout) ==> flag.rollout_bucket(attributes) == rollout.bucket(
            attributes,
            flag.key,
        ),
{
}

/// `variation` is one that the flag holds: its default, one of its variations,
/// the one of its rollout or of one of its rules.
pub open spec fn held_by(flag: FlagView, variation: Variation) -> bool {
    ||| variation == flag.default_variation
    ||| flag.variations.contains(variation)
    ||| flag.rollout matches Some(rollout) && rollout.variation == variation
    ||| exists|i: int|
        0 <= i < flag.targeting.len() && #[trigger] flag.targeting[i].variation == variation
}

/// A flag serves only variations that it holds; a disabled flag without
/// variations serves `false`.
pub proof fn law_served_variation_is_held(flag: FlagView, attributes: Map<Seq<char>, Seq<char>>)
    ensures
        held_by(flag, flag.evaluation(attributes)) || (!flag.enabled && flag.variations.len() == 0
            && flag.evaluation(attributes) == Variation::Boolean(false)),
{
    if flag.enabled {
        if flag.serving_rule(attributes) is Some {
            let i = choose|i: int| flag.first_match(attributes, i);
            assert(flag.first_match(attributes, i));
            assert(flag.targeting[i].variation == flag.evaluation(attributes));
        }
    } else if flag.variations.len() > 0 {
        assert(flag.variations.contains(flag.variations[0]));
    }
}

/// The flag looks at the attribute `name`: in a condition, to bucket its rollout,
/// or to bucket its experiment.
pub open spec fn reads_attribute(flag: FlagView, name: Seq<char>) -> bool {
    ||| exists|i: int, j: int|
        0 <= i < flag.targeting.len() && 0 <= j < flag.targeting[i].conditions.len()
            && #[trigger] flag.targeting[i].conditions[j].attribute == name
    ||| flag.rollout matches Some(rollout) && rollout.bucket_attribute() == name
    ||| flag.runs_experiment() && (name == "bucket_by"@ || name == "user_id"@)
}

/// Two contexts that agree on the attributes of a rule's conditions get the same
/// answer from the rule.
proof fn lemma_rule_reads_its_attributes(
    flag: FlagView,
    i: int,
    attributes: Map<Seq<char>, Seq<char>>,
    others: Map<Seq<char>, Seq<char>>,
)
    requires
        0 <= i < flag.targeting.len(),
        forall|name: Seq<char>| #[trigger]
            reads_attribute(flag, name) ==> crate::context::attribute_of(attributes, name)
                == crate::context::attribute_of(others, name),
    ensures
        flag.targeting[i].holds(attributes) == flag.targeting[i].holds(others),
{
    let rule = flag.targeting[i];
    assert forall|j: int| 0 <= j < rule.conditions.len() implies #[trigger] rule.conditions[j].holds(
        attributes,
    ) == rule.conditions[j].holds(others) by {
        let name = flag.targeting[i].conditions[j].attribute;
        assert(reads_attribute(flag, name));
        crate::laws::targeting::law_condition_reads_its_attribute(
            rule.conditions[j],
            attributes,
            others,
        );
    }
    if rule.holds(attributes) {
        assert forall|j: int| 0 <= j < rule.conditions.len() implies #[trigger] rule.conditions[j].holds(
        others) by {
            assert(rule.conditions[j].holds(attributes));
        }
    }
    if rule.holds(others) {
        assert forall|j: int| 0 <= j < rule.conditions.len() implies #[trigger] rule.conditions[j].holds(
        attributes) by {
            assert(rule.conditions[j].holds(others));
        }
    }
}

/// Evaluation is sticky: contexts that agree on the attributes that the flag
/// reads are served the same variation, however else they differ. In particular
/// the same user always gets the same answer.
pub proof fn law_evaluation_is_sticky(
    flag: FlagView,
    attributes: Map<Seq<char>, Seq<char>>,
    others: Map<Seq<char>, Seq<char>>,
)
    requires
        forall|name: Seq<char>| #[trigger]
            reads_attribute(flag, name) ==> crate::context::attribute_of(attributes, name)
                == crate::context::attribute_of(others, name),
    ensures
        flag.evaluation(attributes) == flag.evaluation(others),
{
    assert forall|i: int| 0 <= i < flag.targeting.len() implies #[trigger] flag.targeting[i].holds(
        attributes,
    ) == flag.targeting[i].holds(others) by {
        lemma_rule_reads_its_attributes(flag, i, attributes, others);
    }
    assert forall|i: int| #[trigger] flag.first_match(attributes, i) == flag.first_match(
        others,
        i,
    ) by {
        if 0 <= i < flag.targeting.len() {
            assert(flag.targeting[i].holds(attributes) == flag.targeting[i].holds(others));
            if flag.first_match(attributes, i) {
                assert forall|j: int| 0 <= j < i implies !#[trigger] flag.targeting[j].holds(
                    others,
                ) by {
                    assert(!flag.targeting[j].holds(attributes));
                }
            }
        }
    }
    if exists|i: int| flag.first_match(attributes, i) {
        let i = choose|i: int| flag.first_match(attributes, i);
        lemma_serving_rule(flag, attributes, i);
        lemma_serving_rule(flag, others, i);
    } else {
        assert forall|i: int| !flag.first_match(others, i) by {
            assert(flag.first_match(attributes, i) == flag.first_match(others, i));
        }
    }
    if flag.rollout is Some {
        assert(reads_attribute(flag, flag.rollout->0.bucket_attribute()));
    }
    if flag.runs_experiment() {
        assert(reads_attribute(flag, "bucket_by"@));
        assert(reads_attribute(flag, "user_id"@));
    }
}

/// The description plays no part in evaluation.
pub proof fn law_description_is_inert(
    flag: FlagView,
    description: Option<Seq<char>>,
    attributes: Map<Seq<char>, Seq<char>>,
)
    ensures
        (FlagView { description, ..flag }).evaluation(attributes) == flag.evaluation(attributes),
{
    lemma_same_rules_serve(flag, FlagView { description, ..flag }, attributes);
}

} // verus!
