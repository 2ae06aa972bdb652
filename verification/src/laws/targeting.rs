//! Laws of contexts, conditions and targeting rules.
use crate::condition::{ConditionView, Operator};
use crate::flag::RuleView;
use vstd::prelude::*;

verus! {

/// What an attribute reads as: its value where there is one, else nothing.
pub proof fn law_attribute_is_looked_up(attributes: Map<Seq<char>, Seq<char>>, name: Seq<char>)
    ensures
        attributes.contains_key(name) ==> crate::context::attribute_of(attributes, name) == Some(
            attributes[name],
        ),
        !attributes.contains_key(name) ==> crate::context::attribute_of(attributes, name) is None,
{
}

/// An attribute that was set reads back, and every other attribute reads as
/// before.
pub proof fn law_attribute_reads_back(
    attributes: Map<Seq<char>, Seq<char>>,
    name: Seq<char>,
    value: Seq<char>,
    read: Seq<char>,
)
    ensures
        crate::context::attribute_of(attributes.insert(name, value), read) == if read == name {
            Some(value)
        } else {
            crate::context::attribute_of(attributes, read)
        },
{
}

/// Setting an attribute twice leaves the later value; setting two attributes
/// commutes.
pub proof fn law_later_value_wins(
    attributes: Map<Seq<char>, Seq<char>>,
    name: Seq<char>,
    value: Seq<char>,
    other: Seq<char>,
    other_value: Seq<char>,
)
    ensures
        attributes.insert(name, value).insert(name, other_value) == attributes.insert(
            name,
            other_value,
        ),
        name != other ==> attributes.insert(name, value).insert(other, other_value)
            == attributes.insert(other, other_value).insert(name, value),
{
    assert(attributes.insert(name, value).insert(name, other_value) =~= attributes.insert(
        name,
        other_value,
    ));
    if name != other {
        assert(attributes.insert(name, value).insert(other, other_value) =~= attributes.insert(
            other,
            other_value,
        ).insert(name, value));
    }
}

/// `In` is met where the attribute's value is one of those listed.
pub proof fn law_in_finds_the_value(
    condition: ConditionView,
    attributes: Map<Seq<char>, Seq<char>>,
)
    requires
        condition.operator == Operator::In,
    ensures
        condition.holds(attributes) <==> attributes.contains_key(condition.attribute)
            && condition.values.contains(attributes[condition.attribute]),
{
    let actual = attributes[condition.attribute];
    if condition.values.contains(actual) {
        let i = choose|i: int| 0 <= i < condition.values.len() && condition.values[i] == actual;
        assert(condition.operator.compares(condition.values[i], actual));
    }
}

/// `NotIn` is met where the attribute is missing or its value is none of those
/// listed.
pub proof fn law_not_in_misses_the_value(
    condition: ConditionView,
    attributes: Map<Seq<char>, Seq<char>>,
)
    requires
        condition.operator == Operator::NotIn,
    ensures
        condition.holds(attributes) <==> !attributes.contains_key(condition.attribute)
            || !condition.values.contains(attributes[condition.attribute]),
{
    let actual = attributes[condition.attribute];
    if condition.values.contains(actual) {
        let i = choose|i: int| 0 <= i < condition.values.len() && condition.values[i] == actual;
        assert(condition.operator.compares(condition.values[i], actual));
    }
}

/// `Contains` is met where some listed value, with something before it and
/// something after it, makes up the attribute's value.
pub proof fn law_contains_finds_some_value(
    condition: ConditionView,
    attributes: Map<Seq<char>, Seq<char>>,
)
    requires
        condition.operator == Operator::Contains,
    ensures
        condition.holds(attributes) <==> attributes.contains_key(condition.attribute) && exists|
            i: int,
            front: Seq<char>,
            rest: Seq<char>,
        |
            0 <= i < condition.values.len() && attributes[condition.attribute] == #[trigger] (front
                + condition.values[i] + rest),
{
    let actual = attributes[condition.attribute];
    if condition.holds(attributes) {
        let i = choose|i: int|
            0 <= i < condition.values.len() && #[trigger] condition.operator.compares(
                condition.values[i],
                actual,
            );
        let listed = condition.values[i];
        let start = choose|start: int|
            0 <= start <= actual.len() - listed.len() && #[trigger] actual.subrange(
                start,
                start + listed.len(),
            ) == listed;
        let front = actual.subrange(0, start);
        let rest = actual.subrange(start + listed.len(), actual.len() as int);
        assert(actual =~= front + condition.values[i] + rest);
    }
    if attributes.contains_key(condition.attribute) {
        assert forall|i: int, front: Seq<char>, rest: Seq<char>|
            0 <= i < condition.values.len() && actual == #[trigger] (front + condition.values[i]
                + rest) implies condition.holds(attributes) by {
            let listed = condition.values[i];
            let start = front.len() as int;
            assert(actual.subrange(start, start + listed.len()) =~= listed);
            assert(condition.operator.compares(listed, actual));
        }
    }
}

/// `StartsWith` is met where some listed value, with something after it, makes up
/// the attribute's value.
pub proof fn law_starts_with_finds_some_value(
    condition: ConditionView,
    attributes: Map<Seq<char>, Seq<char>>,
)
    requires
        condition.operator == Operator::StartsWith,
    ensures
        condition.holds(attributes) <==> attributes.contains_key(condition.attribute) && exists|
            i: int,
            rest: Seq<char>,
        |
            0 <= i < condition.values.len() && attributes[condition.attribute] == #[trigger] (
            condition.values[i] + rest),
{
    let actual = attributes[condition.attribute];
    if condition.holds(attributes) {
        let i = choose|i: int|
            0 <= i < condition.values.len() && #[trigger] condition.operator.compares(
                condition.values[i],
                actual,
            );
        let rest = actual.skip(condition.values[i].len() as int);
        assert(actual =~= condition.values[i] + rest);
    }
    if attributes.contains_key(condition.attribute) {
        assert forall|i: int, rest: Seq<char>|
            0 <= i < condition.values.len() && actual == #[trigger] (condition.values[i]
                + rest) implies condition.holds(attributes) by {
            assert(actual.subrange(0, condition.values[i].len() as int) =~= condition.values[i]);
            assert(condition.operator.compares(condition.values[i], actual));
        }
    }
}

/// `EndsWith` is met where some listed value, with something before it, makes up
/// the attribute's value.
pub proof fn law_ends_with_finds_some_value(
    condition: ConditionView,
    attributes: Map<Seq<char>, Seq<char>>,
)
    requires
        condition.operator == Operator::EndsWith,
    ensures
        condition.holds(attributes) <==> attributes.contains_key(condition.attribute) && exists|
            i: int,
            front: Seq<char>,
        |
            0 <= i < condition.values.len() && attributes[condition.attribute] == #[trigger] (front
                + condition.values[i]),
{
    let actual = attributes[condition.attribute];
    if condition.holds(attributes) {
        let i = choose|i: int|
            0 <= i < condition.values.len() && #[trigger] condition.operator.compares(
                condition.values[i],
                actual,
            );
        let front = actual.take(actual.len() - condition.values[i].len());
        assert(actual =~= front + condition.values[i]);
    }
    if attributes.contains_key(condition.attribute) {
        assert forall|i: int, front: Seq<char>|
            0 <= i < condition.values.len() && actual == #[trigger] (front
                + condition.values[i]) implies condition.holds(attributes) by {
            let start = actual.len() - condition.values[i].len();
            assert(actual.subrange(start, actual.len() as int) =~= condition.values[i]);
            assert(condition.operator.compares(condition.values[i], actual));
        }
    }
}

/// `Matches` is met where some listed pattern, just as it is listed, compiles to a
/// regex that is found in the attribute's value.
pub proof fn law_matches_finds_some_pattern(
    condition: ConditionView,
    attributes: Map<Seq<char>, Seq<char>>,
)
    requires
        condition.operator == Operator::Matches,
    ensures
        condition.holds(attributes) <==> attributes.contains_key(condition.attribute) && exists|
            i: int,
        |
            0 <= i < condition.values.len() && (#[trigger] crate::patterns::compiled_regex(
                condition.values[i],
            ) matches Some(regex) && crate::patterns::regex_finds(
                regex,
                attributes[condition.attribute],
            )),
{
    let actual = attributes[condition.attribute];
    if attributes.contains_key(condition.attribute) {
        assert forall|i: int|
            0 <= i < condition.values.len() && (#[trigger] crate::patterns::compiled_regex(
                condition.values[i],
            ) matches Some(regex) && crate::patterns::regex_finds(
                regex,
                actual,
            )) implies condition.holds(attributes) by {
            assert(condition.operator.compares(condition.values[i], actual));
        }
    }
    if condition.holds(attributes) {
        let i = choose|i: int|
            0 <= i < condition.values.len() && #[trigger] condition.operator.compares(
                condition.values[i],
                actual,
            );
        assert(crate::patterns::compiled_regex(condition.values[i]) is Some);
    }
}

/// Any listed value is enough: a condition other than `NotIn` with one more value
/// is met exactly where it was met before, or where it would be met with that
/// value alone. `NotIn` is met where both are.
pub proof fn law_one_more_value(
    condition: ConditionView,
    value: Seq<char>,
    attributes: Map<Seq<char>, Seq<char>>,
)
    ensures
        ({
            let extended = ConditionView { values: condition.values.push(value), ..condition };
            let alone = ConditionView { values: seq![value], ..condition };
            extended.holds(attributes) <==> if condition.operator == Operator::NotIn {
                condition.holds(attributes) && alone.holds(attributes)
            } else {
                condition.holds(attributes) || alone.holds(attributes)
            }
        }),
{
    let extended = ConditionView { values: condition.values.push(value), ..condition };
    let alone = ConditionView { values: seq![value], ..condition };
    let actual = attributes[condition.attribute];
    let n = condition.values.len() as int;
    if extended.lists(actual) {
        let i = choose|i: int|
            0 <= i < extended.values.len() && #[trigger] extended.operator.compares(
                extended.values[i],
                actual,
            );
        if i < n {
            assert(condition.operator.compares(condition.values[i], actual));
        } else {
            assert(alone.operator.compares(alone.values[0], actual));
        }
    }
    if condition.lists(actual) {
        let i = choose|i: int|
            0 <= i < n && #[trigger] condition.operator.compares(condition.values[i], actual);
        assert(extended.operator.compares(extended.values[i], actual));
    }
    if alone.lists(actual) {
        let i = choose|i: int|
            0 <= i < 1 && #[trigger] alone.operator.compares(alone.values[i], actual);
        assert(extended.operator.compares(extended.values[n], actual));
    }
}

/// `NotIn` is the negation of `In`, on every context, with or without the
/// attribute.
pub proof fn law_not_in_negates_in(
    listing: ConditionView,
    excluding: ConditionView,
    attributes: Map<Seq<char>, Seq<char>>,
)
    requires
        listing.operator == Operator::In,
        excluding == (ConditionView { operator: Operator::NotIn, ..listing }),
    ensures
        excluding.holds(attributes) == !listing.holds(attributes),
{
    if attributes.contains_key(listing.attribute) {
        let actual = attributes[listing.attribute];
        if listing.lists(actual) {
            let i = choose|i: int|
                0 <= i < listing.values.len() && #[trigger] listing.operator.compares(
                    listing.values[i],
                    actual,
                );
            assert(excluding.operator.compares(excluding.values[i], actual));
        }
        if excluding.lists(actual) {
            let i = choose|i: int|
                0 <= i < excluding.values.len() && #[trigger] excluding.operator.compares(
                    excluding.values[i],
                    actual,
                );
            assert(listing.operator.compares(listing.values[i], actual));
        }
    }
}

/// A context without the attribute, like a condition without values, meets
/// `NotIn` and no other operator.
pub proof fn law_nothing_to_compare(
    condition: ConditionView,
    attributes: Map<Seq<char>, Seq<char>>,
)
    requires
        !attributes.contains_key(condition.attribute) || condition.values.len() == 0,
    ensures
        condition.holds(attributes) <==> condition.operator == Operator::NotIn,
{
}

/// A prefix or a suffix of a text occurs in it: where `StartsWith` or `EndsWith`
/// is met, so is `Contains`.
pub proof fn law_prefix_or_suffix_is_contained(
    condition: ConditionView,
    containing: ConditionView,
    attributes: Map<Seq<char>, Seq<char>>,
)
    requires
        condition.operator == Operator::StartsWith || condition.operator == Operator::EndsWith,
        containing == (ConditionView { operator: Operator::Contains, ..condition }),
        condition.holds(attributes),
    ensures
        containing.holds(attributes),
{
    let actual = attributes[condition.attribute];
    let i = choose|i: int|
        0 <= i < condition.values.len() && #[trigger] condition.operator.compares(
            condition.values[i],
            actual,
        );
    let listed = condition.values[i];
    let start = if condition.operator == Operator::StartsWith {
        0
    } else {
        actual.len() - listed.len()
    };
    assert(actual.subrange(start, start + listed.len()) == listed);
    assert(crate::text::occurs_in(listed, actual));
    assert(containing.operator.compares(containing.values[i], actual));
}

/// A condition reads its own attribute and no other.
pub proof fn law_condition_reads_its_attribute(
    condition: ConditionView,
    attributes: Map<Seq<char>, Seq<char>>,
    others: Map<Seq<char>, Seq<char>>,
)
    requires
        crate::context::attribute_of(attributes, condition.attribute)
            == crate::context::attribute_of(others, condition.attribute),
    ensures
        condition.holds(attributes) == condition.holds(others),
{
}

/// A rule without conditions holds of every context.
pub proof fn law_unconditional_rule_holds(
    rule: RuleView,
    attributes: Map<Seq<char>, Seq<char>>,
)
    requires
        rule.conditions.len() == 0,
    ensures
        rule.holds(attributes),
{
}

/// A rule with one more condition holds where it held before and the condition
/// is met.
pub proof fn law_conditions_are_conjoined(
    rule: RuleView,
    condition: ConditionView,
    attributes: Map<Seq<char>, Seq<char>>,
)
    ensures
        (RuleView { conditions: rule.conditions.push(condition), ..rule }).holds(attributes) <==> (
        rule.holds(attributes) && condition.holds(attributes)),
{
    let extended = RuleView { conditions: rule.conditions.push(condition), ..rule };
    if extended.holds(attributes) {
        assert forall|i: int| 0 <= i < rule.conditions.len() implies #[trigger] rule.conditions[i].holds(
        attributes) by {
            assert(extended.conditions[i].holds(attributes));
        }
        assert(extended.conditions[rule.conditions.len() as int].holds(attributes));
    }
}

} // verus!
