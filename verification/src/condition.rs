//! Targeting conditions on one attribute of the evaluation context.
use crate::context::EvaluationContext;
use crate::patterns::{PatternMemo, PatternTable, RegexCache};
use crate::text::{text_contains, text_ends_with, text_starts_with};
use vstd::prelude::*;

verus! {

/// Comparison operator.
#[derive(Debug, Clone, Copy, PartialEq, Eq, Structural)]
pub enum Operator {
    In,
    NotIn,
    Contains,
    StartsWith,
    EndsWith,
    Matches,
}

impl Operator {
    /// The comparison that the operator makes between one listed value and the
    /// attribute's value. `NotIn` looks for the same equality as `In`; the
    /// condition negates the outcome as a whole.
    pub open spec fn compares(self, listed: Seq<char>, actual: Seq<char>) -> bool {
        match self {
            Operator::In | Operator::NotIn => listed == actual,
            Operator::Contains => crate::text::occurs_in(listed, actual),
            Operator::StartsWith => listed.is_prefix_of(actual),
            Operator::EndsWith => listed.is_suffix_of(actual),
            Operator::Matches => crate::patterns::pattern_matches(listed, actual),
        }
    }

    /// Compares one listed value with the attribute's value.
    fn compare(self, listed: &String, actual: &String, memo: &mut PatternMemo) -> (found: bool)
        requires
            old(memo).sound(),
        ensures
            found == self.compares(listed@, actual@),
            final(memo).sound(),
    {
        match self {
            Operator::In => *listed == *actual,
            Operator::NotIn => *listed == *actual,
            Operator::Contains => text_contains(actual.as_str(), listed.as_str()),
            Operator::StartsWith => text_starts_with(actual.as_str(), listed.as_str()),
            Operator::EndsWith => text_ends_with(actual.as_str(), listed.as_str()),
            Operator::Matches => memo.matches(listed.as_str(), actual.as_str()),
        }
    }

    /// What a condition answers once it is known whether some listed value
    /// compares true with the attribute's value; `None` where the context lacks
    /// the attribute.
    pub fn decide(self, listed: Option<bool>) -> (met: bool)
        ensures
            met == if self == Operator::NotIn {
                listed != Some(true)
            } else {
                listed == Some(true)
            },
    {
        let found = match listed {
            Some(found) => found,
            None => false,
        };
        match self {
            Operator::NotIn => !found,
            _ => found,
        }
    }
}

/// Targeting condition.
#[derive(Debug)]
pub struct Condition {
    /// Attribute to check
    pub attribute: String,
    /// Operator
    pub operator: Operator,
    /// Values to compare against
    pub values: Vec<String>,
}

/// The model of a [`Condition`].
pub struct ConditionView {
    pub attribute: Seq<char>,
    pub operator: Operator,
    pub values: Seq<Seq<char>>,
}

impl ConditionView {
    /// Some listed value compares true with `actual`.
    pub open spec fn lists(self, actual: Seq<char>) -> bool {
        exists|i: int|
            0 <= i < self.values.len() && #[trigger] self.operator.compares(self.values[i], actual)
    }

    /// The condition is met by a context with these attributes.
    ///
    /// A missing attribute meets `NotIn` and no other operator.
    pub open spec fn holds(self, attributes: Map<Seq<char>, Seq<char>>) -> bool {
        let found = attributes.contains_key(self.attribute) && self.lists(
            attributes[self.attribute],
        );
        if self.operator == Operator::NotIn {
            !found
        } else {
            found
        }
    }
}

impl View for Condition {
    type V = ConditionView;

    open spec fn view(&self) -> ConditionView {
        ConditionView {
            attribute: self.attribute@,
            operator: self.operator,
            values: self.values@.map_values(|value: String| value@),
        }
    }
}

impl Clone for Condition {
    fn clone(&self) -> (copy: Self)
        ensures
            copy@ == self@,
    {
        let copy = Condition {
            attribute: self.attribute.clone(),
            operator: self.operator,
            values: self.values.clone(),
        };
        assert(copy@.values =~= self@.values);
        copy
    }
}

impl Condition {
    /// A condition on `attribute`.
    pub fn new(attribute: impl Into<String>, operator: Operator, values: Vec<String>) -> (condition:
        Self)
        ensures
            crate::text::converts_to(attribute, condition.attribute@),
            condition.operator == operator,
            condition.values == values,
    {
        Condition { attribute: attribute.into(), operator, values }
    }

    /// Whether some listed value compares true with `actual`.
    fn lists(&self, actual: &str, memo: &mut PatternMemo) -> (found: bool)
        requires
            old(memo).sound(),
        ensures
            found == self@.lists(actual@),
            final(memo).sound(),
    {
        let value = actual.to_string();
        let mut i: usize = 0;
        while i < self.values.len()
            invariant
                value@ == actual@,
                memo.sound(),
                i <= self.values@.len(),
                forall|j: int|
                    0 <= j < i ==> !#[trigger] self.operator.compares(self@.values[j], actual@),
            decreases self.values@.len() - i,
        {
            if self.operator.compare(&self.values[i], &value, memo) {
                assert(self.operator.compares(self@.values[i as int], actual@));
                return true;
            }
            i += 1;
        }
        false
    }

    /// Whether `context` meets the condition. Patterns are compiled through
    /// `memo`, which has no bearing on the answer.
    pub(crate) fn matches_through(&self, context: &EvaluationContext, memo: &mut PatternMemo) -> (met:
        bool)
        requires
            old(memo).sound(),
        ensures
            met == self@.holds(context@),
            final(memo).sound(),
    {
        let listed = match context.get(self.attribute.as_str()) {
            Some(actual) => Some(self.lists(actual, memo)),
            None => None,
        };
        self.operator.decide(listed)
    }

    /// Whether `context` meets the condition. Patterns are compiled through
    /// `cache`, which has no bearing on the answer.
    pub fn matches_with(&self, context: &EvaluationContext, cache: &RegexCache) -> (met: bool)
        ensures
            met == self@.holds(context@),
    {
        self.matches_through(context, &mut PatternMemo::Shared(cache))
    }

    /// Whether `context` meets the condition. Compiled patterns live for this one
    /// call; [`Condition::matches_with`] keeps them in a cache.
    pub fn matches(&self, context: &EvaluationContext) -> (met: bool)
        ensures
            met == self@.holds(context@),
    {
        self.matches_through(context, &mut PatternMemo::Own(PatternTable::new()))
    }
}

} // verus!
