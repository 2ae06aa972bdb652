//! Feature flags with targeting rules, gradual rollout and A/B testing, and a
//! LaunchDarkly integration.
//!
//! A [`FeatureFlag`] is evaluated for an [`EvaluationContext`], the named
//! attributes of a user, and serves a [`Variation`]. The first targeting rule
//! that matches decides; else the rollout, for the users it includes; else the
//! experiment, which spreads users over the flag's variations; else the default.
//! Rollouts and experiments bucket users by a hash, so the same user always gets
//! the same answer.
//!
//! Every function states in its contract what it returns, over the models of the
//! types (`flag@`, `context@`); [`laws`] states what follows for the library as a
//! whole.
pub mod condition;
pub mod context;
pub mod digest;
pub mod flag;
pub mod launchdarkly;
pub mod laws;
pub mod patterns;
pub mod rollout;
pub mod text;
pub mod variation;

pub use flag::{
    Condition, EvaluationContext, FeatureFlag, Operator, Rollout, TargetingRule, Variation,
};
