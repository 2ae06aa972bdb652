//! Gradual rollouts and the deterministic bucketing behind them.
use crate::context::EvaluationContext;
use crate::digest::{leading_u64, sha256_digest};
use crate::variation::Variation;
use vstd::prelude::*;

verus! {

/// The byte `:`, which separates the flag key from the bucketing value in what
/// is hashed.
pub const SEPARATOR: u8 = 0x3a;

/// The bytes hashed for `value` under the flag `flag_key`.
pub open spec fn bucketing_message(flag_key: Seq<char>, value: Seq<char>) -> Seq<u8> {
    vstd::utf8::encode_utf8(flag_key) + seq![SEPARATOR] + vstd::utf8::encode_utf8(value)
}

/// The hash of `value` under the flag `flag_key`: the first eight bytes of the
/// SHA-256 digest of their bucketing message, as a big-endian number.
pub open spec fn bucketing_hash(flag_key: Seq<char>, value: Seq<char>) -> nat {
    crate::digest::big_endian(crate::digest::sha256(bucketing_message(flag_key, value)).take(8))
}

/// The percentage bucket, from 0 to 99, of `value` under the flag `flag_key`.
pub open spec fn bucket_of(flag_key: Seq<char>, value: Seq<char>) -> nat {
    bucketing_hash(flag_key, value) % 100
}

/// Gradual rollout configuration.
#[derive(Debug)]
pub struct Rollout {
    /// Percentage (0-100)
    pub percentage: u8,
    /// Variation to serve to included users
    pub variation: Variation,
    /// Attribute to use for bucketing (default: user_id)
    pub bucket_by: Option<String>,
}

/// The model of a [`Rollout`].
pub struct RolloutView {
    pub percentage: nat,
    pub variation: Variation,
    pub bucket_by: Option<Seq<char>>,
}

impl RolloutView {
    /// The attribute that is hashed.
    pub open spec fn bucket_attribute(self) -> Seq<char> {
        match self.bucket_by {
            Some(name) => name,
            None => "user_id"@,
        }
    }

    /// The bucket of a context with these attributes; none where the attribute
    /// that is hashed is missing.
    pub open spec fn bucket(self, attributes: Map<Seq<char>, Seq<char>>, flag_key: Seq<char>) -> Option<
        nat,
    > {
        match crate::context::attribute_of(attributes, self.bucket_attribute()) {
            Some(value) => Some(bucket_of(flag_key, value)),
            None => None,
        }
    }

    /// What the rollout serves to a bucket: its variation below the percentage,
    /// nothing from there on.
    pub open spec fn serves(self, bucket: Option<nat>) -> Option<Variation> {
        match bucket {
            Some(number) if number < self.percentage => Some(self.variation),
            _ => None,
        }
    }

    /// What the rollout serves to a context with these attributes.
    pub open spec fn outcome(
        self,
        attributes: Map<Seq<char>, Seq<char>>,
        flag_key: Seq<char>,
    ) -> Option<Variation> {
        self.serves(self.bucket(attributes, flag_key))
    }
}

impl View for Rollout {
    type V = RolloutView;

    open spec fn view(&self) -> RolloutView {
        RolloutView {
            percentage: self.percentage as nat,
            variation: self.variation,
            bucket_by: match self.bucket_by {
                Some(name) => Some(name@),
                None => None,
            },
        }
    }
}

impl Clone for Rollout {
    fn clone(&self) -> (copy: Self)
        ensures
            copy@ == self@,
    {
        Rollout {
            percentage: self.percentage,
            variation: self.variation.clone(),
            bucket_by: match &self.bucket_by {
                Some(name) => Some(name.clone()),
                None => None,
            },
        }
    }
}

/// A bucket number as the model has it.
pub open spec fn bucket_number(bucket: Option<u8>) -> Option<nat> {
    match bucket {
        Some(number) => Some(number as nat),
        None => None,
    }
}

impl Rollout {
    /// A rollout of `variation` to `percentage` percent of the users, bucketed
    /// by user id. More than 100 percent counts as 100.
    pub fn new(percentage: u8, variation: Variation) -> (rollout: Self)
        ensures
            rollout.percentage == if percentage > 100 {
                100
            } else {
                percentage
            },
            rollout.variation == variation,
            rollout.bucket_by is None,
    {
        let percentage: u8 = if percentage > 100 {
            100
        } else {
            percentage
        };
        Rollout { percentage, variation, bucket_by: None }
    }

    /// Buckets by `attribute` in place of the user id.
    pub fn with_bucket_by(self, attribute: impl Into<String>) -> (rollout: Self)
        ensures
            rollout.percentage == self.percentage,
            rollout.variation == self.variation,
            rollout.bucket_by matches Some(name) && crate::text::converts_to(attribute, name@),
    {
        Rollout {
            percentage: self.percentage,
            variation: self.variation,
            bucket_by: Some(attribute.into()),
        }
    }

    /// The variation served to `context`, if the rollout includes it.
    pub fn evaluate(&self, context: &EvaluationContext, flag_key: &str) -> (served: Option<
        Variation,
    >)
        ensures
            served == self@.outcome(context@, flag_key@),
    {
        self.serve(self.bucket(context, flag_key))
    }

    /// The bucket of `context`; `None` where it lacks the attribute to hash.
    pub fn bucket(&self, context: &EvaluationContext, flag_key: &str) -> (bucket: Option<u8>)
        ensures
            bucket_number(bucket) == self@.bucket(context@, flag_key@),
    {
        let attribute = match &self.bucket_by {
            Some(name) => name.as_str(),
            None => "user_id",
        };
        match context.get(attribute) {
            Some(value) => Some(Self::calculate_bucket(flag_key, value)),
            None => None,
        }
    }

    /// The variation served to a context in `bucket`.
    pub fn serve(&self, bucket: Option<u8>) -> (served: Option<Variation>)
        ensures
            served == self@.serves(bucket_number(bucket)),
    {
        match bucket {
            Some(number) => if number < self.percentage {
                Some(self.variation.clone())
            } else {
                None
            },
            None => None,
        }
    }

    /// Hashes `(flag_key, value)` into a uniformly distributed 64-bit value.
    ///
    /// Uses the first 8 bytes of a SHA-256 digest, a far larger and more uniform
    /// space than a single byte before it is reduced modulo the number of
    /// buckets.
    pub fn hash_to_u64(flag_key: &str, value: &str) -> (hash: u64)
        ensures
            hash == bucketing_hash(flag_key@, value@),
    {
        let mut message: Vec<u8> = Vec::new();
        message.extend_from_slice(flag_key.as_bytes());
        message.push(SEPARATOR);
        message.extend_from_slice(value.as_bytes());
        assert(message@ =~= bucketing_message(flag_key@, value@));
        let digest = sha256_digest(message.as_slice());
        leading_u64(digest.as_slice())
    }

    /// The bucket, from 0 to 99, that a hash falls into.
    pub fn reduce(hash: u64) -> (bucket: u8)
        ensures
            bucket == hash % 100,
            bucket < 100,
    {
        (hash % 100) as u8
    }

    /// The bucket, from 0 to 99, of `value` under the flag `flag_key`.
    pub fn calculate_bucket(flag_key: &str, value: &str) -> (bucket: u8)
        ensures
            bucket == bucket_of(flag_key@, value@),
            bucket < 100,
    {
        Self::reduce(Self::hash_to_u64(flag_key, value))
    }
}

} // verus!
