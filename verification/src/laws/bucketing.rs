//! Laws of bucketing and gradual rollout.
use crate::rollout::RolloutView;
use vstd::prelude::*;

verus! {

/// Encoding distributes over concatenation.
proof fn lemma_encode_concat(left: Seq<char>, right: Seq<char>)
    ensures
        vstd::utf8::encode_utf8(left + right) == vstd::utf8::encode_utf8(left)
            + vstd::utf8::encode_utf8(right),
    decreases left.len(),
{
    if left.len() == 0 {
        assert(left + right =~= right);
        assert(vstd::utf8::encode_utf8(left) + vstd::utf8::encode_utf8(right)
            =~= vstd::utf8::encode_utf8(right));
    } else {
        lemma_encode_concat(left.drop_first(), right);
        assert((left + right).drop_first() =~= left.drop_first() + right);
        let first = vstd::utf8::encode_scalar(left[0] as u32);
        assert(first + (vstd::utf8::encode_utf8(left.drop_first()) + vstd::utf8::encode_utf8(right))
            =~= (first + vstd::utf8::encode_utf8(left.drop_first())) + vstd::utf8::encode_utf8(
            right,
        ));
    }
}

/// A bucketing message is the encoding of the key, a colon and the value.
proof fn lemma_message_is_text(flag_key: Seq<char>, value: Seq<char>)
    ensures
        crate::rollout::bucketing_message(flag_key, value) == vstd::utf8::encode_utf8(
            flag_key + seq![':'] + value,
        ),
{
    let colon = seq![':'];
    lemma_encode_concat(flag_key + colon, value);
    lemma_encode_concat(flag_key, colon);
    assert(vstd::utf8::encode_utf8(colon) =~= seq![crate::rollout::SEPARATOR]) by {
        vstd::utf8::is_ascii_chars_encode_utf8(colon);
        assert(colon[0] as u8 == vstd::utf8::encode_utf8(colon)[0]);
    }
}

/// The number of no bytes is zero; one more byte is the least significant digit in
/// base 256.
pub proof fn law_bytes_are_digits(bytes: Seq<u8>, byte: u8)
    ensures
        crate::digest::big_endian(Seq::empty()) == 0,
        crate::digest::big_endian(bytes.push(byte)) == 256 * crate::digest::big_endian(bytes)
            + byte,
{
    assert(bytes.push(byte).drop_last() =~= bytes);
}

/// The number of eight bytes, digit by digit, the first the most significant.
proof fn lemma_eight_digits(bytes: Seq<u8>)
    requires
        bytes.len() == 8,
    ensures
        crate::digest::big_endian(bytes) == bytes[0] * 0x100_0000_0000_0000 + bytes[1]
            * 0x1_0000_0000_0000 + bytes[2] * 0x100_0000_0000 + bytes[3] * 0x1_0000_0000 + bytes[4]
            * 0x100_0000 + bytes[5] * 0x1_0000 + bytes[6] * 0x100 + bytes[7],
{
    reveal_with_fuel(crate::digest::big_endian, 9);
}

/// The hash of a pair is taken over the whole of key, colon and value, however
/// long they are: it is the number that the first eight bytes of the SHA-256
/// digest of that text spell, the first byte the most significant.
pub proof fn law_hash_covers_the_whole_text(flag_key: Seq<char>, value: Seq<char>)
    ensures
        ({
            let digest = crate::digest::sha256(
                vstd::utf8::encode_utf8(flag_key + seq![':'] + value),
            );
            let hash = crate::rollout::bucketing_hash(flag_key, value);
            &&& hash == crate::digest::big_endian(digest.take(8))
            &&& digest.len() >= 8 ==> hash == digest[0] * 0x100_0000_0000_0000 + digest[1]
                * 0x1_0000_0000_0000 + digest[2] * 0x100_0000_0000 + digest[3] * 0x1_0000_0000
                + digest[4] * 0x100_0000 + digest[5] * 0x1_0000 + digest[6] * 0x100 + digest[7]
        }),
{
    let digest = crate::digest::sha256(vstd::utf8::encode_utf8(flag_key + seq![':'] + value));
    lemma_message_is_text(flag_key, value);
    if digest.len() >= 8 {
        lemma_eight_digits(digest.take(8));
    }
}

/// The bytes hashed for a pair are those of the key, one colon and those of the
/// value, none left out.
pub proof fn law_message_is_the_whole_text(flag_key: Seq<char>, value: Seq<char>)
    ensures
        crate::rollout::bucketing_message(flag_key, value) == vstd::utf8::encode_utf8(flag_key)
            + seq![0x3au8] + vstd::utf8::encode_utf8(value),
        crate::rollout::bucketing_message(flag_key, value) == vstd::utf8::encode_utf8(
            flag_key + seq![':'] + value,
        ),
{
    lemma_message_is_text(flag_key, value);
}

/// The bucket of a pair is its hash, up to a multiple of 100.
pub proof fn law_bucket_is_the_hash_modulo_100(flag_key: Seq<char>, value: Seq<char>)
    ensures
        exists|hundreds: nat|
            crate::rollout::bucketing_hash(flag_key, value) == #[trigger] (100 * hundreds)
                + crate::rollout::bucket_of(flag_key, value),
        crate::rollout::bucket_of(flag_key, value) < 100,
{
    let hundreds = crate::rollout::bucketing_hash(flag_key, value) / 100;
    assert(crate::rollout::bucketing_hash(flag_key, value) == 100 * hundreds
        + crate::rollout::bucket_of(flag_key, value));
}

/// The first pair becomes the second by moving a colon and what follows it, from
/// the front of the value to the end of the key.
pub open spec fn moves_colon(
    key: Seq<char>,
    value: Seq<char>,
    other_key: Seq<char>,
    other_value: Seq<char>,
) -> bool {
    exists|moved: Seq<char>|
        other_key == #[trigger] (key + seq![':'] + moved) && value == moved + seq![':']
            + other_value
}

/// Two texts of the form key, colon, value, the first key no longer than the
/// second, are equal only if the pairs are, or if the second key continues the
/// first across a colon.
proof fn lemma_equal_texts(
    key: Seq<char>,
    value: Seq<char>,
    other_key: Seq<char>,
    other_value: Seq<char>,
)
    requires
        key + seq![':'] + value == other_key + seq![':'] + other_value,
        key.len() <= other_key.len(),
    ensures
        (key == other_key && value == other_value) || moves_colon(
            key,
            value,
            other_key,
            other_value,
        ),
{
    let text = key + seq![':'] + value;
    let other = other_key + seq![':'] + other_value;
    let n = key.len() as int;
    let m = other_key.len() as int;
    if n == m {
        assert(key =~= text.subrange(0, n));
        assert(other_key =~= other.subrange(0, n));
        assert(value =~= text.subrange(n + 1, text.len() as int));
        assert(other_value =~= other.subrange(n + 1, other.len() as int));
    } else {
        let moved = other_key.subrange(n + 1, m);
        assert(other_key =~= key + seq![':'] + moved) by {
            assert forall|i: int| 0 <= i < m implies other_key[i] == (key + seq![':'] + moved)[i] by {
                assert(other[i] == text[i]);
            }
        }
        assert(value =~= moved + seq![':'] + other_value) by {
            assert(text.len() == n + 1 + value.len());
            assert(other.len() == m + 1 + other_value.len());
            assert forall|i: int| 0 <= i < value.len() implies value[i] == (moved + seq![':']
                + other_value)[i] by {
                assert(text[n + 1 + i] == other[n + 1 + i]);
            }
        }
    }
}

/// Which pairs are hashed alike: the same bytes are hashed for two pairs exactly
/// when the pairs are equal, or one becomes the other by moving a colon between
/// key and value. So `("ab", "c")` and `("a", "bc")` are told apart, while
/// `("a:b", "c")` and `("a", "b:c")` are not.
pub proof fn law_equal_messages(
    key: Seq<char>,
    value: Seq<char>,
    other_key: Seq<char>,
    other_value: Seq<char>,
)
    ensures
        crate::rollout::bucketing_message(key, value) == crate::rollout::bucketing_message(
            other_key,
            other_value,
        ) <==> {
            ||| key == other_key && value == other_value
            ||| moves_colon(key, value, other_key, other_value)
            ||| moves_colon(other_key, other_value, key, value)
        },
{
    let text = key + seq![':'] + value;
    let other = other_key + seq![':'] + other_value;
    lemma_message_is_text(key, value);
    lemma_message_is_text(other_key, other_value);
    vstd::utf8::encode_utf8_decode_utf8(text);
    vstd::utf8::encode_utf8_decode_utf8(other);
    if text == other {
        if key.len() <= other_key.len() {
            lemma_equal_texts(key, value, other_key, other_value);
        } else {
            lemma_equal_texts(other_key, other_value, key, value);
        }
    }
    if moves_colon(key, value, other_key, other_value) {
        let moved = choose|moved: Seq<char>|
            other_key == #[trigger] (key + seq![':'] + moved) && value == moved + seq![':']
                + other_value;
        assert(text =~= other);
    }
    if moves_colon(other_key, other_value, key, value) {
        let moved = choose|moved: Seq<char>|
            key == #[trigger] (other_key + seq![':'] + moved) && other_value == moved + seq![':']
                + value;
        assert(text =~= other);
    }
}

/// Under flag keys without a colon, distinct pairs are hashed from distinct
/// bytes.
pub proof fn law_colon_free_keys_are_told_apart(
    key: Seq<char>,
    value: Seq<char>,
    other_key: Seq<char>,
    other_value: Seq<char>,
)
    requires
        !key.contains(':'),
        !other_key.contains(':'),
    ensures
        crate::rollout::bucketing_message(key, value) == crate::rollout::bucketing_message(
            other_key,
            other_value,
        ) <==> key == other_key && value == other_value,
{
    law_equal_messages(key, value, other_key, other_value);
    if moves_colon(key, value, other_key, other_value) {
        assert(other_key[key.len() as int] == ':');
    }
    if moves_colon(other_key, other_value, key, value) {
        assert(key[other_key.len() as int] == ':');
    }
}

/// Every bucket is below 100.
pub proof fn law_bucket_in_range(flag_key: Seq<char>, value: Seq<char>)
    ensures
        crate::rollout::bucket_of(flag_key, value) < 100,
{
}

/// A rollout serves its own variation or nothing, and nothing to a context that
/// lacks the bucketing attribute.
pub proof fn law_rollout_serves_its_variation(
    rollout: RolloutView,
    attributes: Map<Seq<char>, Seq<char>>,
    flag_key: Seq<char>,
)
    ensures
        rollout.outcome(attributes, flag_key) matches Some(variation) ==> variation
            == rollout.variation && attributes.contains_key(rollout.bucket_attribute()),
{
}

/// A rollout serves a bucket below its percentage, and no other, with its own
/// variation.
pub proof fn law_rollout_serves_the_low_buckets(rollout: RolloutView, bucket: nat)
    ensures
        bucket < rollout.percentage ==> rollout.serves(Some(bucket)) == Some(rollout.variation),
        bucket >= rollout.percentage ==> rollout.serves(Some(bucket)) is None,
        rollout.serves(None) is None,
{
}

/// A context falls into the bucket of its bucketing attribute, which is the user
/// id unless the rollout names another; without it, into none.
pub proof fn law_rollout_buckets_by_its_attribute(
    rollout: RolloutView,
    attributes: Map<Seq<char>, Seq<char>>,
    flag_key: Seq<char>,
    name: Seq<char>,
)
    requires
        rollout.bucket_by == Some(name) || (rollout.bucket_by is None && name == "user_id"@),
    ensures
        rollout.bucket_attribute() == name,
        attributes.contains_key(name) ==> rollout.bucket(attributes, flag_key) == Some(
            crate::rollout::bucket_of(flag_key, attributes[name]),
        ),
        !attributes.contains_key(name) ==> rollout.bucket(attributes, flag_key) is None,
{
}

/// A rollout includes a context exactly where the context has the bucketing
/// attribute and its hash, modulo 100, is below the percentage.
pub proof fn law_rollout_includes_by_hash(
    rollout: RolloutView,
    attributes: Map<Seq<char>, Seq<char>>,
    flag_key: Seq<char>,
    name: Seq<char>,
)
    requires
        rollout.bucket_by == Some(name) || (rollout.bucket_by is None && name == "user_id"@),
    ensures
        rollout.outcome(attributes, flag_key) == if attributes.contains_key(name)
            && crate::rollout::bucketing_hash(flag_key, attributes[name]) % 100
            < rollout.percentage {
            Some(rollout.variation)
        } else {
            None
        },
{
}

/// Whoever a rollout includes stays included when its percentage is raised.
pub proof fn law_raising_the_percentage_keeps_users(
    rollout: RolloutView,
    raised: RolloutView,
    attributes: Map<Seq<char>, Seq<char>>,
    flag_key: Seq<char>,
)
    requires
        raised == (RolloutView { percentage: raised.percentage, ..rollout }),
        rollout.percentage <= raised.percentage,
        rollout.outcome(attributes, flag_key) is Some,
    ensures
        raised.outcome(attributes, flag_key) == rollout.outcome(attributes, flag_key),
{
}

/// A rollout to 0 percent includes nobody; one to 100 percent includes every
/// context that has the bucketing attribute.
pub proof fn law_rollout_extremes(
    rollout: RolloutView,
    attributes: Map<Seq<char>, Seq<char>>,
    flag_key: Seq<char>,
)
    ensures
        rollout.percentage == 0 ==> rollout.outcome(attributes, flag_key) is None,
        rollout.percentage >= 100 ==> (rollout.outcome(attributes, flag_key) is Some
            <==> attributes.contains_key(rollout.bucket_attribute())),
{
}

/// Of the 100 buckets, a rollout to `percentage` percent includes that many, and
/// all of them from 100 percent on.
pub proof fn law_percentage_counts_buckets(rollout: RolloutView)
    ensures
        Set::<int>::new(
            |bucket: int| 0 <= bucket < 100 && rollout.serves(Some(bucket as nat)) is Some,
        ).len() == if rollout.percentage < 100 {
            rollout.percentage
        } else {
            100
        },
{
    let included = Set::<int>::new(
        |bucket: int| 0 <= bucket < 100 && rollout.serves(Some(bucket as nat)) is Some,
    );
    let end = if rollout.percentage < 100 {
        rollout.percentage as int
    } else {
        100
    };
    assert(included =~= vstd::set_lib::set_int_range(0, end));
    vstd::set_lib::lemma_int_range(0, end);
}

/// A rollout reads the bucketing attribute and no other: contexts that agree on
/// it get the same outcome, however else they differ.
pub proof fn law_rollout_reads_its_attribute(
    rollout: RolloutView,
    attributes: Map<Seq<char>, Seq<char>>,
    others: Map<Seq<char>, Seq<char>>,
    flag_key: Seq<char>,
)
    requires
        crate::context::attribute_of(attributes, rollout.bucket_attribute())
            == crate::context::attribute_of(others, rollout.bucket_attribute()),
    ensures
        rollout.outcome(attributes, flag_key) == rollout.outcome(others, flag_key),
{
}

} // verus!
