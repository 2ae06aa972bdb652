//! Laws of the LaunchDarkly integration.
use crate::launchdarkly::{LaunchDarklyError, TypedCall, TypedReply};
use crate::variation::Variation;
use vstd::prelude::*;

verus! {

/// Every context handed to LaunchDarkly is of kind `user`, and its key is the
/// user id, or `anonymous` where there is none, whatever other attributes there
/// are.
pub proof fn law_user_id_is_the_key(attributes: Map<Seq<char>, Seq<char>>)
    ensures
        crate::launchdarkly::ld_contents(attributes).kind == "user"@,
        crate::launchdarkly::ld_contents(attributes).key == if attributes.contains_key(
            "user_id"@,
        ) {
            attributes["user_id"@]
        } else {
            "anonymous"@
        },
{
}

/// Every attribute whose name is not reserved is copied, and nothing else
/// becomes a custom attribute.
pub proof fn law_attributes_are_copied(
    attributes: Map<Seq<char>, Seq<char>>,
    name: Seq<char>,
)
    ensures
        crate::context::attribute_of(crate::launchdarkly::ld_contents(attributes).attributes, name)
            == if crate::launchdarkly::reserved_name(name) {
            None
        } else {
            crate::context::attribute_of(attributes, name)
        },
{
}

/// Every attribute is copied under its name with its value, and nothing else
/// becomes a custom attribute; the names that LaunchDarkly keeps for the context
/// itself, and the user id, are left out.
pub proof fn law_attributes_keep_name_and_value(
    attributes: Map<Seq<char>, Seq<char>>,
    name: Seq<char>,
)
    ensures
        ({
            let copied = crate::launchdarkly::ld_contents(attributes).attributes;
            let left_out = name == "user_id"@ || name == "key"@ || name == "kind"@ || name
                == "name"@ || name == "anonymous"@ || name == "_meta"@ || name == ""@;
            &&& copied.contains_key(name) <==> attributes.contains_key(name) && !left_out
            &&& copied.contains_key(name) ==> copied[name] == attributes[name]
        }),
{
}

/// The `name` attribute, where there is one, becomes the name of the LaunchDarkly
/// context, which is never marked as anonymous.
pub proof fn law_name_is_the_name(attributes: Map<Seq<char>, Seq<char>>)
    ensures
        crate::launchdarkly::ld_contents(attributes).name == if attributes.contains_key("name"@) {
            Some(attributes["name"@])
        } else {
            None
        },
        !crate::launchdarkly::ld_contents(attributes).anonymous,
{
}

/// The typed evaluation carries the default's own value, whatever its type.
pub proof fn law_call_carries_the_default(default: Variation)
    ensures
        default matches Variation::Boolean(value) ==> crate::launchdarkly::typed_call(default)
            == TypedCall::Bool(value),
        default matches Variation::String(value) ==> crate::launchdarkly::typed_call(default)
            == TypedCall::Str(value),
        default matches Variation::Number(bits) ==> crate::launchdarkly::typed_call(default)
            == TypedCall::Float(bits),
        default matches Variation::Json(value) ==> crate::launchdarkly::typed_call(default)
            == TypedCall::Json(value),
{
}

/// What LaunchDarkly answered is what comes back, whatever its type.
pub proof fn law_reply_carries_its_value(reply: TypedReply)
    ensures
        reply matches TypedReply::Bool(value) ==> crate::launchdarkly::reply_variation(reply)
            == Variation::Boolean(value),
        reply matches TypedReply::Str(value) ==> crate::launchdarkly::reply_variation(reply)
            == Variation::String(value),
        reply matches TypedReply::Float(bits) ==> crate::launchdarkly::reply_variation(reply)
            == Variation::Number(bits),
        reply matches TypedReply::Json(value) ==> crate::launchdarkly::reply_variation(reply)
            == Variation::Json(value),
{
}

/// Different answers come back as different variations.
pub proof fn law_replies_are_told_apart(reply: TypedReply, other: TypedReply)
    ensures
        crate::launchdarkly::reply_variation(reply) == crate::launchdarkly::reply_variation(other)
            <==> reply == other,
{
}

/// An error says what could not be built, followed by its detail.
pub proof fn law_error_says_what_failed(detail: String)
    ensures
        LaunchDarklyError::Context(detail).text() == "failed to build LaunchDarkly context: "@
            + detail@,
        LaunchDarklyError::Config(detail).text() == "failed to build LaunchDarkly config: "@
            + detail@,
        LaunchDarklyError::Client(detail).text() == "failed to build LaunchDarkly client: "@
            + detail@,
{
}

/// The reply is of the type that was asked for.
pub open spec fn answers(call: TypedCall, reply: TypedReply) -> bool {
    match call {
        TypedCall::Bool(_) => reply is Bool,
        TypedCall::Str(_) => reply is Str,
        TypedCall::Float(_) => reply is Float,
        TypedCall::Json(_) => reply is Json,
    }
}

/// The reply that gives back the default of a call.
pub open spec fn default_reply(call: TypedCall) -> TypedReply {
    match call {
        TypedCall::Bool(value) => TypedReply::Bool(value),
        TypedCall::Str(value) => TypedReply::Str(value),
        TypedCall::Float(bits) => TypedReply::Float(bits),
        TypedCall::Json(value) => TypedReply::Json(value),
    }
}

/// The variation that comes back is of the default's type, whatever LaunchDarkly
/// answers to the typed evaluation that the default selects.
pub proof fn law_reply_keeps_the_type(default: Variation, reply: TypedReply)
    requires
        answers(crate::launchdarkly::typed_call(default), reply),
    ensures
        match default {
            Variation::Boolean(_) => crate::launchdarkly::reply_variation(reply) is Boolean,
            Variation::String(_) => crate::launchdarkly::reply_variation(reply) is String,
            Variation::Number(_) => crate::launchdarkly::reply_variation(reply) is Number,
            Variation::Json(_) => crate::launchdarkly::reply_variation(reply) is Json,
        },
{
}

/// Where LaunchDarkly answers with the default of the call, as it does offline
/// and for unknown flags, the default variation comes back.
pub proof fn law_default_comes_back(default: Variation)
    ensures
        answers(
            crate::launchdarkly::typed_call(default),
            default_reply(crate::launchdarkly::typed_call(default)),
        ),
        crate::launchdarkly::reply_variation(
            default_reply(crate::launchdarkly::typed_call(default)),
        ) == default,
{
}

} // verus!
