//! LaunchDarkly integration: how contexts and variations are carried over to the
//! LaunchDarkly server-side SDK and back.
use crate::context::EvaluationContext;
use crate::variation::Variation;
use launchdarkly_server_sdk::{AttributeValue, Context, ContextBuilder};
use vstd::prelude::*;

verus! {

/// Errors surfaced by the LaunchDarkly adapter.
#[derive(Debug)]
pub enum LaunchDarklyError {
    /// The evaluation context could not be mapped to a LaunchDarkly context.
    Context(String),
    /// The LaunchDarkly client configuration could not be built.
    Config(String),
    /// The LaunchDarkly client could not be constructed.
    Client(String),
}

impl LaunchDarklyError {
    /// The text that describes the error.
    pub open spec fn text(self) -> Seq<char> {
        match self {
            Self::Context(detail) => "failed to build LaunchDarkly context: "@ + detail@,
            Self::Config(detail) => "failed to build LaunchDarkly config: "@ + detail@,
            Self::Client(detail) => "failed to build LaunchDarkly client: "@ + detail@,
        }
    }

    /// Describes the error.
    pub fn message(&self) -> (message: String)
        ensures
            message@ == self.text(),
    {
        let (what, detail) = match self {
            Self::Context(detail) => ("failed to build LaunchDarkly context: ", detail),
            Self::Config(detail) => ("failed to build LaunchDarkly config: ", detail),
            Self::Client(detail) => ("failed to build LaunchDarkly client: ", detail),
        };
        what.to_string().concat(detail.as_str())
    }
}

/// The context `kind` of every context handed to LaunchDarkly.
pub const DEFAULT_KIND: &'static str = "user";

/// The key of a LaunchDarkly context when no `user_id` is present.
pub const ANONYMOUS_KEY: &'static str = "anonymous";

/// Declares `launchdarkly_server_sdk::ContextBuilder`.
#[verifier::external_type_specification]
#[verifier::external_body]
pub struct ExContextBuilder(launchdarkly_server_sdk::ContextBuilder);

/// Declares `launchdarkly_server_sdk::Context`.
#[verifier::external_type_specification]
#[verifier::external_body]
pub struct ExContext(launchdarkly_server_sdk::Context);

/// The model of a LaunchDarkly context, and of a builder of one.
pub struct LdContextView {
    pub key: Seq<char>,
    pub kind: Seq<char>,
    pub name: Option<Seq<char>>,
    pub anonymous: bool,
    /// The custom attributes whose values are strings.
    pub attributes: Map<Seq<char>, Seq<char>>,
}

/// What a builder holds, but for its secondary key and private attributes.
pub uninterp spec fn builder_contents(builder: ContextBuilder) -> LdContextView;

/// What a context of a single kind holds, but for its secondary key and private
/// attributes.
pub uninterp spec fn context_contents(context: Context) -> LdContextView;

/// A name that the builder refuses for an attribute with a string value.
pub open spec fn refused_name(name: Seq<char>) -> bool {
    name == ""@ || name == "anonymous"@ || name == "_meta"@
}

/// What a builder holds after the string `value` was set for `name`: the names
/// `key`, `kind` and `name` are the builder's own.
pub open spec fn with_string(
    contents: LdContextView,
    name: Seq<char>,
    value: Seq<char>,
) -> LdContextView {
    if refused_name(name) {
        contents
    } else if name == "key"@ {
        LdContextView { key: value, ..contents }
    } else if name == "kind"@ {
        LdContextView { kind: value, ..contents }
    } else if name == "name"@ {
        LdContextView { name: Some(value), ..contents }
    } else {
        LdContextView { attributes: contents.attributes.insert(name, value), ..contents }
    }
}

/// Calls `ContextBuilder::new`: a builder of a context of kind `user` with this
/// key and nothing else. Believed, not proved.
#[verifier::external_body]
fn new_builder(key: &str) -> (builder: ContextBuilder)
    ensures
        builder_contents(builder) == (LdContextView {
            key: key@,
            kind: "user"@,
            name: None,
            anonymous: false,
            attributes: Map::empty(),
        }),
{
    ContextBuilder::new(key)
}

/// Calls `ContextBuilder::kind`, which replaces the kind. Believed, not proved.
#[verifier::external_body]
fn set_kind(builder: &mut ContextBuilder, kind: &str)
    ensures
        builder_contents(*final(builder)) == (LdContextView {
            kind: kind@,
            ..builder_contents(*old(builder))
        }),
{
    builder.kind(kind);
}

/// Calls `ContextBuilder::set_value` with a string value. The builder ignores a
/// refused name, takes `key`, `kind` and `name` for its own properties, and
/// keeps any other name as a custom attribute. Believed, not proved.
#[verifier::external_body]
fn set_string(builder: &mut ContextBuilder, name: &str, value: &str)
    ensures
        builder_contents(*final(builder)) == with_string(
            builder_contents(*old(builder)),
            name@,
            value@,
        ),
{
    builder.set_value(name, AttributeValue::String(value.to_string()));
}

/// Calls `ContextBuilder::build` on a builder of kind `user`: it gives a context
/// with the builder's contents, unless the key is empty (only the SDK itself can
/// make a builder that lets an empty key pass, and hands none out). Of other
/// kinds nothing is stated. Believed, not proved.
#[verifier::external_body]
fn build_context(builder: &ContextBuilder) -> (built: Result<Context, String>)
    ensures
        builder_contents(*builder).kind == "user"@ ==> match built {
            Ok(context) => builder_contents(*builder).key.len() > 0 && context_contents(context)
                == builder_contents(*builder),
            Err(message) => builder_contents(*builder).key.len() == 0 && message@
                == "key cannot be empty"@,
        },
{
    builder.build()
}

/// A name under which an attribute does not become a custom attribute: it is
/// carried as the key, is a property of its own, or is refused.
pub open spec fn reserved_name(name: Seq<char>) -> bool {
    name == "user_id"@ || name == "key"@ || name == "kind"@ || name == "name"@ || refused_name(name)
}

/// The LaunchDarkly context of a context with these attributes.
pub open spec fn ld_contents(attributes: Map<Seq<char>, Seq<char>>) -> LdContextView {
    LdContextView {
        key: match crate::context::attribute_of(attributes, "user_id"@) {
            Some(id) => id,
            None => ANONYMOUS_KEY@,
        },
        kind: DEFAULT_KIND@,
        name: crate::context::attribute_of(attributes, "name"@),
        anonymous: false,
        attributes: attributes.remove_keys(Set::new(|name: Seq<char>| reserved_name(name))),
    }
}

/// The name `name` differs from `user_id`, `key` and `kind`, and from the names
/// that a builder refuses.
proof fn lemma_distinct_names()
    ensures
        "user_id"@ != "name"@,
        "key"@ != "name"@,
        "kind"@ != "name"@,
        !refused_name("name"@),
{
    reveal_strlit("user_id");
    reveal_strlit("key");
    reveal_strlit("kind");
    reveal_strlit("name");
    reveal_strlit("");
    reveal_strlit("anonymous");
    reveal_strlit("_meta");
    assert("user_id"@.len() == 7 && "key"@.len() == 3 && "kind"@.len() == 4 && "name"@.len() == 4);
    assert(""@.len() == 0 && "anonymous"@.len() == 9 && "_meta"@.len() == 5);
    assert("name"@[0] == 'n' && "kind"@[0] == 'k');
}

/// Maps an [`EvaluationContext`] onto a LaunchDarkly context.
///
/// The `user_id` attribute becomes the LaunchDarkly context key (falling back to
/// `"anonymous"` when absent). Every other attribute is copied as a string
/// attribute, but for `key` and `kind`, which LaunchDarkly would take for the
/// context's identity. The context `kind` is always `"user"`.
pub fn to_ld_context(context: &EvaluationContext) -> (mapped: Result<Context, LaunchDarklyError>)
    ensures
        match mapped {
            Ok(ld) => ld_contents(context@).key.len() > 0 && context_contents(ld) == ld_contents(
                context@,
            ),
            Err(error) => ld_contents(context@).key.len() == 0
                && (error matches LaunchDarklyError::Context(message) && message@
                == "key cannot be empty"@),
        },
{
    let key = match context.user_id() {
        Some(id) => id,
        None => ANONYMOUS_KEY,
    };
    let mut builder = new_builder(key);
    set_kind(&mut builder, DEFAULT_KIND);
    let pairs = context.attributes();
    let user_id = "user_id".to_string();
    let key_property = "key".to_string();
    let kind_property = "kind".to_string();
    let mut i: usize = 0;
    while i < pairs.len()
        invariant
            i <= pairs@.len(),
            user_id@ == "user_id"@,
            key_property@ == "key"@,
            kind_property@ == "kind"@,
            forall|j: int, k: int|
                0 <= j < k < pairs@.len() ==> #[trigger] pairs@[j].0@ != #[trigger] pairs@[k].0@,
            builder_contents(builder).key == key@,
            builder_contents(builder).kind == DEFAULT_KIND@,
            !builder_contents(builder).anonymous,
            match builder_contents(builder).name {
                Some(name) => exists|j: int|
                    0 <= j < i && #[trigger] pairs@[j].0@ == "name"@ && pairs@[j].1@ == name,
                None => forall|j: int| 0 <= j < i ==> #[trigger] pairs@[j].0@ != "name"@,
            },
            forall|name: Seq<char>| #[trigger]
                builder_contents(builder).attributes.contains_key(name) ==> !reserved_name(name)
                    && exists|j: int|
                    0 <= j < i && #[trigger] pairs@[j].0@ == name && pairs@[j].1@
                        == builder_contents(builder).attributes[name],
            forall|j: int|
                0 <= j < i && !reserved_name(#[trigger] pairs@[j].0@) ==> builder_contents(
                    builder,
                ).attributes.contains_key(pairs@[j].0@),
        decreases pairs@.len() - i,
    {
        let (name, value) = pairs[i];
        let owned = name.to_string();
        if owned != user_id && owned != key_property && owned != kind_property {
            set_string(&mut builder, name, value);
        }
        proof {
            lemma_distinct_names();
        }
        i += 1;
    }
    proof {
        let contents = builder_contents(builder);
        let expected = ld_contents(context@);
        assert(contents.name == expected.name);
        assert forall|name: Seq<char>|
            #![trigger contents.attributes.dom().contains(name)]
            #![trigger expected.attributes.dom().contains(name)]
            #![trigger contents.attributes[name]]
            #![trigger expected.attributes[name]]
            contents.attributes.dom().contains(name) == expected.attributes.dom().contains(name)
                && (expected.attributes.dom().contains(name) ==> contents.attributes[name]
                == expected.attributes[name]) by {
            if context@.contains_key(name) && !reserved_name(name) {
                let j = choose|j: int| 0 <= j < pairs@.len() && #[trigger] pairs@[j].0@ == name;
                assert(pairs@[j].0@ == name);
                assert(contents.attributes.contains_key(pairs@[j].0@));
            } else if contents.attributes.contains_key(name) {
                let j = choose|j: int|
                    0 <= j < pairs@.len() && #[trigger] pairs@[j].0@ == name && pairs@[j].1@
                        == contents.attributes[name];
                assert(pairs@[j].0@ == name);
            }
        }
        assert(contents.attributes =~= expected.attributes);
    }
    match build_context(&builder) {
        Ok(ld) => Ok(ld),
        Err(message) => Err(LaunchDarklyError::Context(message)),
    }
}

/// A typed evaluation that LaunchDarkly is asked for, with the value it is to
/// answer where it has none of its own.
#[derive(Debug)]
pub enum TypedCall {
    Bool(bool),
    Str(String),
    /// A double-precision number, as its IEEE 754 bit pattern.
    Float(u64),
    Json(serde_json::Value),
}

/// What LaunchDarkly answered to a typed evaluation.
#[derive(Debug)]
pub enum TypedReply {
    Bool(bool),
    Str(String),
    /// A double-precision number, as its IEEE 754 bit pattern.
    Float(u64),
    Json(serde_json::Value),
}

/// The typed evaluation that the shape of `default` selects.
pub open spec fn typed_call(default: Variation) -> TypedCall {
    match default {
        Variation::Boolean(value) => TypedCall::Bool(value),
        Variation::String(value) => TypedCall::Str(value),
        Variation::Number(bits) => TypedCall::Float(bits),
        Variation::Json(value) => TypedCall::Json(value),
    }
}

/// The variation that a reply stands for.
pub open spec fn reply_variation(reply: TypedReply) -> Variation {
    match reply {
        TypedReply::Bool(value) => Variation::Boolean(value),
        TypedReply::Str(value) => Variation::String(value),
        TypedReply::Float(bits) => Variation::Number(bits),
        TypedReply::Json(value) => Variation::Json(value),
    }
}

/// What LaunchDarkly is asked for.
pub struct EvaluationPlan {
    /// The flag to evaluate.
    pub flag_key: String,
    /// The LaunchDarkly context to evaluate it for.
    pub context: Context,
    /// The typed evaluation to make.
    pub call: TypedCall,
}

/// Prepares an evaluation of `flag_key` for `context`. The shape of `default`
/// picks the typed evaluation.
pub fn plan_evaluation(flag_key: &str, context: &EvaluationContext, default: &Variation) -> (plan:
    Result<EvaluationPlan, LaunchDarklyError>)
    ensures
        match plan {
            Ok(plan) => ld_contents(context@).key.len() > 0 && plan.flag_key@ == flag_key@
                && context_contents(plan.context) == ld_contents(context@) && plan.call
                == typed_call(*default),
            Err(error) => ld_contents(context@).key.len() == 0
                && (error matches LaunchDarklyError::Context(message) && message@
                == "key cannot be empty"@),
        },
{
    match to_ld_context(context) {
        Ok(ld) => {
            let call = match default {
                Variation::Boolean(value) => TypedCall::Bool(*value),
                Variation::String(value) => TypedCall::Str(value.clone()),
                Variation::Number(bits) => TypedCall::Float(*bits),
                Variation::Json(value) => TypedCall::Json(value.clone()),
            };
            Ok(EvaluationPlan { flag_key: flag_key.to_string(), context: ld, call })
        },
        Err(error) => Err(error),
    }
}

/// Turns LaunchDarkly's reply into a variation.
pub fn finish_evaluation(reply: TypedReply) -> (variation: Variation)
    ensures
        variation == reply_variation(reply),
{
    match reply {
        TypedReply::Bool(value) => Variation::Boolean(value),
        TypedReply::Str(value) => Variation::String(value),
        TypedReply::Float(bits) => Variation::Number(bits),
        TypedReply::Json(value) => Variation::Json(value),
    }
}

} // verus!
