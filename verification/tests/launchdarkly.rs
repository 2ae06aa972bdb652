use armature_features::launchdarkly::{
    finish_evaluation, plan_evaluation, to_ld_context, LaunchDarklyError, TypedCall, TypedReply,
};
use armature_features::{EvaluationContext, Variation};
use launchdarkly_server_sdk::{AttributeValue, Client, ConfigBuilder, Context, Reference};

fn text(context: &Context, name: &str) -> Option<String> {
    match context.get_value(&Reference::from(name)) {
        Some(AttributeValue::String(value)) => Some(value),
        _ => None,
    }
}

#[test]
fn context_mapping_uses_user_id_as_key() {
    let ctx = EvaluationContext::new()
        .with_user_id("user-42")
        .with_attribute("plan", "pro");

    let ld_ctx = to_ld_context(&ctx).expect("context should build");
    assert_eq!(ld_ctx.key(), "user-42");
    assert_eq!(ld_ctx.kind().to_string(), "user");
}

#[test]
fn context_mapping_defaults_key_when_no_user_id() {
    let ctx = EvaluationContext::new().with_attribute("region", "eu");
    let ld_ctx = to_ld_context(&ctx).expect("context should build");
    assert_eq!(ld_ctx.key(), "anonymous");
}

#[test]
fn context_mapping_copies_attributes() {
    let ctx = EvaluationContext::new()
        .with_user_id("u")
        .with_attribute("plan", "pro")
        .with_attribute("name", "Ursula")
        .with_attribute("anonymous", "true")
        .with_attribute("_meta", "m")
        .with_attribute("", "e");
    let ld_ctx = to_ld_context(&ctx).expect("context should build");
    assert_eq!(text(&ld_ctx, "plan").as_deref(), Some("pro"));
    assert_eq!(text(&ld_ctx, "name").as_deref(), Some("Ursula"));
    assert_eq!(text(&ld_ctx, "user_id"), None);
    assert_eq!(text(&ld_ctx, "_meta"), None);
    assert!(matches!(
        ld_ctx.get_value(&Reference::from("anonymous")),
        Some(AttributeValue::Bool(false))
    ));
}

#[test]
fn context_identity_comes_from_user_id_alone() {
    let ctx = EvaluationContext::new()
        .with_user_id("user-42")
        .with_attribute("key", "other")
        .with_attribute("kind", "multi");
    let ld_ctx = to_ld_context(&ctx).expect("context should build");
    assert_eq!(ld_ctx.key(), "user-42");
    assert_eq!(ld_ctx.kind().to_string(), "user");
}

#[test]
fn empty_user_id_is_refused() {
    let ctx = EvaluationContext::new().with_user_id("");
    let error = to_ld_context(&ctx).unwrap_err();
    assert_eq!(
        error.message(),
        "failed to build LaunchDarkly context: key cannot be empty"
    );
    assert!(plan_evaluation("flag", &ctx, &Variation::boolean(true)).is_err());
}

#[test]
fn errors_describe_themselves() {
    assert_eq!(
        LaunchDarklyError::Config("bad".to_string()).message(),
        "failed to build LaunchDarkly config: bad"
    );
    assert_eq!(
        LaunchDarklyError::Client("worse".to_string()).message(),
        "failed to build LaunchDarkly client: worse"
    );
}

/// Evaluates through a real client, with the typed calls that the plan asks for.
fn evaluate(
    client: &Client,
    flag_key: &str,
    context: &EvaluationContext,
    default: &Variation,
) -> Result<Variation, LaunchDarklyError> {
    let plan = plan_evaluation(flag_key, context, default)?;
    let (ld, key) = (&plan.context, plan.flag_key.as_str());
    let reply = match plan.call {
        TypedCall::Bool(value) => TypedReply::Bool(client.bool_variation(ld, key, value)),
        TypedCall::Str(value) => TypedReply::Str(client.str_variation(ld, key, value)),
        TypedCall::Float(bits) => TypedReply::Float(
            client
                .float_variation(ld, key, f64::from_bits(bits))
                .to_bits(),
        ),
        TypedCall::Json(value) => TypedReply::Json(client.json_variation(ld, key, value)),
    };
    Ok(finish_evaluation(reply))
}

#[test]
fn plans_name_flag_context_and_call() {
    let ctx = EvaluationContext::new()
        .with_user_id("user-1")
        .with_attribute("plan", "pro");
    let plan = match plan_evaluation("new-checkout", &ctx, &Variation::string("off")) {
        Ok(plan) => plan,
        Err(error) => panic!("{}", error.message()),
    };
    assert_eq!(plan.flag_key, "new-checkout");
    assert_eq!(plan.context.key(), "user-1");
    assert_eq!(text(&plan.context, "plan"), Some("pro".to_string()));
    assert!(matches!(plan.call, TypedCall::Str(value) if value == "off"));
}

#[test]
fn offline_provider_returns_defaults_for_each_type() {
    let config = ConfigBuilder::new("sdk-test")
        .offline(true)
        .build()
        .expect("offline config builds");
    let client = Client::build(config).expect("offline client builds");
    let ctx = EvaluationContext::new().with_user_id("user-1");

    // Offline mode: unknown flags resolve to the supplied default, proving
    // the type-directed dispatch selects the right typed evaluation.
    let b = evaluate(&client, "flag-bool", &ctx, &Variation::boolean(true)).unwrap();
    assert_eq!(b.as_bool(), Some(true));

    let s = evaluate(&client, "flag-str", &ctx, &Variation::string("fallback")).unwrap();
    assert_eq!(s.as_string(), Some("fallback"));

    let n = evaluate(
        &client,
        "flag-num",
        &ctx,
        &Variation::number(4.2f64.to_bits()),
    )
    .unwrap();
    assert_eq!(n.as_number(), Some(4.2f64.to_bits()));

    let json: serde_json::Value = serde_json::from_str("{\"k\": \"v\"}").unwrap();
    let j = evaluate(&client, "flag-json", &ctx, &Variation::Json(json.clone())).unwrap();
    match j {
        Variation::Json(v) => assert_eq!(v, json),
        other => panic!("expected json variation, got {other:?}"),
    }
}
