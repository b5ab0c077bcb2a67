use tendril::feedback::{
    feedback_config, webhook_from_base_url, FeedbackSettings, FeedbackStrategy, WebhookSettings, FEEDBACK_COMPONENT,
};

fn unconfigured_env() -> FeedbackSettings {
    FeedbackSettings { strategy: FeedbackStrategy::Stderr, component: None }
}

#[test]
fn feedback_is_disabled_when_unconfigured() {
    let config = feedback_config(None, unconfigured_env(), None, None);
    assert_eq!(config.strategy, FeedbackStrategy::Disabled);
    assert_eq!(config.component.as_deref(), Some(FEEDBACK_COMPONENT));
}

#[test]
fn feedback_config_stamps_tendril_component() {
    let config = feedback_config(None, unconfigured_env(), None, None);
    assert_eq!(config.component.as_deref(), Some(FEEDBACK_COMPONENT));
    assert!(!matches!(config.strategy, FeedbackStrategy::Stderr), "Tendril demotes the stderr fallback to Disabled");
}

#[test]
fn project_config_feedback_strategy_is_preferred() {
    let configured = FeedbackSettings { strategy: FeedbackStrategy::Disabled, component: None };
    let env = FeedbackSettings {
        strategy: FeedbackStrategy::Webhook(WebhookSettings {
            url: "https://example.invalid/env".to_owned(),
            token_env: None,
            blocking: true,
        }),
        component: None,
    };
    let resolved = feedback_config(Some(&configured), env, Some("https://example.invalid/base".to_owned()), None);
    assert!(matches!(resolved.strategy, FeedbackStrategy::Disabled));
    assert_eq!(resolved.component.as_deref(), Some(FEEDBACK_COMPONENT));

    let stderr = FeedbackSettings { strategy: FeedbackStrategy::Stderr, component: Some("custom".to_owned()) };
    let resolved = feedback_config(Some(&stderr), unconfigured_env(), None, None);
    assert_eq!(resolved, stderr, "an explicit project strategy wins verbatim");
}

#[test]
fn env_webhook_defaults_to_non_blocking() {
    let env = FeedbackSettings {
        strategy: FeedbackStrategy::Webhook(WebhookSettings {
            url: "https://example.invalid/feedback".to_owned(),
            token_env: None,
            blocking: true,
        }),
        component: None,
    };
    match feedback_config(None, env, None, None).strategy {
        FeedbackStrategy::Webhook(webhook) => {
            assert!(!webhook.blocking, "env webhook feedback must be non-blocking");
            assert_eq!(webhook.url, "https://example.invalid/feedback");
        },
        other => panic!("expected webhook strategy, got {other:?}"),
    }
}

#[test]
fn webhook_from_base_url_appends_component_path() {
    let webhook = webhook_from_base_url(
        "http://helsinki.miku-owl.ts.net:11300/hooks/global/",
        Some("CACOPHONY_FEEDBACK_TOKEN".to_owned()),
    )
    .expect("non-empty base should build a webhook");
    assert_eq!(webhook.url, format!("http://helsinki.miku-owl.ts.net:11300/hooks/global/{FEEDBACK_COMPONENT}"));
    assert_eq!(webhook.token_env.as_deref(), Some("CACOPHONY_FEEDBACK_TOKEN"));

    assert!(webhook_from_base_url("   ", None).is_none());
    assert!(webhook_from_base_url("", None).is_none());
    assert!(webhook_from_base_url(" // ", None).is_none());
}

#[test]
fn shared_base_url_routes_env_feedback_when_no_webhook_is_set() {
    let resolved = feedback_config(
        None,
        unconfigured_env(),
        Some(" https://hooks.example/global// ".to_owned()),
        Some("TOKEN_VAR".to_owned()),
    );
    assert_eq!(
        resolved.strategy,
        FeedbackStrategy::Webhook(WebhookSettings {
            url: "https://hooks.example/global/tendril".to_owned(),
            token_env: Some("TOKEN_VAR".to_owned()),
            blocking: false,
        })
    );
    let other = FeedbackSettings { strategy: FeedbackStrategy::Other("caco".to_owned()), component: None };
    let resolved = feedback_config(None, other, Some("https://hooks.example".to_owned()), None);
    assert_eq!(resolved.strategy, FeedbackStrategy::Other("caco".to_owned()));
}
