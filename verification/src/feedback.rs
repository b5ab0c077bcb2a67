//! How Tendril routes its own breakages back to the project: which reporting
//! strategy is used, resolved from the project configuration and the
//! environment. Feedback is opt-in: with nothing configured it is disabled.
use vstd::prelude::*;

use crate::text::{self, owned, trim};

verus! {

/// Component label stamped on every Tendril feedback event.
pub const FEEDBACK_COMPONENT: &'static str = "tendril";

/// Delivery of feedback events to a webhook.
#[derive(Debug, Clone, PartialEq, Eq)]
pub struct WebhookSettings {
    pub url: String,
    /// The environment variable that holds the webhook's token.
    pub token_env: Option<String>,
    /// Whether delivery waits for the endpoint's answer.
    pub blocking: bool,
}

/// Where feedback events go.
#[derive(Debug, Clone, PartialEq, Eq)]
pub enum FeedbackStrategy {
    Disabled,
    Stderr,
    Webhook(WebhookSettings),
    /// Another strategy of the reporting crate (a local CLI, a file), named
    /// and carried through unchanged.
    Other(String),
}

/// A feedback configuration: the strategy and the component label.
#[derive(Debug, Clone, PartialEq, Eq)]
pub struct FeedbackSettings {
    pub strategy: FeedbackStrategy,
    pub component: Option<String>,
}

/// Number of trailing `/` characters.
pub open spec fn trailing_slashes(s: Seq<char>) -> nat
    decreases s.len(),
{
    if s.len() > 0 && s.last() == '/' {
        1 + trailing_slashes(s.drop_last())
    } else {
        0
    }
}

/// A base URL with surrounding whitespace and trailing slashes removed.
pub open spec fn webhook_base(base: Seq<char>) -> Seq<char> {
    let t = trim(base);
    t.take(t.len() - trailing_slashes(t))
}

/// Builds the Tendril webhook under a shared base URL: trailing slashes and
/// surrounding whitespace are dropped and `/tendril` appended; an empty or
/// blank base gives none. The webhook is non-blocking, as every webhook that
/// the environment selects is.
pub fn webhook_from_base_url(base: &str, token_env: Option<String>) -> (r: Option<WebhookSettings>)
    ensures
        r is None <==> webhook_base(base@).len() == 0,
        r matches Some(w) ==> w.url@ == webhook_base(base@) + "/tendril"@ && w.token_env == token_env && !w.blocking,
{
    let v = text::chars_of(base);
    let t = text::trimmed(v.as_slice());
    let mut end: usize = t.len();
    proof {
        assert(t@.take(end as int) =~= t@);
    }
    while end > 0 && t[end - 1] == '/'
        invariant
            end <= t@.len(),
            trailing_slashes(t@) == trailing_slashes(t@.take(end as int)) + (t@.len() - end),
        decreases end,
    {
        proof {
            assert(t@.take(end as int).drop_last() =~= t@.take(end - 1));
        }
        end -= 1;
    }
    proof {
        let p = t@.take(end as int);
        if end > 0 {
            assert(p.last() == t@[end - 1]);
        }
        assert(trailing_slashes(p) == 0);
        assert(webhook_base(base@) =~= p);
    }
    if end == 0 {
        return None;
    }
    let mut url = text::string_of(&t.as_slice()[0..end]);
    text::push_str(&mut url, "/tendril");
    proof {
        reveal_strlit("/tendril");
        assert(url@ =~= webhook_base(base@) + "/tendril"@);
    }
    Some(WebhookSettings { url, token_env, blocking: false })
}

/// `w` is the webhook at `url` with the given token variable and blocking.
pub open spec fn webhook_is(w: WebhookSettings, url: Seq<char>, token_env: Option<String>, blocking: bool) -> bool {
    w.url@ == url && w.token_env == token_env && w.blocking == blocking
}

/// `r` is the strategy the environment selects: the stderr fallback counts
/// as disabled; a disabled strategy becomes the webhook under the shared
/// base URL when one is set (`<base>/tendril`); a webhook never blocks;
/// another strategy stays as it is.
pub open spec fn env_strategy_ok(
    from_env: FeedbackStrategy,
    base_url: Option<String>,
    base_token_env: Option<String>,
    r: FeedbackStrategy,
) -> bool {
    match from_env {
        FeedbackStrategy::Webhook(w) => r == FeedbackStrategy::Webhook(WebhookSettings { blocking: false, ..w }),
        FeedbackStrategy::Other(n) => r == FeedbackStrategy::Other(n),
        _ => match base_url {
            Some(b) => if webhook_base(b@).len() > 0 {
                r matches FeedbackStrategy::Webhook(w) && webhook_is(w, webhook_base(b@) + "/tendril"@, base_token_env, false)
            } else {
                r == FeedbackStrategy::Disabled
            },
            None => r == FeedbackStrategy::Disabled,
        },
    }
}

fn copy_opt(o: &Option<String>) -> (r: Option<String>)
    ensures
        r == *o,
{
    match o {
        Some(s) => Some(s.clone()),
        None => None,
    }
}

fn copy_strategy(s: &FeedbackStrategy) -> (r: FeedbackStrategy)
    ensures
        r == *s,
{
    match s {
        FeedbackStrategy::Disabled => FeedbackStrategy::Disabled,
        FeedbackStrategy::Stderr => FeedbackStrategy::Stderr,
        FeedbackStrategy::Webhook(w) => FeedbackStrategy::Webhook(
            WebhookSettings { url: w.url.clone(), token_env: copy_opt(&w.token_env), blocking: w.blocking },
        ),
        FeedbackStrategy::Other(name) => FeedbackStrategy::Other(name.clone()),
    }
}

/// Resolves the feedback configuration from the project's configuration,
/// the configuration the environment gives (`from_env`), and the shared base
/// URL and its token variable, also read from the environment.
pub fn feedback_config(
    configured: Option<&FeedbackSettings>,
    from_env: FeedbackSettings,
    base_url: Option<String>,
    base_token_env: Option<String>,
) -> (r: FeedbackSettings)
    ensures
        configured matches Some(c) ==> r.strategy == c.strategy,
        configured is None ==> env_strategy_ok(from_env.strategy, base_url, base_token_env, r.strategy),
        ({
            let component = match configured {
                Some(c) => c.component,
                None => from_env.component,
            };
            &&& component is Some ==> r.component == component
            &&& component is None ==> (r.component matches Some(s) && s@ == "tendril"@)
        }),
{
    let chosen = match configured {
        Some(c) => FeedbackSettings { strategy: copy_strategy(&c.strategy), component: copy_opt(&c.component) },
        None => {
            let s1 = match from_env.strategy {
                FeedbackStrategy::Stderr => FeedbackStrategy::Disabled,
                other => other,
            };
            let s2 = match s1 {
                FeedbackStrategy::Disabled => match base_url {
                    Some(b) => match webhook_from_base_url(b.as_str(), base_token_env) {
                        Some(w) => FeedbackStrategy::Webhook(w),
                        None => FeedbackStrategy::Disabled,
                    },
                    None => FeedbackStrategy::Disabled,
                },
                other => other,
            };
            let s3 = match s2 {
                FeedbackStrategy::Webhook(w) => FeedbackStrategy::Webhook(WebhookSettings { blocking: false, ..w }),
                other => other,
            };
            FeedbackSettings { strategy: s3, component: from_env.component }
        },
    };
    let component = match chosen.component {
        Some(c) => Some(c),
        None => Some(owned("tendril")),
    };
    proof {
        reveal_strlit("tendril");
    }
    FeedbackSettings { strategy: chosen.strategy, component }
}

} // verus!
