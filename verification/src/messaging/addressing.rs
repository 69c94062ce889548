//! How an application addresses the message bus: its namespace, and the
//! filters its topic subscriptions and cross-app subscriptions use.

use vstd::prelude::*;
use crate::messaging::filters::{app_prefix, namespaced, string_views};
use crate::messaging::types::MessageFilter;

verus! {

/// Whether a filter selects nothing beyond the given topic patterns and
/// source application: every other criterion is unset and expired messages
/// are left out.
pub open spec fn only_patterns_and_source(f: MessageFilter) -> bool {
    &&& f.topics is None && f.senders is None && f.recipients is None
    &&& f.content_query is None && f.headers is None && f.time_range is None
    &&& f.importance_range is None && f.tags is None && f.tags_any is None
    &&& !f.include_expired
}

/// The namespace of an application: `app:` followed by its identifier.
pub fn app_namespace(app_id: &str) -> (r: String)
    ensures
        r@ == app_prefix() + app_id@,
{
    proof {
        reveal_strlit("app:");
    }
    let r = String::from_str("app:").concat(app_id);
    assert(r@ =~= app_prefix() + app_id@);
    r
}

/// The filter of a subscription to a topic pattern within a namespace: the
/// one pattern `namespace.pattern`.
pub fn topic_subscription_filter(namespace: &str, topic_pattern: &str) -> (f: MessageFilter)
    ensures
        only_patterns_and_source(f),
        f.source_app is None,
        f.topic_patterns matches Some(p) && string_views(p@) == seq![namespaced(namespace@, topic_pattern@)],
{
    proof {
        reveal_strlit(".");
    }
    let pattern = String::from_str(namespace).concat(".").concat(topic_pattern);
    assert(".".view() =~= seq!['.']);
    assert(pattern@ =~= namespaced(namespace@, topic_pattern@));
    let mut patterns: Vec<String> = Vec::new();
    patterns.push(pattern);
    assert(string_views(patterns@) =~= seq![namespaced(namespace@, topic_pattern@)]);
    let mut f = MessageFilter::new();
    f.topic_patterns = Some(patterns);
    f
}

/// The filter of a subscription to another application's messages: the one
/// pattern `app:source.pattern`, from that source application.
pub fn cross_app_subscription_filter(source_app: &str, topic_pattern: &str) -> (f: MessageFilter)
    ensures
        only_patterns_and_source(f),
        f.source_app matches Some(s) && s@ == source_app@,
        f.topic_patterns matches Some(p) && string_views(p@) == seq![
            namespaced(app_prefix() + source_app@, topic_pattern@),
        ],
{
    let namespace = app_namespace(source_app);
    let mut f = topic_subscription_filter(namespace.as_str(), topic_pattern);
    f.source_app = Some(String::from_str(source_app));
    f
}

} // verus!
