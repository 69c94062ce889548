//! The protocol spoken with a locai server over a WebSocket: its messages,
//! the address to connect to, where an incoming message goes, and how the
//! reply to each request is read.

use vstd::prelude::*;
use crate::error::LocaiError;
use crate::json::JsonValue;
use crate::messaging::types::{Message, MessageFilter, MessageId};
use crate::text::{chars_of, has_prefix, vec_has_prefix};

verus! {

/// Message types for communication with a locai server.
#[derive(Debug)]
pub enum ServerMessage {
    /// Authentication request
    Authenticate { app_id: String, token: Option<String> },
    /// Authentication response
    AuthenticationResponse { success: bool, message: String, connection_id: String },
    /// Send a message
    SendMessage {
        namespace: String,
        topic: String,
        content: JsonValue,
        headers: Option<Vec<(String, String)>>,
        correlation_id: Option<String>,
    },
    /// Message sent confirmation
    MessageSent { message_id: String, correlation_id: Option<String> },
    /// Subscribe to messages
    Subscribe { filter: MessageFilter, subscription_id: String },
    /// Subscription confirmation
    SubscriptionConfirmed { subscription_id: String, message: String },
    /// Incoming message from a subscription
    IncomingMessage { message: Message, subscription_id: String },
    /// Unsubscribe from messages
    Unsubscribe { subscription_id: String },
    /// Cross-app message
    CrossAppMessage {
        source_app: String,
        target_app: String,
        topic: String,
        content: JsonValue,
        headers: Option<Vec<(String, String)>>,
        correlation_id: Option<String>,
    },
    /// Get message history
    GetMessageHistory { filter: Option<MessageFilter>, limit: Option<usize>, correlation_id: String },
    /// Message history response
    MessageHistoryResponse { messages: Vec<Message>, correlation_id: String },
    /// Ping for keepalive
    Ping,
    /// Pong response
    Pong,
    /// Error message
    Error { message: String, code: Option<String>, correlation_id: Option<String> },
}

/// The WebSocket address of a server: a `ws://` or `wss://` address as it
/// is, anything else taken as a host whose endpoint is `/api/ws`.
pub open spec fn websocket_address(server_url: Seq<char>) -> Seq<char> {
    if has_prefix(server_url, "ws://"@) || has_prefix(server_url, "wss://"@) {
        server_url
    } else {
        "ws://"@ + server_url + "/api/ws"@
    }
}

/// The WebSocket address to connect to for a server.
pub fn websocket_url(server_url: &str) -> (r: String)
    ensures
        r@ == websocket_address(server_url@),
{
    let url = chars_of(server_url);
    let ws = chars_of("ws://");
    let wss = chars_of("wss://");
    if vec_has_prefix(&url, &ws) || vec_has_prefix(&url, &wss) {
        String::from_str(server_url)
    } else {
        String::from_str("ws://").concat(server_url).concat("/api/ws")
    }
}

/// Where a message from the server is delivered.
#[derive(Debug, Clone, PartialEq, Eq)]
pub enum ServerRoute {
    /// To the subscription with this identifier
    Subscription(String),
    /// To the request waiting under this correlation identifier (which then
    /// stops waiting)
    Response(String),
    /// Nowhere
    Ignore,
}

/// The delivery of a message from the server: an incoming message to its
/// subscription; a send confirmation, history or error carrying a
/// correlation identifier to the request waiting under it; anything else,
/// an authentication response among them, nowhere.
pub open spec fn server_route(msg: ServerMessage) -> Option<Seq<char>> {
    match msg {
        ServerMessage::MessageSent { correlation_id: Some(c), .. } => Some(c@),
        ServerMessage::MessageHistoryResponse { correlation_id, .. } => Some(correlation_id@),
        ServerMessage::Error { correlation_id: Some(c), .. } => Some(c@),
        _ => None,
    }
}

/// Decide where a message from the server goes.
pub fn route_server_message(msg: &ServerMessage) -> (r: ServerRoute)
    ensures
        msg is IncomingMessage ==> (r matches ServerRoute::Subscription(s) && s@ == msg->IncomingMessage_subscription_id@),
        !(msg is IncomingMessage) ==> match server_route(*msg) {
            Some(c) => r matches ServerRoute::Response(x) && x@ == c,
            None => r == ServerRoute::Ignore,
        },
{
    match msg {
        ServerMessage::IncomingMessage { subscription_id, .. } => ServerRoute::Subscription(
            String::from_str(subscription_id.as_str()),
        ),
        ServerMessage::MessageSent { correlation_id: Some(c), .. } => ServerRoute::Response(String::from_str(c.as_str())),
        ServerMessage::MessageHistoryResponse { correlation_id, .. } => ServerRoute::Response(
            String::from_str(correlation_id.as_str()),
        ),
        ServerMessage::Error { correlation_id: Some(c), .. } => ServerRoute::Response(String::from_str(c.as_str())),
        _ => ServerRoute::Ignore,
    }
}

/// Why a request to the server did not succeed.
#[derive(Debug)]
pub enum ReplyError {
    /// The request failed with this error.
    Failed(LocaiError),
    /// The server answered with a message that does not answer the request.
    Unexpected(ServerMessage),
}

/// Read the reply to an authentication request (`None` when the reply
/// channel closed): a successful response authenticates; a refusal is an
/// authentication error quoting the server's message.
pub fn read_auth_reply(reply: Option<ServerMessage>) -> (r: Result<(), ReplyError>)
    ensures
        match reply {
            Some(ServerMessage::AuthenticationResponse { success, message, .. }) => if success {
                r is Ok
            } else {
                r matches Err(ReplyError::Failed(LocaiError::Authentication(m)))
                    && m@ == "Authentication failed: "@ + message@
            },
            Some(other) => r matches Err(ReplyError::Unexpected(u)) && u == other,
            None => r matches Err(ReplyError::Failed(LocaiError::Connection(m)))
                && m@ == "Auth response channel closed"@,
        },
{
    match reply {
        Some(ServerMessage::AuthenticationResponse { success, message, .. }) => {
            if success {
                Ok(())
            } else {
                Err(ReplyError::Failed(LocaiError::Authentication(
                    String::from_str("Authentication failed: ").concat(message.as_str()),
                )))
            }
        },
        Some(other) => Err(ReplyError::Unexpected(other)),
        None => Err(ReplyError::Failed(LocaiError::Connection(String::from_str("Auth response channel closed")))),
    }
}

/// Read the reply to a send request: a confirmation gives the new message's
/// identifier; a server error is reported with its message.
pub fn read_send_reply(reply: Option<ServerMessage>) -> (r: Result<MessageId, ReplyError>)
    ensures
        match reply {
            Some(ServerMessage::MessageSent { message_id, .. }) => r matches Ok(id) && id.0 == message_id,
            Some(ServerMessage::Error { message, .. }) => r matches Err(ReplyError::Failed(LocaiError::Other(m)))
                && m@ == "Server error: "@ + message@,
            Some(other) => r matches Err(ReplyError::Unexpected(u)) && u == other,
            None => r matches Err(ReplyError::Failed(LocaiError::Connection(m)))
                && m@ == "Send response channel closed"@,
        },
{
    match reply {
        Some(ServerMessage::MessageSent { message_id, .. }) => Ok(MessageId::from_string(message_id)),
        Some(ServerMessage::Error { message, .. }) => Err(ReplyError::Failed(LocaiError::Other(
            String::from_str("Server error: ").concat(message.as_str()),
        ))),
        Some(other) => Err(ReplyError::Unexpected(other)),
        None => Err(ReplyError::Failed(LocaiError::Connection(String::from_str("Send response channel closed")))),
    }
}

/// Read the reply to a history request: a history response gives its
/// messages; a server error is reported with its message.
pub fn read_history_reply(reply: Option<ServerMessage>) -> (r: Result<Vec<Message>, ReplyError>)
    ensures
        match reply {
            Some(ServerMessage::MessageHistoryResponse { messages, .. }) => r matches Ok(v) && v == messages,
            Some(ServerMessage::Error { message, .. }) => r matches Err(ReplyError::Failed(LocaiError::Other(m)))
                && m@ == "Server error: "@ + message@,
            Some(other) => r matches Err(ReplyError::Unexpected(u)) && u == other,
            None => r matches Err(ReplyError::Failed(LocaiError::Connection(m)))
                && m@ == "History response channel closed"@,
        },
{
    match reply {
        Some(ServerMessage::MessageHistoryResponse { messages, .. }) => Ok(messages),
        Some(ServerMessage::Error { message, .. }) => Err(ReplyError::Failed(LocaiError::Other(
            String::from_str("Server error: ").concat(message.as_str()),
        ))),
        Some(other) => Err(ReplyError::Unexpected(other)),
        None => Err(ReplyError::Failed(LocaiError::Connection(String::from_str("History response channel closed")))),
    }
}

/// The topic and headers of a message sent from one app to another: the
/// topic `app:` target `:` topic, and headers naming the source and target
/// and marking the message as cross-app.
pub fn cross_app_envelope(source_app: &str, target_app: &str, topic: &str) -> (r: (String, Vec<(String, String)>))
    ensures
        r.0@ == "app:"@ + target_app@ + ":"@ + topic@,
        r.1@.len() == 3,
        r.1@[0].0@ == "source_app"@ && r.1@[0].1@ == source_app@,
        r.1@[1].0@ == "target_app"@ && r.1@[1].1@ == target_app@,
        r.1@[2].0@ == "cross_app"@ && r.1@[2].1@ == "true"@,
{
    let topic_text = String::from_str("app:").concat(target_app).concat(":").concat(topic);
    let mut headers: Vec<(String, String)> = Vec::new();
    headers.push((String::from_str("source_app"), String::from_str(source_app)));
    headers.push((String::from_str("target_app"), String::from_str(target_app)));
    headers.push((String::from_str("cross_app"), String::from_str("true")));
    (topic_text, headers)
}

} // verus!
